//! The one error a call can end in, and the message it shows.

use vstd::prelude::*;
use vstd::string::*;
use vstd::std_specs::convert::FromSpecImpl;
use crate::c_text::NulError;

verus! {

/// The error type of serde_json, carried through as it is.
#[verifier::external_type_specification]
#[verifier::external_body]
pub struct ExSerdeJsonError(serde_json::Error);

/// Why a call failed.
#[derive(Debug)]
#[allow(inconsistent_fields)]
pub enum VmError {
    /// Error returned from the Jsonnet interpreter.
    GoJsonnetError { message: String },
    /// A string meant for the interpreter holds a zero byte.
    NulError { inner: NulError },
    /// The JSON that the interpreter returned could not be read into the
    /// type that was asked for.
    SerdeError { inner: serde_json::Error },
}

impl From<NulError> for VmError {
    fn from(inner: NulError) -> (e: VmError) {
        VmError::NulError { inner }
    }
}

impl FromSpecImpl<NulError> for VmError {
    open spec fn obeys_from_spec() -> bool {
        true
    }

    open spec fn from_spec(inner: NulError) -> VmError {
        VmError::NulError { inner }
    }
}

impl From<serde_json::Error> for VmError {
    fn from(inner: serde_json::Error) -> (e: VmError) {
        VmError::SerdeError { inner }
    }
}

impl FromSpecImpl<serde_json::Error> for VmError {
    open spec fn obeys_from_spec() -> bool {
        true
    }

    open spec fn from_spec(inner: serde_json::Error) -> VmError {
        VmError::SerdeError { inner }
    }
}

/// The character of one decimal digit.
pub open spec fn digit(d: int) -> char {
    if d == 0 {
        '0'
    } else if d == 1 {
        '1'
    } else if d == 2 {
        '2'
    } else if d == 3 {
        '3'
    } else if d == 4 {
        '4'
    } else if d == 5 {
        '5'
    } else if d == 6 {
        '6'
    } else if d == 7 {
        '7'
    } else if d == 8 {
        '8'
    } else {
        '9'
    }
}

/// A natural number written in decimal, without leading zeros.
pub open spec fn decimal(n: nat) -> Seq<char>
    decreases n,
{
    if n < 10 {
        seq![digit(n as int)]
    } else {
        decimal(n / 10).push(digit((n % 10) as int))
    }
}

fn digit_text(d: usize) -> (text: &'static str)
    requires
        d < 10,
    ensures
        text@ == seq![digit(d as int)],
{
    proof {
        reveal_strlit("0");
        reveal_strlit("1");
        reveal_strlit("2");
        reveal_strlit("3");
        reveal_strlit("4");
        reveal_strlit("5");
        reveal_strlit("6");
        reveal_strlit("7");
        reveal_strlit("8");
        reveal_strlit("9");
    }
    let text = if d == 0 {
        "0"
    } else if d == 1 {
        "1"
    } else if d == 2 {
        "2"
    } else if d == 3 {
        "3"
    } else if d == 4 {
        "4"
    } else if d == 5 {
        "5"
    } else if d == 6 {
        "6"
    } else if d == 7 {
        "7"
    } else if d == 8 {
        "8"
    } else {
        "9"
    };
    assert(text@ =~= seq![digit(d as int)]);
    text
}

/// `n` written in decimal.
pub fn decimal_text(n: usize) -> (text: String)
    ensures
        text@ == decimal(n as nat),
    decreases n,
{
    if n < 10 {
        digit_text(n).to_owned()
    } else {
        let mut text = decimal_text(n / 10);
        text.append(digit_text(n % 10));
        assert(text@ =~= decimal(n as nat));
        text
    }
}

/// What begins the message of an error that the interpreter returned.
pub open spec fn interpreter_prefix() -> Seq<char> {
    "go-jsonnet returned error: "@
}

/// What begins the message of a refused string.
pub open spec fn nul_prefix() -> Seq<char> {
    "C-string nul error: nul byte found in provided data at position: "@
}

/// What begins the message of JSON that could not be read.
pub open spec fn serde_prefix() -> Seq<char> {
    "Serde error: "@
}

/// The message of an error that the interpreter returned with `message`.
pub fn interpreter_message(message: &str) -> (text: String)
    ensures
        text@ == interpreter_prefix() + message@,
{
    let mut text = "go-jsonnet returned error: ".to_owned();
    text.append(message);
    text
}

/// The message of a string refused for the zero byte at `position`.
pub fn nul_message(position: usize) -> (text: String)
    ensures
        text@ == nul_prefix() + decimal(position as nat),
{
    let mut text = "C-string nul error: nul byte found in provided data at position: ".to_owned();
    let place = decimal_text(position);
    text.append(place.as_str());
    text
}

/// The message of JSON that could not be read, where `detail` says why.
pub fn serde_message(detail: &str) -> (text: String)
    ensures
        text@ == serde_prefix() + detail@,
{
    let mut text = "Serde error: ".to_owned();
    text.append(detail);
    text
}

/// Calls the `Display` impl of `serde_json::Error`, which writes the kind of
/// the failure and, where it has one, the line and column. Nothing is claimed
/// of the text.
#[verifier::external_body]
fn serde_error_text(e: &serde_json::Error) -> (text: String) {
    e.to_string()
}

impl VmError {
    /// The message of this error: what it is, then what it carries.
    ///
    /// Of JSON that could not be read the message holds what serde_json says
    /// of it, which is known here only to follow the opening words.
    pub fn to_string(&self) -> (text: String)
        ensures
            match self {
                VmError::GoJsonnetError { message } => text@ == interpreter_prefix() + message@,
                VmError::NulError { inner } => text@ == nul_prefix() + decimal(
                    inner.position() as nat,
                ),
                VmError::SerdeError { .. } => serde_prefix().is_prefix_of(text@),
            },
    {
        match self {
            VmError::GoJsonnetError { message } => interpreter_message(message.as_str()),
            VmError::NulError { inner } => nul_message(inner.nul_position()),
            VmError::SerdeError { inner } => {
                let detail = serde_error_text(inner);
                serde_message(detail.as_str())
            },
        }
    }
}

} // verus!
