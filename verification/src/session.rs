//! One call on the interpreter: what is handed over, and what came back.

use vstd::prelude::*;
use vstd::string::*;
use crate::c_text::{nul_free, CText};
use crate::error::VmError;

verus! {

/// Whether `e` says that `bytes` were refused for their first zero byte.
pub open spec fn refused(e: VmError, bytes: Seq<u8>) -> bool {
    e matches VmError::NulError { inner } && inner.refuses(bytes)
}

/// Makes one string ready for the interpreter, or says why it cannot be.
pub fn text(s: &str) -> (made: Result<CText, VmError>)
    ensures
        match made {
            Ok(t) => nul_free(s.spec_bytes()) && t@ == s.spec_bytes(),
            Err(e) => refused(e, s.spec_bytes()),
        },
{
    match CText::new(s) {
        Ok(t) => Ok(t),
        Err(inner) => Err(VmError::from(inner)),
    }
}

/// Makes two strings ready for the interpreter: a file name and its code, or
/// a variable and what it is bound to. The first is looked at first, so when
/// both hold a zero byte the error speaks of the first.
pub fn text_pair(first: &str, second: &str) -> (made: Result<(CText, CText), VmError>)
    ensures
        match made {
            Ok((a, b)) => {
                &&& nul_free(first.spec_bytes())
                &&& nul_free(second.spec_bytes())
                &&& a@ == first.spec_bytes()
                &&& b@ == second.spec_bytes()
            },
            Err(e) => if !nul_free(first.spec_bytes()) {
                refused(e, first.spec_bytes())
            } else {
                refused(e, second.spec_bytes())
            },
        },
{
    let a = match text(first) {
        Ok(a) => a,
        Err(e) => {
            return Err(e);
        },
    };
    let b = match text(second) {
        Ok(b) => b,
        Err(e) => {
            return Err(e);
        },
    };
    Ok((a, b))
}

/// Reads the interpreter's answer to an evaluation or a formatting: with
/// status zero the text is the result, with any other it is the message of
/// the failure.
pub fn outcome(status: i32, text: String) -> (r: Result<String, VmError>)
    ensures
        status == 0 ==> r == Ok::<String, VmError>(text),
        status != 0 ==> r == Err::<String, VmError>(VmError::GoJsonnetError { message: text }),
{
    if status == 0 {
        Ok(text)
    } else {
        Err(VmError::GoJsonnetError { message: text })
    }
}

/// Takes what a JSON reader made of the interpreter's result: the value as
/// it is, or the reader's error as this library's.
pub fn decoded<T>(parsed: Result<T, serde_json::Error>) -> (r: Result<T, VmError>)
    ensures
        match parsed {
            Ok(value) => r == Ok::<T, VmError>(value),
            Err(inner) => r == Err::<T, VmError>(VmError::SerdeError { inner }),
        },
{
    match parsed {
        Ok(value) => Ok(value),
        Err(inner) => Err(VmError::from(inner)),
    }
}

} // verus!
