//! Taking a value of the interpreter apart.
//!
//! The interpreter does not say what kind of value it holds. It answers four
//! questions, each about one kind: is it null, is it a boolean, is it a
//! number, is it a string. They are asked in that order until one is answered
//! with yes. Arrays and objects answer no to all four.

use vstd::prelude::*;
use crate::json::Json;

verus! {

/// A question that the interpreter can be asked about a value.
#[derive(Debug, Clone, Copy, PartialEq, Eq, Structural)]
pub enum Probe {
    /// Is it null?
    Null,
    /// Is it a boolean, and which?
    Bool,
    /// Is it a number, and which?
    Number,
    /// Is it a string, and which?
    Text,
}

/// What the interpreter returned to one question. A question fills in what
/// it has to say and leaves the rest as it finds it.
#[derive(Debug, PartialEq)]
pub struct Reading {
    /// The integer that the call returned.
    pub status: i32,
    /// The bits of the number that the call wrote, where it wrote one.
    pub bits: u64,
    /// The text that the call returned, where it returned one.
    pub text: Option<String>,
}

/// Where the taking apart stands after an answer.
#[derive(Debug, PartialEq)]
pub enum Extraction {
    /// The value is known.
    Value(Json),
    /// The answer was no: this is the next question.
    Ask(Probe),
    /// The value is a number that JSON has no form for: an infinity, or
    /// something that is not a number.
    NotFinite,
    /// The answer to the last question was no: the value is an array or an
    /// object, which cannot be taken apart.
    Unsupported,
}

/// Whether `bits` stand for a finite double: the eleven bits of the exponent
/// are not all ones.
pub open spec fn is_finite(bits: u64) -> bool {
    (bits >> 52) & 0x7ff != 0x7ff
}

/// Whether `bits` stand for a finite double.
pub fn finite(bits: u64) -> (yes: bool)
    ensures
        yes == is_finite(bits),
{
    (bits >> 52) & 0x7ff != 0x7ff
}

/// What follows from `reading` as the answer to `probe`.
///
/// Null answers 1 for yes. A boolean answers 0 for false, 1 for true, and
/// anything else for no. A number answers anything but 0 for yes and writes
/// its bits. A string answers with its text.
pub open spec fn answer_of(probe: Probe, reading: Reading) -> Extraction {
    match probe {
        Probe::Null => if reading.status != 0 {
            Extraction::Value(Json::Null)
        } else {
            Extraction::Ask(Probe::Bool)
        },
        Probe::Bool => if reading.status == 0 {
            Extraction::Value(Json::Bool(false))
        } else if reading.status == 1 {
            Extraction::Value(Json::Bool(true))
        } else {
            Extraction::Ask(Probe::Number)
        },
        Probe::Number => if reading.status == 0 {
            Extraction::Ask(Probe::Text)
        } else if is_finite(reading.bits) {
            Extraction::Value(Json::Number(reading.bits))
        } else {
            Extraction::NotFinite
        },
        Probe::Text => match reading.text {
            Some(s) => Extraction::Value(Json::Text(s)),
            None => Extraction::Unsupported,
        },
    }
}

/// The question to begin with.
pub fn first_probe() -> (probe: Probe)
    ensures
        probe == Probe::Null,
{
    Probe::Null
}

/// Takes the interpreter's answer to `probe` and says what follows: the
/// value, the next question, or that the value cannot be had.
pub fn answer(probe: Probe, reading: Reading) -> (next: Extraction)
    ensures
        next == answer_of(probe, reading),
{
    match probe {
        Probe::Null => {
            if reading.status != 0 {
                Extraction::Value(Json::Null)
            } else {
                Extraction::Ask(Probe::Bool)
            }
        },
        Probe::Bool => {
            if reading.status == 0 {
                Extraction::Value(Json::Bool(false))
            } else if reading.status == 1 {
                Extraction::Value(Json::Bool(true))
            } else {
                Extraction::Ask(Probe::Number)
            }
        },
        Probe::Number => {
            if reading.status == 0 {
                Extraction::Ask(Probe::Text)
            } else if finite(reading.bits) {
                Extraction::Value(Json::Number(reading.bits))
            } else {
                Extraction::NotFinite
            }
        },
        Probe::Text => {
            match reading.text {
                Some(s) => Extraction::Value(Json::Text(s)),
                None => Extraction::Unsupported,
            }
        },
    }
}

/// Gathers the arguments of one call of a native function. The call can be
/// made only where every argument was taken apart to a value: then these are
/// the values, in order. Where one was not (an array, an object, a number
/// that is not finite) there are no arguments, and the call is to end as a
/// failure.
pub fn arguments(taken: Vec<Extraction>) -> (argv: Option<Vec<Json>>)
    ensures
        match argv {
            Some(values) => values@.len() == taken@.len() && forall|i: int|
                0 <= i < taken@.len() ==> taken@[i] == Extraction::Value(#[trigger] values@[i]),
            None => exists|i: int| 0 <= i < taken@.len() && !(#[trigger] taken@[i] is Value),
        },
{
    let ghost all = taken@;
    let mut rest = taken;
    let mut reversed: Vec<Json> = Vec::new();
    while rest.len() > 0
        invariant
            all == taken@,
            rest@.len() + reversed@.len() == all.len(),
            forall|k: int| 0 <= k < rest@.len() ==> rest@[k] == all[k],
            forall|k: int|
                0 <= k < reversed@.len() ==> all[all.len() - 1 - k] == Extraction::Value(
                    #[trigger] reversed@[k],
                ),
        decreases rest@.len(),
    {
        let ghost at = rest@.len() - 1;
        match rest.pop() {
            Some(Extraction::Value(value)) => {
                reversed.push(value);
            },
            _ => {
                assert(!(all[at] is Value));
                return None;
            },
        }
    }
    let mut values: Vec<Json> = Vec::new();
    while reversed.len() > 0
        invariant
            all == taken@,
            reversed@.len() + values@.len() == all.len(),
            forall|k: int|
                0 <= k < reversed@.len() ==> all[all.len() - 1 - k] == Extraction::Value(
                    #[trigger] reversed@[k],
                ),
            forall|k: int|
                0 <= k < values@.len() ==> all[k] == Extraction::Value(#[trigger] values@[k]),
        decreases reversed@.len(),
    {
        match reversed.pop() {
            Some(value) => {
                values.push(value);
            },
            None => {},
        }
    }
    Some(values)
}

impl Probe {
    /// The place of a question in the order of asking.
    pub open spec fn rank(self) -> nat {
        match self {
            Probe::Null => 0,
            Probe::Bool => 1,
            Probe::Number => 2,
            Probe::Text => 3,
        }
    }
}

/// Where the taking apart ends when it begins at `probe` and every question
/// `p` that is asked is answered with `readings(p)`.
pub open spec fn walk(readings: spec_fn(Probe) -> Reading, probe: Probe) -> Extraction
    decreases 3 - probe.rank(),
{
    match answer_of(probe, readings(probe)) {
        Extraction::Ask(next) => if next.rank() > probe.rank() {
            walk(readings, next)
        } else {
            Extraction::Unsupported
        },
        end => end,
    }
}

/// What the interpreter answers about `value`, going by its own account of
/// the four calls: 1 for null and 0 for anything else; 0 or 1 for a boolean
/// and 2 for anything else; 1 and the number for a number, 0 for anything
/// else; the text of a string, and no text for anything else.
pub open spec fn told(value: Json) -> spec_fn(Probe) -> Reading {
    |probe: Probe|
        match probe {
            Probe::Null => Reading {
                status: if value is Null {
                    1i32
                } else {
                    0i32
                },
                bits: 0,
                text: None,
            },
            Probe::Bool => Reading {
                status: match value {
                    Json::Bool(false) => 0i32,
                    Json::Bool(true) => 1i32,
                    _ => 2i32,
                },
                bits: 0,
                text: None,
            },
            Probe::Number => match value {
                Json::Number(bits) => Reading { status: 1, bits, text: None },
                _ => Reading { status: 0, bits: 0, text: None },
            },
            Probe::Text => match value {
                Json::Text(s) => Reading { status: 0, bits: 0, text: Some(s) },
                _ => Reading { status: 0, bits: 0, text: None },
            },
        }
}

/// Every answer ends the taking apart or leads to the question that comes
/// next in the order of asking, so no question is asked twice and at most
/// four are asked.
pub proof fn questions_advance(probe: Probe, reading: Reading)
    ensures
        answer_of(probe, reading) matches Extraction::Ask(next) ==> next.rank() == probe.rank()
            + 1,
        probe == Probe::Text ==> !(answer_of(probe, reading) is Ask),
{
}

/// Whatever the answers are, the taking apart that begins with the first
/// question ends: with a value, or with the news that there is none to be
/// had.
pub proof fn walk_ends(readings: spec_fn(Probe) -> Reading)
    ensures
        !(walk(readings, Probe::Null) is Ask),
{
    reveal_with_fuel(walk, 4);
}

/// Where the interpreter answers as it says it does, the taking apart gives
/// back the very value that the interpreter holds: null, a boolean, a finite
/// number or a string. The interpreter has no call that reads the members of
/// an array or an object, so these end as unsupported, and a number that is
/// not finite ends as such: neither is ever taken for another value.
pub proof fn extraction_recovers(value: Json)
    ensures
        walk(told(value), Probe::Null) == match value {
            Json::Null => Extraction::Value(value),
            Json::Bool(_) => Extraction::Value(value),
            Json::Number(bits) => if is_finite(bits) {
                Extraction::Value(value)
            } else {
                Extraction::NotFinite
            },
            Json::Text(_) => Extraction::Value(value),
            Json::Array(_) => Extraction::Unsupported,
            Json::Object(_) => Extraction::Unsupported,
        },
{
    reveal_with_fuel(walk, 4);
}

/// A call with an argument that the interpreter holds as an array, an
/// object or a number that is not finite has no arguments: where the
/// interpreter answers as it says it does, such an argument is never taken
/// apart to a value.
pub proof fn composite_is_no_argument(value: Json)
    requires
        value is Array || value is Object || (value matches Json::Number(bits) && !is_finite(
            bits,
        )),
    ensures
        !(walk(told(value), Probe::Null) is Value),
{
    extraction_recovers(value);
}

} // verus!
