//! What is handed back to the interpreter when it calls out: the result of a
//! native function, or the file that an import was looking for.

use vstd::prelude::*;
use vstd::string::*;
use vstd::utf8::encode_utf8;
use crate::c_text::{nul_free, terminated, CText};
use crate::error::VmError;
use crate::json::Json;
use crate::session::{refused, text};

verus! {

/// Result of the imported content.
#[derive(Debug, PartialEq, Eq)]
pub struct ImportedContent {
    /// Path to the imported file, absolute or relative to the process's CWD.
    pub found_here: String,
    /// Content of the imported file
    pub content: String,
}

/// What an import hands back to the interpreter, each text closed by a zero
/// byte.
#[derive(Debug, PartialEq, Eq)]
pub struct ImportReply {
    /// 1 where the file was found, 0 where it was not.
    pub success: i32,
    /// Where the file was found. Set only on success.
    pub found_here: Option<Vec<u8>>,
    /// The content of the file on success, the message of the failure
    /// otherwise.
    pub body: Vec<u8>,
}

/// Turns the outcome of an import into what the interpreter is handed: on
/// success the flag 1, the place and the content; on failure the flag 0, no
/// place, and the message.
pub fn import_reply(found: Result<ImportedContent, String>) -> (reply: ImportReply)
    ensures
        match found {
            Ok(file) => {
                &&& reply.success == 1
                &&& reply.found_here matches Some(place)
                &&& place@ == encode_utf8(file.found_here@).push(0)
                &&& reply.body@ == encode_utf8(file.content@).push(0)
            },
            Err(message) => {
                &&& reply.success == 0
                &&& reply.found_here is None
                &&& reply.body@ == encode_utf8(message@).push(0)
            },
        },
{
    match found {
        Ok(file) => ImportReply {
            success: 1,
            found_here: Some(terminated(file.found_here.as_str())),
            body: terminated(file.content.as_str()),
        },
        Err(message) => ImportReply {
            success: 0,
            found_here: None,
            body: terminated(message.as_str()),
        },
    }
}

/// Turns what a native function returned into what the interpreter is
/// handed. The call counts as a success only where the function returned a
/// value that can be handed over whole: then the success flag is set to 1
/// and the value is the result. Where it returned none, or one with a zero
/// byte in a string or a field name, the flag is set to 0, whatever it held
/// before, and the result is null: the interpreter sees a failure, never a
/// null that passes for a result.
pub fn native_reply(returned: Option<Json>, success: &mut i32) -> (value: Json)
    ensures
        value@.c_safe(),
        match returned {
            Some(v) => if v@.c_safe() {
                value == v && *final(success) == 1
            } else {
                value == Json::Null && *final(success) == 0
            },
            None => value == Json::Null && *final(success) == 0,
        },
{
    match returned {
        Some(v) => {
            if v.is_c_safe() {
                *success = 1;
                v
            } else {
                *success = 0;
                Json::Null
            }
        },
        None => {
            *success = 0;
            Json::Null
        },
    }
}

/// A native function as the interpreter is told of it.
#[derive(Debug, PartialEq, Eq)]
pub struct NativeSignature {
    /// The name under which Jsonnet code finds the function.
    pub name: CText,
    /// The names of its parameters, in order.
    pub params: Vec<CText>,
    /// How many arguments each call brings: one for each parameter.
    pub argc: usize,
}

/// Whether `at` is the first of `params` that holds a zero byte.
pub open spec fn is_first_unsafe(params: Seq<&str>, at: int) -> bool {
    &&& 0 <= at < params.len()
    &&& !nul_free(params[at].spec_bytes())
    &&& forall|j: int| 0 <= j < at ==> nul_free(#[trigger] params[j].spec_bytes())
}

/// Makes the name of a native function and the names of its parameters
/// ready for the interpreter. The name is looked at first, then the
/// parameters in order; the error speaks of the first that holds a zero
/// byte.
pub fn native_signature(name: &str, params: &[&str]) -> (made: Result<NativeSignature, VmError>)
    ensures
        match made {
            Ok(sig) => {
                &&& nul_free(name.spec_bytes())
                &&& sig.name@ == name.spec_bytes()
                &&& sig.argc == params@.len()
                &&& sig.params@.len() == params@.len()
                &&& forall|i: int|
                    0 <= i < params@.len() ==> nul_free(#[trigger] params@[i].spec_bytes())
                        && sig.params@[i]@ == params@[i].spec_bytes()
            },
            Err(e) => if !nul_free(name.spec_bytes()) {
                refused(e, name.spec_bytes())
            } else {
                exists|at: int|
                    is_first_unsafe(params@, at) && refused(e, #[trigger] params@[at].spec_bytes())
            },
        },
{
    let name_c = match text(name) {
        Ok(t) => t,
        Err(e) => {
            return Err(e);
        },
    };
    let mut params_c: Vec<CText> = Vec::new();
    let mut i: usize = 0;
    while i < params.len()
        invariant
            i <= params@.len(),
            params_c@.len() == i,
            nul_free(name.spec_bytes()),
            forall|j: int|
                0 <= j < i ==> nul_free(#[trigger] params@[j].spec_bytes()) && params_c@[j]@
                    == params@[j].spec_bytes(),
        decreases params@.len() - i,
    {
        match text(params[i]) {
            Ok(t) => {
                params_c.push(t);
            },
            Err(e) => {
                proof {
                    let inner = e->NulError_inner;
                    crate::c_text::first_nul_is_unique(
                        params@[i as int].spec_bytes(),
                        inner.position(),
                        0,
                    );
                    assert(is_first_unsafe(params@, i as int));
                    assert(refused(e, params@[i as int].spec_bytes()));
                }
                return Err(e);
            },
        }
        i += 1;
    }
    Ok(NativeSignature { name: name_c, params: params_c, argc: params.len() })
}

} // verus!
