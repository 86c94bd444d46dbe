//! JSON values on the boundary between the interpreter and a native function.

use vstd::prelude::*;
use vstd::utf8::encode_utf8;
use crate::c_text::nul_free;

verus! {

/// A JSON value as a native function takes and returns it.
#[derive(Debug, PartialEq)]
pub enum Json {
    Null,
    Bool(bool),
    /// A number, held as the 64 bits of its IEEE 754 double-precision form.
    Number(u64),
    Text(String),
    Array(Vec<Json>),
    /// The fields of an object, in the order in which they are handed over.
    Object(Vec<(String, Json)>),
}

/// What a JSON value is to the interpreter: a tree whose strings are UTF-8.
pub enum Tree {
    Null,
    Bool(bool),
    Number(u64),
    Text(Seq<u8>),
    Array(Seq<Tree>),
    Object(Seq<(Seq<u8>, Tree)>),
}

impl View for Json {
    type V = Tree;

    open spec fn view(&self) -> Tree
        decreases self,
    {
        match self {
            Json::Null => Tree::Null,
            Json::Bool(b) => Tree::Bool(*b),
            Json::Number(bits) => Tree::Number(*bits),
            Json::Text(s) => Tree::Text(encode_utf8(s@)),
            Json::Array(items) => Tree::Array(
                Seq::new(
                    items@.len(),
                    |i: int|
                        if 0 <= i < items@.len() {
                            items@[i]@
                        } else {
                            Tree::Null
                        },
                ),
            ),
            Json::Object(fields) => Tree::Object(
                Seq::new(
                    fields@.len(),
                    |i: int|
                        if 0 <= i < fields@.len() {
                            (encode_utf8(fields@[i].0@), fields@[i].1@)
                        } else {
                            (Seq::empty(), Tree::Null)
                        },
                ),
            ),
        }
    }
}

impl Tree {
    /// Whether every string and every field name of the tree can be read by
    /// C to its end: none holds a zero byte.
    pub open spec fn c_safe(self) -> bool
        decreases self,
    {
        match self {
            Tree::Null => true,
            Tree::Bool(_) => true,
            Tree::Number(_) => true,
            Tree::Text(bytes) => nul_free(bytes),
            Tree::Array(items) => forall|i: int| 0 <= i < items.len() ==> (#[trigger] items[i]).c_safe(),
            Tree::Object(fields) => forall|i: int|
                0 <= i < fields.len() ==> nul_free((#[trigger] fields[i]).0) && fields[i].1.c_safe(),
        }
    }
}

/// The view of an array is the array of the views of its items.
pub proof fn array_view(value: Json)
    requires
        value is Array,
    ensures
        value@ is Array,
        value@->Array_0.len() == value->Array_0@.len(),
        forall|k: int|
            0 <= k < value->Array_0@.len() ==> #[trigger] value@->Array_0[k]
                == value->Array_0@[k]@,
{
    reveal_with_fuel(<Json as View>::view, 2);
}

/// The view of an object is the sequence of its fields, each with its name
/// in UTF-8 and the view of its value.
pub proof fn object_view(value: Json)
    requires
        value is Object,
    ensures
        value@ is Object,
        value@->Object_0.len() == value->Object_0@.len(),
        forall|k: int|
            0 <= k < value->Object_0@.len() ==> #[trigger] value@->Object_0[k] == (
                encode_utf8(value->Object_0@[k].0@),
                value->Object_0@[k].1@,
            ),
{
    reveal_with_fuel(<Json as View>::view, 2);
}

/// An array is safe for C exactly when each of its items is.
pub proof fn array_safe(items: Seq<Tree>)
    ensures
        Tree::Array(items).c_safe() <==> forall|i: int|
            0 <= i < items.len() ==> (#[trigger] items[i]).c_safe(),
{
    let whole = Tree::Array(items);
    assert(decreases_to!(whole => whole->Array_0));
    assert forall|i: int| 0 <= i < items.len() implies decreases_to!(whole => #[trigger] items[i]) by {
        assert(decreases_to!(items => items[i]));
    }
}

/// An object is safe for C exactly when each of its names and values is.
pub proof fn object_safe(fields: Seq<(Seq<u8>, Tree)>)
    ensures
        Tree::Object(fields).c_safe() <==> forall|i: int|
            0 <= i < fields.len() ==> nul_free((#[trigger] fields[i]).0) && fields[i].1.c_safe(),
{
    let whole = Tree::Object(fields);
    assert(decreases_to!(whole => whole->Object_0));
    assert forall|i: int| 0 <= i < fields.len() implies decreases_to!(whole => (#[trigger] fields[i]).1) by {
        assert(decreases_to!(fields => fields[i]));
        assert(decreases_to!(fields[i] => fields[i].1));
    }
}

} // verus!
