//! Building a value on the interpreter's side, one step at a time.
//!
//! The interpreter offers no call that takes a whole value. It makes scalars,
//! makes empty arrays and objects, and appends to them. A value is therefore
//! handed over as a plan: a sequence of such steps that works on a stack of
//! values under construction and leaves the finished value on top.

use vstd::prelude::*;
use vstd::string::*;
use crate::c_text::{find_nul, nul_free, CText};
use crate::json::{array_safe, array_view, object_safe, object_view, Json, Tree};

verus! {

/// One step of a plan, with its text made ready for C.
#[derive(Debug, PartialEq)]
pub enum Op {
    /// Push null.
    Null,
    /// Push a boolean.
    Bool(bool),
    /// Push the number with these bits.
    Number(u64),
    /// Push a string.
    Text(CText),
    /// Push an empty array.
    Array,
    /// Take the top value off and append it to the array below it.
    Append,
    /// Push an empty object.
    Object,
    /// Take the top value off and add it, under this name, to the object
    /// below it.
    Field(CText),
}

/// One step of a plan, as it is reasoned about.
pub enum Instruction {
    Null,
    Bool(bool),
    Number(u64),
    Text(Seq<u8>),
    Array,
    Append,
    Object,
    Field(Seq<u8>),
}

impl View for Op {
    type V = Instruction;

    open spec fn view(&self) -> Instruction {
        match self {
            Op::Null => Instruction::Null,
            Op::Bool(b) => Instruction::Bool(*b),
            Op::Number(bits) => Instruction::Number(*bits),
            Op::Text(text) => Instruction::Text(text@),
            Op::Array => Instruction::Array,
            Op::Append => Instruction::Append,
            Op::Object => Instruction::Object,
            Op::Field(name) => Instruction::Field(name@),
        }
    }
}

/// The steps that a sequence of operations stands for.
pub open spec fn instructions(ops: Seq<Op>) -> Seq<Instruction> {
    ops.map_values(|op: Op| op@)
}

/// The plan that builds `tree`: a scalar is one step; an array or an object
/// is opened, then each member is built and attached, in order.
pub open spec fn plan_of(tree: Tree) -> Seq<Instruction>
    decreases tree, 0nat,
{
    match tree {
        Tree::Null => seq![Instruction::Null],
        Tree::Bool(b) => seq![Instruction::Bool(b)],
        Tree::Number(bits) => seq![Instruction::Number(bits)],
        Tree::Text(bytes) => seq![Instruction::Text(bytes)],
        Tree::Array(items) => seq![Instruction::Array] + items_plan(items, items.len()),
        Tree::Object(fields) => seq![Instruction::Object] + fields_plan(fields, fields.len()),
    }
}

/// The steps that build and append the first `n` of `items`.
pub open spec fn items_plan(items: Seq<Tree>, n: nat) -> Seq<Instruction>
    decreases items, n,
{
    if n == 0 || n > items.len() {
        Seq::empty()
    } else {
        items_plan(items, (n - 1) as nat) + plan_of(items[n - 1]).push(Instruction::Append)
    }
}

/// The steps that build and attach the first `n` of `fields`.
pub open spec fn fields_plan(fields: Seq<(Seq<u8>, Tree)>, n: nat) -> Seq<Instruction>
    decreases fields, n,
{
    if n == 0 || n > fields.len() {
        Seq::empty()
    } else {
        fields_plan(fields, (n - 1) as nat) + plan_of(fields[n - 1].1).push(
            Instruction::Field(fields[n - 1].0),
        )
    }
}

/// The stack after one step, or `None` where the step finds nothing to work
/// on: `Append` needs a value on top of an array, `Field` a value on top of
/// an object.
pub open spec fn step(op: Instruction, stack: Seq<Tree>) -> Option<Seq<Tree>> {
    match op {
        Instruction::Null => Some(stack.push(Tree::Null)),
        Instruction::Bool(b) => Some(stack.push(Tree::Bool(b))),
        Instruction::Number(bits) => Some(stack.push(Tree::Number(bits))),
        Instruction::Text(bytes) => Some(stack.push(Tree::Text(bytes))),
        Instruction::Array => Some(stack.push(Tree::Array(Seq::empty()))),
        Instruction::Object => Some(stack.push(Tree::Object(Seq::empty()))),
        Instruction::Append => if stack.len() >= 2 {
            match stack[stack.len() - 2] {
                Tree::Array(items) => Some(
                    stack.take(stack.len() - 2).push(Tree::Array(items.push(stack.last()))),
                ),
                _ => None,
            }
        } else {
            None
        },
        Instruction::Field(name) => if stack.len() >= 2 {
            match stack[stack.len() - 2] {
                Tree::Object(fields) => Some(
                    stack.take(stack.len() - 2).push(
                        Tree::Object(fields.push((name, stack.last()))),
                    ),
                ),
                _ => None,
            }
        } else {
            None
        },
    }
}

/// The stack after all of `ops`, taken in order, or `None` where one of
/// them finds nothing to work on.
pub open spec fn replay(ops: Seq<Instruction>, stack: Seq<Tree>) -> Option<Seq<Tree>>
    decreases ops.len(),
{
    if ops.len() == 0 {
        Some(stack)
    } else {
        match step(ops.first(), stack) {
            Some(next) => replay(ops.drop_first(), next),
            None => None,
        }
    }
}

/// Replaying two plans one after the other is replaying them joined.
pub proof fn replay_joined(first: Seq<Instruction>, second: Seq<Instruction>, stack: Seq<Tree>)
    ensures
        replay(first + second, stack) == match replay(first, stack) {
            Some(between) => replay(second, between),
            None => None,
        },
    decreases first.len(),
{
    if first.len() == 0 {
        assert(first + second =~= second);
    } else {
        assert((first + second).first() == first.first());
        assert((first + second).drop_first() =~= first.drop_first() + second);
        match step(first.first(), stack) {
            Some(next) => replay_joined(first.drop_first(), second, next),
            None => {},
        }
    }
}

proof fn replay_one(op: Instruction, stack: Seq<Tree>)
    ensures
        replay(seq![op], stack) == step(op, stack),
{
    let ops = seq![op];
    assert(ops.first() == op);
    assert(ops.drop_first() =~= Seq::<Instruction>::empty());
    match step(op, stack) {
        Some(next) => {
            assert(replay(ops.drop_first(), next) == Some(next));
        },
        None => {},
    }
}

/// The plan of a tree builds that tree: replayed on any stack, it leaves
/// the stack as it was, with the tree on top.
pub proof fn plan_builds(tree: Tree, stack: Seq<Tree>)
    ensures
        replay(plan_of(tree), stack) == Some(stack.push(tree)),
    decreases tree, 0nat,
{
    match tree {
        Tree::Null => replay_one(Instruction::Null, stack),
        Tree::Bool(b) => replay_one(Instruction::Bool(b), stack),
        Tree::Number(bits) => replay_one(Instruction::Number(bits), stack),
        Tree::Text(bytes) => replay_one(Instruction::Text(bytes), stack),
        Tree::Array(items) => {
            replay_joined(seq![Instruction::Array], items_plan(items, items.len()), stack);
            replay_one(Instruction::Array, stack);
            items_build(items, items.len(), stack);
            assert(items.take(items.len() as int) =~= items);
        },
        Tree::Object(fields) => {
            replay_joined(seq![Instruction::Object], fields_plan(fields, fields.len()), stack);
            replay_one(Instruction::Object, stack);
            fields_build(fields, fields.len(), stack);
            assert(fields.take(fields.len() as int) =~= fields);
        },
    }
}

proof fn items_build(items: Seq<Tree>, n: nat, stack: Seq<Tree>)
    requires
        n <= items.len(),
    ensures
        replay(items_plan(items, n), stack.push(Tree::Array(Seq::empty()))) == Some(
            stack.push(Tree::Array(items.take(n as int))),
        ),
    decreases items, n,
{
    let opened = stack.push(Tree::Array(Seq::empty()));
    if n == 0 {
        assert(items.take(0) =~= Seq::<Tree>::empty());
    } else {
        let before = items_plan(items, (n - 1) as nat);
        let item = items[n - 1];
        let held = stack.push(Tree::Array(items.take(n - 1)));
        items_build(items, (n - 1) as nat, stack);
        replay_joined(before, plan_of(item).push(Instruction::Append), opened);
        assert(plan_of(item).push(Instruction::Append) =~= plan_of(item) + seq![
            Instruction::Append,
        ]);
        replay_joined(plan_of(item), seq![Instruction::Append], held);
        plan_builds(item, held);
        replay_one(Instruction::Append, held.push(item));
        let top = held.push(item);
        assert(top.take(top.len() - 2) =~= stack);
        assert(items.take(n - 1).push(item) =~= items.take(n as int));
    }
}

proof fn fields_build(fields: Seq<(Seq<u8>, Tree)>, n: nat, stack: Seq<Tree>)
    requires
        n <= fields.len(),
    ensures
        replay(fields_plan(fields, n), stack.push(Tree::Object(Seq::empty()))) == Some(
            stack.push(Tree::Object(fields.take(n as int))),
        ),
    decreases fields, n,
{
    let opened = stack.push(Tree::Object(Seq::empty()));
    if n == 0 {
        assert(fields.take(0) =~= Seq::<(Seq<u8>, Tree)>::empty());
    } else {
        let before = fields_plan(fields, (n - 1) as nat);
        let name = fields[n - 1].0;
        let member = fields[n - 1].1;
        let held = stack.push(Tree::Object(fields.take(n - 1)));
        fields_build(fields, (n - 1) as nat, stack);
        replay_joined(before, plan_of(member).push(Instruction::Field(name)), opened);
        assert(plan_of(member).push(Instruction::Field(name)) =~= plan_of(member) + seq![
            Instruction::Field(name),
        ]);
        replay_joined(plan_of(member), seq![Instruction::Field(name)], held);
        plan_builds(member, held);
        replay_one(Instruction::Field(name), held.push(member));
        let top = held.push(member);
        assert(top.take(top.len() - 2) =~= stack);
        assert(fields.take(n - 1).push((name, member)) =~= fields.take(n as int));
    }
}

fn text_is_safe(s: &str) -> (safe: bool)
    ensures
        safe == nul_free(s.spec_bytes()),
{
    find_nul(s.as_bytes()).is_none()
}

fn ready(s: &str) -> (text: CText)
    requires
        nul_free(s.spec_bytes()),
    ensures
        text@ == s.spec_bytes(),
{
    match CText::new(s) {
        Ok(text) => text,
        Err(e) => {
            proof {
                crate::c_text::first_nul_is_unique(s.spec_bytes(), e.position(), 0);
            }
            vstd::pervasive::unreached()
        },
    }
}

fn emit(value: &Json, ops: &mut Vec<Op>)
    requires
        value@.c_safe(),
    ensures
        instructions(final(ops)@) == instructions(old(ops)@) + plan_of(value@),
    decreases value,
{
    let ghost start = instructions(ops@);
    match value {
        Json::Null => {
            ops.push(Op::Null);
            assert(instructions(ops@) =~= start + plan_of(value@));
        },
        Json::Bool(b) => {
            ops.push(Op::Bool(*b));
            assert(instructions(ops@) =~= start + plan_of(value@));
        },
        Json::Number(bits) => {
            ops.push(Op::Number(*bits));
            assert(instructions(ops@) =~= start + plan_of(value@));
        },
        Json::Text(s) => {
            let text = ready(s.as_str());
            ops.push(Op::Text(text));
            assert(instructions(ops@) =~= start + plan_of(value@));
        },
        Json::Array(items) => {
            let ghost trees = value@->Array_0;
            proof {
                array_view(*value);
                array_safe(trees);
            }
            ops.push(Op::Array);
            assert(instructions(ops@) =~= start + seq![Instruction::Array] + items_plan(trees, 0));
            let mut i: usize = 0;
            while i < items.len()
                invariant
                    i <= items@.len(),
                    trees.len() == items@.len(),
                    *value == Json::Array(*items),
                    forall|k: int| 0 <= k < items@.len() ==> trees[k] == items@[k]@,
                    forall|k: int| 0 <= k < trees.len() ==> (#[trigger] trees[k]).c_safe(),
                    instructions(ops@) == start + seq![Instruction::Array] + items_plan(
                        trees,
                        i as nat,
                    ),
                decreases items@.len() - i,
            {
                let ghost before = instructions(ops@);
                assert(trees[i as int].c_safe());
                assert(decreases_to!(value => value->Array_0));
                assert(decreases_to!(items => items[i as int]));
                emit(&items[i], ops);
                let ghost built = instructions(ops@);
                ops.push(Op::Append);
                assert(instructions(ops@) =~= built.push(Instruction::Append));
                assert(instructions(ops@) =~= before + plan_of(trees[i as int]).push(
                    Instruction::Append,
                ));
                i += 1;
                assert(instructions(ops@) =~= start + seq![Instruction::Array] + items_plan(
                    trees,
                    i as nat,
                ));
            }
            assert(instructions(ops@) =~= start + plan_of(value@));
        },
        Json::Object(fields) => {
            let ghost trees = value@->Object_0;
            proof {
                object_view(*value);
                object_safe(trees);
            }
            ops.push(Op::Object);
            assert(instructions(ops@) =~= start + seq![Instruction::Object] + fields_plan(
                trees,
                0,
            ));
            let mut i: usize = 0;
            while i < fields.len()
                invariant
                    i <= fields@.len(),
                    trees.len() == fields@.len(),
                    *value == Json::Object(*fields),
                    forall|k: int|
                        0 <= k < fields@.len() ==> trees[k] == (
                            vstd::utf8::encode_utf8(fields@[k].0@),
                            fields@[k].1@,
                        ),
                    forall|k: int|
                        0 <= k < trees.len() ==> nul_free((#[trigger] trees[k]).0)
                            && trees[k].1.c_safe(),
                    instructions(ops@) == start + seq![Instruction::Object] + fields_plan(
                        trees,
                        i as nat,
                    ),
                decreases fields@.len() - i,
            {
                let ghost before = instructions(ops@);
                assert(nul_free(trees[i as int].0) && trees[i as int].1.c_safe());
                assert(decreases_to!(value => value->Object_0));
                assert(decreases_to!(fields => fields[i as int]));
                assert(decreases_to!(fields[i as int] => fields[i as int].1));
                emit(&fields[i].1, ops);
                let ghost built = instructions(ops@);
                let name = ready(fields[i].0.as_str());
                ops.push(Op::Field(name));
                assert(instructions(ops@) =~= built.push(Instruction::Field(trees[i as int].0)));
                assert(instructions(ops@) =~= before + plan_of(trees[i as int].1).push(
                    Instruction::Field(trees[i as int].0),
                ));
                i += 1;
                assert(instructions(ops@) =~= start + seq![Instruction::Object] + fields_plan(
                    trees,
                    i as nat,
                ));
            }
            assert(instructions(ops@) =~= start + plan_of(value@));
        },
    }
}

impl Json {
    /// Whether the value can be handed to the interpreter whole: no string
    /// in it, and no field name, holds a zero byte.
    pub fn is_c_safe(&self) -> (safe: bool)
        ensures
            safe == self@.c_safe(),
        decreases self,
    {
        match self {
            Json::Null => true,
            Json::Bool(_) => true,
            Json::Number(_) => true,
            Json::Text(s) => text_is_safe(s.as_str()),
            Json::Array(items) => {
                let ghost trees = self@->Array_0;
                proof {
                    array_view(*self);
                }
                let mut i: usize = 0;
                while i < items.len()
                    invariant
                        i <= items@.len(),
                        trees.len() == items@.len(),
                        *self == Json::Array(*items),
                        self@ == Tree::Array(trees),
                        forall|k: int| 0 <= k < items@.len() ==> trees[k] == items@[k]@,
                        forall|k: int| 0 <= k < i ==> (#[trigger] trees[k]).c_safe(),
                    decreases items@.len() - i,
                {
                    assert(decreases_to!(self => self->Array_0));
                    assert(decreases_to!(items => items[i as int]));
                    if !items[i].is_c_safe() {
                        proof {
                            assert(!trees[i as int].c_safe());
                            array_safe(trees);
                        }
                        return false;
                    }
                    i += 1;
                }
                proof {
                    array_safe(trees);
                }
                true
            },
            Json::Object(fields) => {
                let ghost trees = self@->Object_0;
                proof {
                    object_view(*self);
                }
                let mut i: usize = 0;
                while i < fields.len()
                    invariant
                        i <= fields@.len(),
                        trees.len() == fields@.len(),
                        *self == Json::Object(*fields),
                        self@ == Tree::Object(trees),
                        forall|k: int|
                            0 <= k < fields@.len() ==> trees[k] == (
                                vstd::utf8::encode_utf8(fields@[k].0@),
                                fields@[k].1@,
                            ),
                        forall|k: int|
                            0 <= k < i ==> nul_free((#[trigger] trees[k]).0) && trees[k].1.c_safe(),
                    decreases fields@.len() - i,
                {
                    assert(decreases_to!(self => self->Object_0));
                    assert(decreases_to!(fields => fields[i as int]));
                    assert(decreases_to!(fields[i as int] => fields[i as int].1));
                    if !text_is_safe(fields[i].0.as_str()) || !fields[i].1.is_c_safe() {
                        proof {
                            assert(!(nul_free(trees[i as int].0) && trees[i as int].1.c_safe()));
                            object_safe(trees);
                        }
                        return false;
                    }
                    i += 1;
                }
                proof {
                    object_safe(trees);
                }
                true
            },
        }
    }

    /// The plan that builds this value on the interpreter's side.
    pub fn plan(&self) -> (ops: Vec<Op>)
        requires
            self@.c_safe(),
        ensures
            instructions(ops@) == plan_of(self@),
            replay(instructions(ops@), Seq::empty()) == Some(seq![self@]),
    {
        let mut ops: Vec<Op> = Vec::new();
        assert(instructions(ops@) =~= Seq::<Instruction>::empty());
        emit(self, &mut ops);
        proof {
            assert(instructions(ops@) =~= plan_of(self@));
            plan_builds(self@, Seq::empty());
            assert(Seq::<Tree>::empty().push(self@) =~= seq![self@]);
        }
        ops
    }

    /// The plan that builds this value, or `None` where a string in it, or
    /// a field name, holds a zero byte and so cannot be handed over.
    pub fn checked_plan(&self) -> (ops: Option<Vec<Op>>)
        ensures
            match ops {
                Some(ops) => self@.c_safe() && instructions(ops@) == plan_of(self@),
                None => !self@.c_safe(),
            },
    {
        if self.is_c_safe() {
            Some(self.plan())
        } else {
            None
        }
    }
}

} // verus!
