//! The holders of the native functions that are registered, by name.
//!
//! The interpreter keeps a plain pointer to whatever stands behind a native
//! function. Whoever registers the function owns what the pointer leads to,
//! and has to free it when another function takes the name or when the
//! interpreter goes away. This table says which holder that is.

use vstd::prelude::*;

verus! {

/// A table from the names of native functions to their holders.
pub struct Holders<H> {
    entries: Vec<(String, H)>,
}

/// Whether `at` is a place in `entries` where `name` stands.
pub open spec fn stands_at<H>(entries: Seq<(String, H)>, name: Seq<char>, at: int) -> bool {
    0 <= at < entries.len() && entries[at].0@ == name
}

/// Whether no name stands at two places of `entries`.
pub open spec fn names_differ<H>(entries: Seq<(String, H)>) -> bool {
    forall|i: int, j: int|
        0 <= i < entries.len() && 0 <= j < entries.len() && i != j ==> (#[trigger] entries[i]).0@
            != (#[trigger] entries[j]).0@
}

/// The table that `entries` stand for.
pub open spec fn table_of<H>(entries: Seq<(String, H)>) -> Map<Seq<char>, H> {
    Map::new(
        |name: Seq<char>| exists|at: int| stands_at(entries, name, at),
        |name: Seq<char>| entries[choose|at: int| stands_at(entries, name, at)].1,
    )
}

proof fn table_at<H>(entries: Seq<(String, H)>, at: int)
    requires
        names_differ(entries),
        0 <= at < entries.len(),
    ensures
        table_of(entries).dom().contains(entries[at].0@),
        table_of(entries)[entries[at].0@] == entries[at].1,
{
    let name = entries[at].0@;
    assert(stands_at(entries, name, at));
    let chosen = choose|k: int| stands_at(entries, name, k);
    assert(chosen == at);
}

/// Whether `held` are the holders of `table`, one for each name and in the
/// order of `names`, which lists every name of the table once.
pub open spec fn held_under<H>(table: Map<Seq<char>, H>, names: Seq<Seq<char>>, held: Seq<H>) -> bool {
    &&& names.no_duplicates()
    &&& names.to_set() == table.dom()
    &&& names.len() == held.len()
    &&& forall|i: int| 0 <= i < held.len() ==> #[trigger] held[i] == table[names[i]]
}

impl<H> View for Holders<H> {
    type V = Map<Seq<char>, H>;

    /// The holder of each name that is registered.
    closed spec fn view(&self) -> Map<Seq<char>, H> {
        table_of(self.entries@)
    }
}

impl<H> Holders<H> {
    #[verifier::type_invariant]
    spec fn well_formed(&self) -> bool {
        names_differ(self.entries@)
    }

    /// A table with no name in it.
    pub fn new() -> (table: Self)
        ensures
            table@ == Map::<Seq<char>, H>::empty(),
    {
        let table = Holders { entries: Vec::new() };
        assert(table@ =~= Map::<Seq<char>, H>::empty());
        table
    }

    /// How many names are registered.
    pub fn len(&self) -> (n: usize)
        ensures
            n == self@.dom().len(),
            self@.dom().finite(),
    {
        proof {
            use_type_invariant(self);
            domain_size(self.entries@);
        }
        self.entries.len()
    }

    fn find(&self, name: &String) -> (found: Option<usize>)
        ensures
            match found {
                Some(at) => stands_at(self.entries@, name@, at as int),
                None => !self@.dom().contains(name@),
            },
    {
        let mut at: usize = 0;
        while at < self.entries.len()
            invariant
                at <= self.entries@.len(),
                forall|k: int| 0 <= k < at ==> !stands_at(self.entries@, name@, k),
            decreases self.entries@.len() - at,
        {
            if self.entries[at].0 == *name {
                return Some(at);
            }
            at += 1;
        }
        None
    }

    /// Registers `holder` under `name` and hands back the holder that had
    /// the name before, if there was one. Every other name keeps its holder.
    pub fn insert(&mut self, name: &str, holder: H) -> (superseded: Option<H>)
        ensures
            final(self)@ == old(self)@.insert(name@, holder),
            superseded == if old(self)@.dom().contains(name@) {
                Some(old(self)@[name@])
            } else {
                None::<H>
            },
    {
        proof {
            use_type_invariant(&*self);
        }
        let owned = name.to_owned();
        let found = self.find(&owned);
        let mut entries: Vec<(String, H)> = Vec::new();
        core::mem::swap(&mut self.entries, &mut entries);
        let ghost before = entries@;
        let superseded = match found {
            Some(at) => {
                proof {
                    table_at(before, at as int);
                }
                let (_, held) = entries.swap_remove(at);
                proof {
                    removed_table(before, at as int);
                }
                Some(held)
            },
            None => None,
        };
        let ghost between = entries@;
        assert(names_differ(between));
        assert(!table_of(between).dom().contains(name@));
        entries.push((owned, holder));
        proof {
            assert(entries@.drop_last() =~= between);
            pushed_table(between, entries@);
            assert(table_of(entries@) =~= table_of(before).insert(name@, holder));
        }
        core::mem::swap(&mut self.entries, &mut entries);
        superseded
    }

    /// Ends the table and hands out every holder in it: one for each name,
    /// and no other.
    pub fn into_held(self) -> (held: Vec<H>)
        ensures
            self@.dom().finite(),
            exists|names: Seq<Seq<char>>| #[trigger] held_under(self@, names, held@),
            held@.len() == self@.dom().len(),
            forall|name: Seq<char>|
                self@.dom().contains(name) ==> held@.contains(#[trigger] self@[name]),
            forall|i: int| 0 <= i < held@.len() ==> self@.contains_value(#[trigger] held@[i]),
    {
        proof {
            use_type_invariant(&self);
            domain_size(self.entries@);
        }
        let ghost all = self.entries@;
        let mut entries = self.entries;
        let mut held: Vec<H> = Vec::new();
        while entries.len() > 0
            invariant
                entries@.len() + held@.len() == all.len(),
                forall|k: int| 0 <= k < entries@.len() ==> entries@[k] == all[k],
                forall|k: int|
                    0 <= k < held@.len() ==> #[trigger] held@[k] == all[all.len() - 1 - k].1,
            decreases entries@.len(),
        {
            match entries.pop() {
                Some((_, holder)) => {
                    held.push(holder);
                },
                None => {},
            }
        }
        proof {
            assert forall|name: Seq<char>| self@.dom().contains(name) implies held@.contains(
                #[trigger] self@[name],
            ) by {
                let at = choose|at: int| stands_at(all, name, at);
                table_at(all, at);
                assert(held@[all.len() - 1 - at] == all[at].1);
            }
            let names = Seq::new(all.len(), |i: int| all[all.len() - 1 - i].0@);
            assert(names.no_duplicates());
            assert forall|name: Seq<char>| #[trigger]
                names.to_set().contains(name) <==> self@.dom().contains(name) by {
                if names.to_set().contains(name) {
                    let i = choose|i: int| 0 <= i < names.len() && names[i] == name;
                    assert(stands_at(all, name, all.len() - 1 - i));
                }
                if self@.dom().contains(name) {
                    let at = choose|at: int| stands_at(all, name, at);
                    assert(names[all.len() - 1 - at] == name);
                }
            }
            assert(names.to_set() =~= self@.dom());
            assert forall|i: int| 0 <= i < held@.len() implies #[trigger] held@[i]
                == self@[names[i]] by {
                table_at(all, all.len() - 1 - i);
            }
            assert(held_under(self@, names, held@));
            assert forall|i: int| 0 <= i < held@.len() implies self@.contains_value(
                #[trigger] held@[i],
            ) by {
                let at = all.len() - 1 - i;
                table_at(all, at);
                assert(held@[i] == all[at].1);
                let name = all[at].0@;
                assert(self@.dom().contains(name) && self@[name] == held@[i]);
            }
        }
        held
    }
}

proof fn removed_table<H>(entries: Seq<(String, H)>, at: int)
    requires
        names_differ(entries),
        0 <= at < entries.len(),
    ensures
        names_differ(entries.update(at, entries.last()).drop_last()),
        table_of(entries.update(at, entries.last()).drop_last()) =~= table_of(entries).remove(
            entries[at].0@,
        ),
{
    let rest = entries.update(at, entries.last()).drop_last();
    let gone = entries[at].0@;
    let last = entries.len() - 1;
    assert forall|i: int, j: int|
        0 <= i < rest.len() && 0 <= j < rest.len() && i != j implies (#[trigger] rest[i]).0@ != (
        #[trigger] rest[j]).0@ by {
        let from_i = if i == at { last } else { i };
        let from_j = if j == at { last } else { j };
        assert(rest[i] == entries[from_i]);
        assert(rest[j] == entries[from_j]);
    }
    assert forall|name: Seq<char>| #[trigger]
        table_of(rest).dom().contains(name) <==> table_of(entries).remove(gone).dom().contains(
            name,
        ) by {
        if table_of(rest).dom().contains(name) {
            let k = choose|k: int| stands_at(rest, name, k);
            let from = if k == at { last } else { k };
            assert(rest[k] == entries[from]);
            assert(stands_at(entries, name, from));
            assert(entries[from].0@ != entries[at].0@);
        }
        if table_of(entries).remove(gone).dom().contains(name) {
            let k = choose|k: int| stands_at(entries, name, k);
            assert(k != at);
            let to = if k == last { at } else { k };
            assert(rest[to] == entries[k]);
            assert(stands_at(rest, name, to));
        }
    }
    assert forall|name: Seq<char>| #[trigger] table_of(rest).dom().contains(name) implies table_of(
        rest,
    )[name] == table_of(entries).remove(gone)[name] by {
        let k = choose|k: int| stands_at(rest, name, k);
        let from = if k == at { last } else { k };
        assert(rest[k] == entries[from]);
        table_at(rest, k);
        table_at(entries, from);
    }
}

proof fn pushed_table<H>(entries: Seq<(String, H)>, more: Seq<(String, H)>)
    requires
        names_differ(entries),
        more.len() == entries.len() + 1,
        more.drop_last() == entries,
        !table_of(entries).dom().contains(more.last().0@),
    ensures
        names_differ(more),
        table_of(more) =~= table_of(entries).insert(more.last().0@, more.last().1),
{
    let name = more.last().0@;
    let last = more.len() - 1;
    assert forall|i: int, j: int|
        0 <= i < more.len() && 0 <= j < more.len() && i != j implies (#[trigger] more[i]).0@ != (
        #[trigger] more[j]).0@ by {
        if i < last {
            assert(more[i] == entries[i]);
            assert(stands_at(entries, more[i].0@, i));
        }
        if j < last {
            assert(more[j] == entries[j]);
            assert(stands_at(entries, more[j].0@, j));
        }
    }
    assert forall|other: Seq<char>| #[trigger]
        table_of(more).dom().contains(other) <==> table_of(entries).insert(
            name,
            more.last().1,
        ).dom().contains(other) by {
        if table_of(more).dom().contains(other) {
            let k = choose|k: int| stands_at(more, other, k);
            if k < last {
                assert(more[k] == entries[k]);
                assert(stands_at(entries, other, k));
            }
        }
        if other == name {
            assert(stands_at(more, other, last));
        } else if table_of(entries).dom().contains(other) {
            let k = choose|k: int| stands_at(entries, other, k);
            assert(more[k] == entries[k]);
            assert(stands_at(more, other, k));
        }
    }
    assert forall|other: Seq<char>| #[trigger] table_of(more).dom().contains(other) implies table_of(
        more,
    )[other] == table_of(entries).insert(name, more.last().1)[other] by {
        let k = choose|k: int| stands_at(more, other, k);
        table_at(more, k);
        if k < last {
            assert(more[k] == entries[k]);
            table_at(entries, k);
        }
    }
}

proof fn domain_size<H>(entries: Seq<(String, H)>)
    requires
        names_differ(entries),
    ensures
        table_of(entries).dom().finite(),
        table_of(entries).dom().len() == entries.len(),
    decreases entries.len(),
{
    if entries.len() == 0 {
        assert(table_of(entries).dom() =~= Set::<Seq<char>>::empty());
    } else {
        let fewer = entries.drop_last();
        assert forall|i: int, j: int|
            0 <= i < fewer.len() && 0 <= j < fewer.len() && i != j implies (#[trigger] fewer[i]).0@
            != (#[trigger] fewer[j]).0@ by {
            assert(fewer[i] == entries[i]);
            assert(fewer[j] == entries[j]);
        }
        domain_size(fewer);
        let name = entries.last().0@;
        if table_of(fewer).dom().contains(name) {
            let k = choose|k: int| stands_at(fewer, name, k);
            assert(fewer[k] == entries[k]);
            assert(entries[k].0@ == entries[entries.len() - 1].0@);
        }
        pushed_table(fewer, entries);
        assert(table_of(entries).dom() =~= table_of(fewer).dom().insert(name));
    }
}

} // verus!
