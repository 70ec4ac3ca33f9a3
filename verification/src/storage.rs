//! The node's table of execution objects: what is bound to each
//! functionality name.

use vstd::prelude::*;
use crate::assoc::{as_map, lemma_entry, lemma_push, lemma_swap_remove};

verus! {

/// The objects bound to one functionality name.
struct Bound<B> {
    name: String,
    objects: B,
}

spec fn names<B>(entries: Seq<Bound<B>>) -> Seq<Seq<char>> {
    Seq::new(entries.len(), |k: int| entries[k].name@)
}

spec fn bound<B>(entries: Seq<Bound<B>>) -> Seq<B> {
    Seq::new(entries.len(), |k: int| entries[k].objects)
}

/// Index of the entry of the functionality `name`.
fn position<B>(entries: &Vec<Bound<B>>, name: &String) -> (found: Option<usize>)
    ensures
        match found {
            Some(k) => k < entries.len() && entries@[k as int].name@ == name@ && names(
                entries@,
            ).contains(name@),
            None => !names(entries@).contains(name@),
        },
{
    let mut k: usize = 0;
    while k < entries.len()
        invariant
            k <= entries.len(),
            forall|i: int| 0 <= i < k ==> (#[trigger] names(entries@)[i]) != name@,
        decreases entries.len() - k,
    {
        if entries[k].name == *name {
            assert(names(entries@)[k as int] == name@);
            return Some(k);
        }
        k += 1;
    }
    None
}

/// A table from functionality names to the objects a node has bound to them:
/// the reader and writer of a functionality's channels, or whatever else the
/// node keeps for it. A name is bound at most once.
pub struct ExecutionObjects<B> {
    entries: Vec<Bound<B>>,
}

impl<B> View for ExecutionObjects<B> {
    type V = Map<Seq<char>, B>;

    closed spec fn view(&self) -> Map<Seq<char>, B> {
        as_map(names(self.entries@), bound(self.entries@))
    }
}

impl<B> ExecutionObjects<B> {
    #[verifier::type_invariant]
    spec fn well_formed(self) -> bool {
        names(self.entries@).no_duplicates()
    }

    pub fn new() -> (table: Self)
        ensures
            table@ == Map::<Seq<char>, B>::empty(),
    {
        let table = ExecutionObjects { entries: Vec::new() };
        assert(table@ =~= Map::<Seq<char>, B>::empty());
        table
    }

    /// Whether nothing is bound.
    pub fn is_empty(&self) -> (empty: bool)
        ensures
            empty == (self@ == Map::<Seq<char>, B>::empty()),
    {
        proof {
            if self.entries@.len() > 0 {
                assert(names(self.entries@).contains(names(self.entries@)[0]));
                assert(self@.contains_key(names(self.entries@)[0]));
            } else {
                assert(self@ =~= Map::<Seq<char>, B>::empty());
            }
        }
        self.entries.len() == 0
    }

    /// Whether something is bound to `name`.
    pub fn contains(&self, name: &String) -> (bound: bool)
        ensures
            bound == self@.contains_key(name@),
    {
        position(&self.entries, name).is_some()
    }

    /// What is bound to `name`.
    pub fn get(&self, name: &String) -> (found: Option<&B>)
        ensures
            found == if self@.contains_key(name@) {
                Some(&self@[name@])
            } else {
                None
            },
    {
        proof {
            use_type_invariant(self);
        }
        match position(&self.entries, name) {
            Some(k) => {
                proof {
                    lemma_entry(names(self.entries@), bound(self.entries@), k as int);
                }
                Some(&self.entries[k].objects)
            },
            None => None,
        }
    }

    /// Binds `objects` to `name`. What was bound to the name before is
    /// unbound and handed back.
    pub fn bind(&mut self, name: String, objects: B) -> (previous: Option<B>)
        ensures
            final(self)@ == old(self)@.insert(name@, objects),
            previous == if old(self)@.contains_key(name@) {
                Some(old(self)@[name@])
            } else {
                None
            },
    {
        proof {
            use_type_invariant(&*self);
        }
        let found = position(&self.entries, &name);
        let mut entries = Vec::new();
        std::mem::swap(&mut entries, &mut self.entries);
        let ghost before = entries@;
        let previous = match found {
            Some(k) => {
                proof {
                    lemma_entry(names(before), bound(before), k as int);
                    lemma_swap_remove(names(before), bound(before), k as int);
                }
                let unbound = entries.swap_remove(k);
                assert(names(entries@) =~= names(before).update(
                    k as int,
                    names(before).last(),
                ).drop_last());
                assert(bound(entries@) =~= bound(before).update(
                    k as int,
                    bound(before).last(),
                ).drop_last());
                Some(unbound.objects)
            },
            None => None,
        };
        proof {
            let left = entries@;
            lemma_push(names(left), bound(left), name@, objects);
            assert(names(left.push(Bound { name, objects })) =~= names(left).push(name@));
            assert(bound(left.push(Bound { name, objects })) =~= bound(left).push(objects));
            assert(as_map(names(before), bound(before)).remove(name@).insert(name@, objects)
                =~= as_map(names(before), bound(before)).insert(name@, objects));
        }
        entries.push(Bound { name, objects });
        self.entries = entries;
        previous
    }

    /// Unbinds `name` and hands back what was bound to it.
    pub fn unbind(&mut self, name: &String) -> (previous: Option<B>)
        ensures
            final(self)@ == old(self)@.remove(name@),
            previous == if old(self)@.contains_key(name@) {
                Some(old(self)@[name@])
            } else {
                None
            },
    {
        proof {
            use_type_invariant(&*self);
        }
        match position(&self.entries, name) {
            Some(k) => {
                let mut entries = Vec::new();
                std::mem::swap(&mut entries, &mut self.entries);
                let ghost before = entries@;
                proof {
                    lemma_entry(names(before), bound(before), k as int);
                    lemma_swap_remove(names(before), bound(before), k as int);
                }
                let unbound = entries.swap_remove(k);
                assert(names(entries@) =~= names(before).update(
                    k as int,
                    names(before).last(),
                ).drop_last());
                assert(bound(entries@) =~= bound(before).update(
                    k as int,
                    bound(before).last(),
                ).drop_last());
                self.entries = entries;
                Some(unbound.objects)
            },
            None => {
                assert(self@.remove(name@) =~= self@);
                None
            },
        }
    }
}

} // verus!
