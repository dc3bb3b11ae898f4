//! The table of named values that the accessors read.

use vstd::prelude::*;

verus! {

/// The mathematical model of an environment: a finite table from names to values.
pub type Table = Map<Seq<char>, Seq<char>>;

/// A table of named string values, as a process receives it from its host.
///
/// Each name is bound at most once. The view of an `Environment` is the
/// map from the bound names to their values.
pub struct Environment {
    entries: Vec<(String, String)>,
}

impl View for Environment {
    type V = Table;

    closed spec fn view(&self) -> Table {
        Map::new(
            |name: Seq<char>| self.binds(name),
            |name: Seq<char>| self.entries[self.slot(name)].1@,
        )
    }
}

impl Environment {
    /// No two entries carry the same name.
    #[verifier::type_invariant]
    closed spec fn names_distinct(self) -> bool {
        forall|i: int, j: int|
            0 <= i < j < self.entries.len() ==> (#[trigger] self.entries[i]).0@
                != (#[trigger] self.entries[j]).0@
    }

    /// Whether some entry carries `name`.
    closed spec fn binds(self, name: Seq<char>) -> bool {
        exists|i: int| 0 <= i < self.entries.len() && (#[trigger] self.entries[i]).0@ == name
    }

    /// The position of an entry that carries `name`, where there is one.
    closed spec fn slot(self, name: Seq<char>) -> int {
        choose|i: int| 0 <= i < self.entries.len() && (#[trigger] self.entries[i]).0@ == name
    }

    /// An environment in which no name is bound.
    pub fn new() -> (env: Environment)
        ensures
            env@ == Map::<Seq<char>, Seq<char>>::empty(),
    {
        let env = Environment { entries: Vec::new() };
        assert(env@ =~= Map::<Seq<char>, Seq<char>>::empty());
        env
    }

    /// The position of the entry that carries `name`, if any.
    fn position(&self, name: &str) -> (r: Option<usize>)
        ensures
            match r {
                Some(i) => i < self.entries.len() && self.entries[i as int].0@ == name@,
                None => forall|j: int|
                    0 <= j < self.entries.len() ==> (#[trigger] self.entries[j]).0@ != name@,
            },
    {
        let wanted = String::from_str(name);
        let mut i: usize = 0;
        while i < self.entries.len()
            invariant
                i <= self.entries.len(),
                wanted@ == name@,
                forall|j: int| 0 <= j < i ==> (#[trigger] self.entries[j]).0@ != name@,
            decreases self.entries.len() - i,
        {
            if self.entries[i].0 == wanted {
                return Some(i);
            }
            i = i + 1;
        }
        None
    }

    /// The value bound to `name`, if `name` is bound.
    pub fn get(&self, name: &str) -> (r: Option<&String>)
        ensures
            match r {
                Some(value) => self@.contains_key(name@) && value@ == self@[name@],
                None => !self@.contains_key(name@),
            },
    {
        proof {
            use_type_invariant(self);
        }
        match self.position(name) {
            Some(i) => {
                assert(self.binds(name@));
                Some(&self.entries[i].1)
            },
            None => None,
        }
    }

    /// Moves the entries out, leaving none behind, so that they can be
    /// changed and put back as a whole.
    fn take_entries(&mut self) -> (entries: Vec<(String, String)>)
        ensures
            entries == old(self).entries,
            final(self).entries.len() == 0,
    {
        let mut entries = Vec::new();
        core::mem::swap(&mut self.entries, &mut entries);
        entries
    }

    /// Binds `name` to `value`, replacing the value that `name` had, if any.
    /// Every other name keeps its binding.
    pub fn set(&mut self, name: &str, value: &str)
        ensures
            final(self)@ == old(self)@.insert(name@, value@),
    {
        proof {
            use_type_invariant(&*self);
        }
        let entry = (String::from_str(name), String::from_str(value));
        let found = self.position(name);
        let mut entries = self.take_entries();
        match found {
            Some(i) => {
                entries.set(i, entry);
            },
            None => {
                entries.push(entry);
            },
        }
        self.entries = entries;
        proof {
            let at = match found {
                Some(i) => i as int,
                None => self.entries.len() - 1,
            };
            assert(self.binds(name@)) by {
                assert(self.entries[at].0@ == name@);
            }
            assert forall|other: Seq<char>| other != name@ && old(self).binds(other) implies
                self.binds(other) && self.entries[self.slot(other)].1@ == old(
                self,
            ).entries[old(self).slot(other)].1@ by {
                let k = old(self).slot(other);
                assert(self.entries[k].0@ == other);
            }
            assert forall|other: Seq<char>| other != name@ && self.binds(other) implies old(
                self,
            ).binds(other) by {
                let k = self.slot(other);
                assert(old(self).entries[k].0@ == other);
            }
            assert(self@ =~= old(self)@.insert(name@, value@));
        }
    }

    /// Unbinds `name`. Every other name keeps its binding.
    pub fn remove(&mut self, name: &str)
        ensures
            final(self)@ == old(self)@.remove(name@),
    {
        proof {
            use_type_invariant(&*self);
        }
        if let Some(i) = self.position(name) {
            let mut entries = self.take_entries();
            entries.remove(i);
            self.entries = entries;
            proof {
                assert forall|other: Seq<char>| other != name@ && old(self).binds(other) implies
                    self.binds(other) && self.entries[self.slot(other)].1@ == old(
                    self,
                ).entries[old(self).slot(other)].1@ by {
                    let k = old(self).slot(other);
                    let moved = if k < i { k } else { k - 1 };
                    assert(self.entries[moved].0@ == other);
                }
                assert forall|other: Seq<char>| self.binds(other) implies other != name@ && old(
                    self,
                ).binds(other) by {
                    let k = self.slot(other);
                    let origin = if k < i { k } else { k + 1 };
                    assert(old(self).entries[origin].0@ == other);
                }
            }
        }
        assert(self@ =~= old(self)@.remove(name@));
    }

    /// Whether `name` is bound.
    pub fn contains(&self, name: &str) -> (b: bool)
        ensures
            b == self@.contains_key(name@),
    {
        self.get(name).is_some()
    }
}

} // verus!
