//! The table of local names that an entry file binds to modules.
use vstd::prelude::*;
use crate::text::{chars_eq, copy_chars};

verus! {

/// Maps each local name that an entry file binds by an import to the module
/// that the name stands for. A name that is bound again takes the later
/// module.
pub struct AliasMap {
    entries: Vec<(Vec<char>, Vec<char>)>,
}

/// The table that binds the names of `entries` in order, a later binding of a
/// name replacing an earlier one.
pub open spec fn bindings_of(entries: Seq<(Vec<char>, Vec<char>)>) -> Map<Seq<char>, Seq<char>>
    decreases entries.len(),
{
    if entries.len() == 0 {
        Map::empty()
    } else {
        bindings_of(entries.drop_last()).insert(entries.last().0@, entries.last().1@)
    }
}

impl View for AliasMap {
    type V = Map<Seq<char>, Seq<char>>;

    closed spec fn view(&self) -> Map<Seq<char>, Seq<char>> {
        bindings_of(self.entries@)
    }
}

impl AliasMap {
    /// A table that binds no name.
    pub fn new() -> (m: AliasMap)
        ensures
            m@ == Map::<Seq<char>, Seq<char>>::empty(),
    {
        AliasMap { entries: Vec::new() }
    }

    /// Binds `alias` to `module`, replacing what `alias` was bound to.
    pub fn insert(&mut self, alias: Vec<char>, module: Vec<char>)
        ensures
            final(self)@ == old(self)@.insert(alias@, module@),
    {
        self.entries.push((alias, module));
        assert(self.entries@.drop_last() =~= old(self).entries@);
    }

    /// The module that `alias` is bound to.
    pub fn get(&self, alias: &Vec<char>) -> (r: Option<Vec<char>>)
        ensures
            match r {
                Some(m) => self@.contains_key(alias@) && self@[alias@] == m@,
                None => !self@.contains_key(alias@),
            },
    {
        let mut j: usize = self.entries.len();
        assert(self.entries@.take(j as int) =~= self.entries@);
        while j > 0
            invariant
                j <= self.entries.len(),
                self@.contains_key(alias@) == bindings_of(self.entries@.take(j as int)).contains_key(
                    alias@,
                ),
                self@.contains_key(alias@) ==> self@[alias@] == bindings_of(
                    self.entries@.take(j as int),
                )[alias@],
            decreases j,
        {
            assert(self.entries@.take(j as int).drop_last() =~= self.entries@.take(j - 1));
            if chars_eq(&self.entries[j - 1].0, alias) {
                return Some(copy_chars(&self.entries[j - 1].1));
            }
            j -= 1;
        }
        None
    }

    /// Whether `alias` is bound.
    pub fn contains_key(&self, alias: &Vec<char>) -> (r: bool)
        ensures
            r == self@.contains_key(alias@),
    {
        self.get(alias).is_some()
    }
}

} // verus!
