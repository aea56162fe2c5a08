//! An in-memory environment table: the minimal capability interface of the
//! process environment — get, set, unset — as a verified data structure.
//! Its view is a map from variable names to values, so every contract in
//! the crate can speak of environment state as a `Map`.

use vstd::prelude::*;

verus! {

/// A table of named variables, observed through its map view.
///
/// Bindings are kept as name/value pairs; when a name occurs more than
/// once, the latest pair is the binding in force, so the view folds the
/// pairs left to right into a map.
pub struct EnvTable {
    entries: Vec<(String, String)>,
}

/// The map that a sequence of name/value pairs denotes: each pair binds
/// its name, later pairs overriding earlier ones.
spec fn map_of(entries: Seq<(String, String)>) -> Map<Seq<char>, Seq<char>>
    decreases entries.len(),
{
    if entries.len() == 0 {
        Map::empty()
    } else {
        map_of(entries.drop_last()).insert(entries.last().0@, entries.last().1@)
    }
}

impl View for EnvTable {
    type V = Map<Seq<char>, Seq<char>>;

    closed spec fn view(&self) -> Map<Seq<char>, Seq<char>> {
        map_of(self.entries@)
    }
}

impl EnvTable {
    /// An empty table: no variable is bound.
    pub fn new() -> (table: EnvTable)
        ensures
            table@ == Map::<Seq<char>, Seq<char>>::empty(),
    {
        EnvTable { entries: Vec::new() }
    }

    /// The value bound to `name`, or `None` when `name` is absent.
    pub fn get(&self, name: &String) -> (result: Option<String>)
        ensures
            match result {
                Some(value) => self@.dom().contains(name@) && value@ == self@[name@],
                None => !self@.dom().contains(name@),
            },
    {
        let mut found: Option<String> = None;
        let n = self.entries.len();
        let mut i: usize = 0;
        while i < n
            invariant
                n == self.entries@.len(),
                i <= n,
                match found {
                    Some(value) => map_of(self.entries@.take(i as int)).dom().contains(name@)
                        && value@ == map_of(self.entries@.take(i as int))[name@],
                    None => !map_of(self.entries@.take(i as int)).dom().contains(name@),
                },
            decreases n - i,
        {
            proof {
                assert(self.entries@.take(i as int + 1).drop_last() =~= self.entries@.take(i as int));
                assert(self.entries@.take(i as int + 1).last() == self.entries@[i as int]);
            }
            if self.entries[i].0 == *name {
                found = Some(self.entries[i].1.clone());
            }
            i = i + 1;
        }
        proof {
            assert(self.entries@.take(n as int) =~= self.entries@);
        }
        found
    }

    /// Bind `name` to `value`, replacing any binding it had.
    pub fn set(&mut self, name: &String, value: &String)
        ensures
            final(self)@ == old(self)@.insert(name@, value@),
    {
        self.unset(name);
        let ghost unset_entries = self.entries@;
        self.entries.push((name.clone(), value.clone()));
        proof {
            assert(self.entries@.drop_last() =~= unset_entries);
            assert(map_of(self.entries@) =~= old(self)@.insert(name@, value@));
        }
    }

    /// Remove any binding of `name`; a name that is absent stays absent.
    pub fn unset(&mut self, name: &String)
        ensures
            final(self)@ == old(self)@.remove(name@),
    {
        let mut kept: Vec<(String, String)> = Vec::new();
        let n = self.entries.len();
        let mut i: usize = 0;
        proof {
            assert(map_of(kept@) =~= map_of(self.entries@.take(0)).remove(name@));
        }
        while i < n
            invariant
                n == self.entries@.len(),
                i <= n,
                map_of(kept@) == map_of(self.entries@.take(i as int)).remove(name@),
            decreases n - i,
        {
            proof {
                assert(self.entries@.take(i as int + 1).drop_last() =~= self.entries@.take(i as int));
                assert(self.entries@.take(i as int + 1).last() == self.entries@[i as int]);
            }
            let ghost kept_before = kept@;
            if self.entries[i].0 == *name {
                proof {
                    assert(map_of(self.entries@.take(i as int + 1)).remove(name@)
                        =~= map_of(self.entries@.take(i as int)).remove(name@));
                }
            } else {
                kept.push((self.entries[i].0.clone(), self.entries[i].1.clone()));
                proof {
                    assert(kept@.drop_last() =~= kept_before);
                    assert(map_of(kept@) =~= map_of(self.entries@.take(i as int + 1)).remove(name@));
                }
            }
            i = i + 1;
        }
        proof {
            assert(self.entries@.take(n as int) =~= self.entries@);
        }
        self.entries = kept;
    }
}

} // verus!
