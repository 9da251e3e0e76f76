//! The variable environment: a flat mapping from variable names to string
//! values, seeded with session-derived built-ins and extended by `set`
//! commands. Later entries shadow earlier ones (last write wins).

use vstd::prelude::*;

use crate::text::pair_views;

verus! {

/// The mathematical content of an entry list: entries are folded into a map
/// from the front, so a later entry for the same key overrides an earlier one.
pub open spec fn assoc_map(entries: Seq<(String, String)>) -> Map<Seq<char>, Seq<char>>
    decreases entries.len(),
{
    if entries.len() == 0 {
        Map::empty()
    } else {
        assoc_map(entries.drop_last()).insert(entries.last().0@, entries.last().1@)
    }
}

/// A map extended by a list of entries, in list order, last write wins.
pub open spec fn merged(
    m: Map<Seq<char>, Seq<char>>,
    entries: Seq<(Seq<char>, Seq<char>)>,
) -> Map<Seq<char>, Seq<char>>
    decreases entries.len(),
{
    if entries.len() == 0 {
        m
    } else {
        merged(m, entries.drop_last()).insert(entries.last().0, entries.last().1)
    }
}

pub struct Environment {
    entries: Vec<(String, String)>,
}

impl View for Environment {
    type V = Map<Seq<char>, Seq<char>>;

    closed spec fn view(&self) -> Map<Seq<char>, Seq<char>> {
        assoc_map(self.entries@)
    }
}

impl Environment {
    pub fn new() -> (r: Environment)
        ensures
            r@ == Map::<Seq<char>, Seq<char>>::empty(),
    {
        Environment { entries: Vec::new() }
    }

    /// Binds `name` to `value`, shadowing any earlier binding of `name`.
    pub fn set(&mut self, name: String, value: String)
        ensures
            final(self)@ == old(self)@.insert(name@, value@),
    {
        self.entries.push((name, value));
        proof {
            assert(self.entries@.drop_last() =~= old(self).entries@);
        }
    }

    /// Merges a whole argument mapping, in list order, last write wins.
    pub fn merge(&mut self, entries: &Vec<(String, String)>)
        ensures
            final(self)@ == merged(old(self)@, pair_views(entries@)),
    {
        let ghost m0 = self@;
        let ghost gv = pair_views(entries@);
        let mut i: usize = 0;
        proof {
            assert(gv.len() == entries@.len());
            assert(gv.take(0int) =~= Seq::<(Seq<char>, Seq<char>)>::empty());
        }
        while i < entries.len()
            invariant
                i <= entries.len(),
                gv == pair_views(entries@),
                gv.len() == entries@.len(),
                self@ == merged(m0, gv.take(i as int)),
            decreases entries.len() - i,
        {
            let name = entries[i].0.clone();
            let value = entries[i].1.clone();
            self.set(name, value);
            proof {
                assert(gv.take(i + 1).drop_last() =~= gv.take(i as int));
                assert(gv.take(i + 1).last() == gv[i as int]);
                assert(gv[i as int] == (entries@[i as int].0@, entries@[i as int].1@));
            }
            i = i + 1;
        }
        proof {
            assert(gv.take(entries@.len() as int) =~= gv);
        }
    }

    /// Looks `name` up, returning the value of the latest binding.
    pub fn get(&self, name: &String) -> (r: Option<&String>)
        ensures
            match r {
                Some(v) => self@.contains_key(name@) && v@ == self@[name@],
                None => !self@.contains_key(name@),
            },
    {
        let mut k: usize = self.entries.len();
        proof {
            assert(self.entries@.take(k as int) =~= self.entries@);
        }
        while k > 0
            invariant
                k <= self.entries.len(),
                assoc_map(self.entries@).contains_key(name@) == assoc_map(
                    self.entries@.take(k as int),
                ).contains_key(name@),
                assoc_map(self.entries@).contains_key(name@) ==> assoc_map(self.entries@)[name@]
                    == assoc_map(self.entries@.take(k as int))[name@],
            decreases k,
        {
            let e = &self.entries[k - 1];
            proof {
                assert(self.entries@.take(k as int).drop_last() =~= self.entries@.take(k - 1));
                assert(self.entries@.take(k as int).last() == self.entries@[k - 1]);
            }
            if e.0 == *name {
                return Some(&e.1);
            }
            k = k - 1;
        }
        proof {
            assert(self.entries@.take(0int) =~= Seq::<(String, String)>::empty());
        }
        None
    }
}

} // verus!
