//! The per-course incremental state: one record per item key, as the
//! sync side's skip logic reads and writes it. Loading and saving the
//! backing file happens outside the library.

use vstd::prelude::*;

verus! {

/// What is remembered of one synced item.
#[derive(Debug, Clone)]
pub struct ItemState {
    pub etag: Option<String>,
    pub updated_at: Option<String>,
    pub size: Option<u64>,
    pub content_hash: Option<String>,
    pub last_error: Option<String>,
    pub error_count: Option<u32>,
}

/// The per-course state: item records keyed by item key; a later write
/// for a key supersedes earlier ones.
#[derive(Debug)]
pub struct State {
    pub items: Vec<(String, ItemState)>,
}

/// The record stored under `k`: the latest write wins.
pub open spec fn spec_lookup(items: Seq<(String, ItemState)>, k: Seq<char>) -> Option<ItemState>
    decreases items.len(),
{
    if items.len() == 0 {
        None
    } else if items.last().0@ == k {
        Some(items.last().1)
    } else {
        spec_lookup(items.drop_last(), k)
    }
}

impl State {
    /// A state with no records.
    pub fn new() -> (r: State)
        ensures
            r.items@.len() == 0,
    {
        State { items: Vec::new() }
    }

    /// The record stored under `key`, if any.
    pub fn get(&self, key: &str) -> (r: Option<&ItemState>)
        ensures
            match r {
                Some(v) => spec_lookup(self.items@, key@) == Some(*v),
                None => spec_lookup(self.items@, key@) is None,
            },
    {
        let target = crate::text::str_chars(key);
        let mut i: usize = self.items.len();
        proof {
            assert(self.items@.subrange(0, self.items@.len() as int) =~= self.items@);
        }
        while i > 0
            invariant
                i <= self.items@.len(),
                target@ == key@,
                spec_lookup(self.items@, key@) == spec_lookup(
                    self.items@.subrange(0, i as int),
                    key@,
                ),
            decreases i,
        {
            proof {
                let cur = self.items@.subrange(0, i as int);
                assert(cur.drop_last() =~= self.items@.subrange(0, i - 1));
                assert(cur.last() == self.items@[i - 1]);
            }
            i -= 1;
            if crate::text::chars_eq(
                &crate::text::str_chars(self.items[i].0.as_str()),
                &target,
            ) {
                return Some(&self.items[i].1);
            }
        }
        proof {
            assert(self.items@.subrange(0, 0) =~= Seq::<(String, ItemState)>::empty());
        }
        None
    }

    /// Stores `st` under `key`, superseding any earlier record for it and
    /// leaving every other key's record unchanged.
    pub fn set(&mut self, key: String, st: ItemState)
        ensures
            spec_lookup(final(self).items@, key@) == Some(st),
            forall|k2: Seq<char>|
                k2 != key@ ==> #[trigger] spec_lookup(final(self).items@, k2) == spec_lookup(
                    old(self).items@,
                    k2,
                ),
    {
        let ghost k = key@;
        self.items.push((key, st));
        proof {
            assert(self.items@.drop_last() =~= old(self).items@);
            assert(self.items@.last().0@ == k);
            assert(spec_lookup(self.items@, k) == Some(st));
        }
    }

    /// How many records are stored, later writes included.
    pub fn len(&self) -> (r: usize)
        ensures
            r == self.items@.len(),
    {
        self.items.len()
    }
}

} // verus!
