//! A lookup-or-compute cache for expensive per-deployment material,
//! keyed by 32-byte parameter keys: the explicit replacement for a
//! process-wide memo table, owned and scoped by its caller.

use crate::bytes::bytes_eq;
use vstd::prelude::*;

verus! {

/// The first value stored under `key`, if any.
pub open spec fn spec_cache_find<V>(entries: Seq<([u8; 32], V)>, key: Seq<u8>) -> Option<V>
    decreases entries.len(),
{
    if entries.len() == 0 {
        None
    } else if entries[0].0@ == key {
        Some(entries[0].1)
    } else {
        spec_cache_find(entries.drop_first(), key)
    }
}

/// A key-value cache over 32-byte parameter keys.
pub struct ParameterCache<V> {
    pub entries: Vec<([u8; 32], V)>,
}

impl<V> ParameterCache<V> {
    /// An empty cache.
    pub fn new() -> (r: ParameterCache<V>)
        ensures
            r.entries@.len() == 0,
    {
        ParameterCache { entries: Vec::new() }
    }

    /// The position of the first entry under `key`, if any.
    fn find_index(&self, key: &[u8; 32]) -> (r: Option<usize>)
        ensures
            r matches Some(i) ==> i < self.entries@.len() && self.entries@[i as int].0@ == key@
                && spec_cache_find(self.entries@, key@) == Some(self.entries@[i as int].1),
            r is None ==> spec_cache_find(self.entries@, key@) is None,
    {
        let n = self.entries.len();
        let mut i: usize = 0;
        proof {
            assert(self.entries@.skip(0) =~= self.entries@);
        }
        while i < n
            invariant
                i <= n,
                self.entries@.len() == n,
                spec_cache_find(self.entries@, key@) == spec_cache_find(
                    self.entries@.skip(i as int),
                    key@,
                ),
            decreases n - i,
        {
            let entry = vstd::std_specs::vec::vec_index(&self.entries, i);
            proof {
                assert(self.entries@.skip(i as int)[0] == self.entries@[i as int]);
                assert(self.entries@.skip(i as int).drop_first() =~= self.entries@.skip(i + 1));
            }
            if bytes_eq(
                vstd::array::array_as_slice(&entry.0),
                vstd::array::array_as_slice(key),
            ) {
                return Some(i);
            }
            i = i + 1;
        }
        proof {
            assert(self.entries@.skip(n as int) =~= Seq::<([u8; 32], V)>::empty());
        }
        None
    }

    /// The cached value under `key`, if present.
    pub fn lookup(&self, key: &[u8; 32]) -> (r: Option<&V>)
        ensures
            r matches Some(v) ==> spec_cache_find(self.entries@, key@) == Some(*v),
            r is Some == spec_cache_find(self.entries@, key@) is Some,
    {
        match self.find_index(key) {
            Some(i) => Some(&vstd::std_specs::vec::vec_index(&self.entries, i).1),
            None => None,
        }
    }

    /// Returns the value under `key`; when the key is new, runs the
    /// generator once and keeps what it produced.
    pub fn cache_lookup<F: FnOnce() -> V>(&mut self, key: &[u8; 32], generator: F) -> (r: &V)
        requires
            call_requires(generator, ()),
        ensures
            spec_cache_find(old(self).entries@, key@) matches Some(v) ==> (*r == v && final (
            self).entries@ == old(self).entries@),
            spec_cache_find(old(self).entries@, key@) is None ==> (call_ensures(
                generator,
                (),
                *r,
            ) && final (self).entries@ == old(self).entries@.push((*key, *r))),
    {
        match self.find_index(key) {
            Some(i) => &vstd::std_specs::vec::vec_index(&self.entries, i).1,
            None => {
                let v = generator();
                self.entries.push((*key, v));
                let last = self.entries.len() - 1;
                &vstd::std_specs::vec::vec_index(&self.entries, last).1
            },
        }
    }
}

} // verus!
