use std::collections::HashMap;
use vstd::prelude::*;

verus! {

broadcast use vstd::std_specs::hash::group_hash_axioms;

/// Identifier of one logical asset, stable across reloads.
pub type LoadHandle = u64;

/// Per-asset-type table: each load handle maps to an uncommitted value and a
/// committed value. Readers only ever see committed values; an uncommitted
/// value may be overwritten any number of times before it is committed.
pub struct AssetLookup<T> {
    uncommitted: HashMap<LoadHandle, T>,
    committed: HashMap<LoadHandle, T>,
}

/// The uncommitted and committed tables after `commit(h)`.
pub open spec fn commit_spec<T>(unc: Map<LoadHandle, T>, com: Map<LoadHandle, T>, h: LoadHandle) -> (
    Map<LoadHandle, T>,
    Map<LoadHandle, T>,
) {
    if unc.contains_key(h) {
        (unc.remove(h), com.insert(h, unc[h]))
    } else {
        (unc, com)
    }
}

/// The tables after committing each handle of `hs` in turn.
pub open spec fn commit_all_spec<T>(
    unc: Map<LoadHandle, T>,
    com: Map<LoadHandle, T>,
    hs: Seq<LoadHandle>,
) -> (Map<LoadHandle, T>, Map<LoadHandle, T>)
    decreases hs.len(),
{
    if hs.len() == 0 {
        (unc, com)
    } else {
        let prev = commit_all_spec(unc, com, hs.drop_last());
        commit_spec(prev.0, prev.1, hs.last())
    }
}

/// The tables after freeing each handle of `hs` in turn.
pub open spec fn free_all_spec<T>(
    unc: Map<LoadHandle, T>,
    com: Map<LoadHandle, T>,
    hs: Seq<LoadHandle>,
) -> (Map<LoadHandle, T>, Map<LoadHandle, T>)
    decreases hs.len(),
{
    if hs.len() == 0 {
        (unc, com)
    } else {
        let prev = free_all_spec(unc, com, hs.drop_last());
        (prev.0.remove(hs.last()), prev.1.remove(hs.last()))
    }
}

/// The value the newest of `unc` and `com` holds for `h`.
pub open spec fn latest_spec<T>(unc: Map<LoadHandle, T>, com: Map<LoadHandle, T>, h: LoadHandle) -> Option<T> {
    if unc.contains_key(h) {
        Some(unc[h])
    } else if com.contains_key(h) {
        Some(com[h])
    } else {
        None
    }
}

impl<T> AssetLookup<T> {
    /// Values loaded but not yet promoted.
    pub closed spec fn uncommitted_view(&self) -> Map<LoadHandle, T> {
        self.uncommitted@
    }

    /// Values visible to readers.
    pub closed spec fn committed_view(&self) -> Map<LoadHandle, T> {
        self.committed@
    }

    pub fn new() -> (r: Self)
        ensures
            r.uncommitted_view() == Map::<LoadHandle, T>::empty(),
            r.committed_view() == Map::<LoadHandle, T>::empty(),
    {
        AssetLookup { uncommitted: HashMap::new(), committed: HashMap::new() }
    }

    /// Stores a freshly loaded value for `h`, replacing any earlier
    /// uncommitted one. The committed value is untouched.
    pub fn set_uncommitted(&mut self, h: LoadHandle, value: T)
        ensures
            final(self).uncommitted_view() == old(self).uncommitted_view().insert(h, value),
            final(self).committed_view() == old(self).committed_view(),
    {
        self.uncommitted.insert(h, value);
    }

    /// Promotes the uncommitted value of `h` to committed, replacing any
    /// earlier committed value. Returns whether there was a value to promote;
    /// without one nothing changes.
    pub fn commit(&mut self, h: LoadHandle) -> (r: bool)
        ensures
            r == old(self).uncommitted_view().contains_key(h),
            (final(self).uncommitted_view(), final(self).committed_view()) == commit_spec(
                old(self).uncommitted_view(),
                old(self).committed_view(),
                h,
            ),
    {
        match self.uncommitted.remove(&h) {
            Some(v) => {
                self.committed.insert(h, v);
                true
            },
            None => false,
        }
    }

    /// Commits each handle of `hs` in turn.
    pub fn commit_all(&mut self, hs: &Vec<LoadHandle>)
        ensures
            (final(self).uncommitted_view(), final(self).committed_view()) == commit_all_spec(
                old(self).uncommitted_view(),
                old(self).committed_view(),
                hs@,
            ),
    {
        let mut i: usize = 0;
        while i < hs.len()
            invariant
                i <= hs@.len(),
                (self.uncommitted_view(), self.committed_view()) == commit_all_spec(
                    old(self).uncommitted_view(),
                    old(self).committed_view(),
                    hs@.subrange(0, i as int),
                ),
            decreases hs@.len() - i,
        {
            self.commit(hs[i]);
            assert(hs@.subrange(0, i + 1).drop_last() =~= hs@.subrange(0, i as int));
            i = i + 1;
        }
        assert(hs@.subrange(0, i as int) =~= hs@);
    }

    /// Frees each handle of `hs` in turn.
    pub fn free_all(&mut self, hs: &Vec<LoadHandle>)
        ensures
            (final(self).uncommitted_view(), final(self).committed_view()) == free_all_spec(
                old(self).uncommitted_view(),
                old(self).committed_view(),
                hs@,
            ),
    {
        let mut i: usize = 0;
        while i < hs.len()
            invariant
                i <= hs@.len(),
                (self.uncommitted_view(), self.committed_view()) == free_all_spec(
                    old(self).uncommitted_view(),
                    old(self).committed_view(),
                    hs@.subrange(0, i as int),
                ),
            decreases hs@.len() - i,
        {
            self.free(hs[i]);
            assert(hs@.subrange(0, i + 1).drop_last() =~= hs@.subrange(0, i as int));
            i = i + 1;
        }
        assert(hs@.subrange(0, i as int) =~= hs@);
    }

    /// Removes both the uncommitted and the committed value of `h`.
    pub fn free(&mut self, h: LoadHandle)
        ensures
            final(self).uncommitted_view() == old(self).uncommitted_view().remove(h),
            final(self).committed_view() == old(self).committed_view().remove(h),
    {
        self.uncommitted.remove(&h);
        self.committed.remove(&h);
    }

    /// The committed value of `h`, if any.
    pub fn get_committed(&self, h: LoadHandle) -> (r: Option<&T>)
        ensures
            r.is_some() == self.committed_view().contains_key(h),
            r.is_some() ==> *r.unwrap() == self.committed_view()[h],
    {
        self.committed.get(&h)
    }

    /// The newest value of `h`: the uncommitted one if there is one, else the
    /// committed one.
    pub fn get_latest(&self, h: LoadHandle) -> (r: Option<&T>)
        ensures
            r.is_some() == latest_spec(self.uncommitted_view(), self.committed_view(), h).is_some(),
            r.is_some() ==> *r.unwrap() == latest_spec(
                self.uncommitted_view(),
                self.committed_view(),
                h,
            )->0,
    {
        match self.uncommitted.get(&h) {
            Some(v) => Some(v),
            None => self.committed.get(&h),
        }
    }

    /// Number of values waiting to be committed.
    pub fn uncommitted_count(&self) -> (r: usize)
        ensures
            r == self.uncommitted_view().dom().len(),
    {
        self.uncommitted.len()
    }

    /// Number of committed values.
    pub fn committed_count(&self) -> (r: usize)
        ensures
            r == self.committed_view().dom().len(),
    {
        self.committed.len()
    }

    /// Drops every value held by the table.
    pub fn destroy(&mut self)
        ensures
            final(self).uncommitted_view() == Map::<LoadHandle, T>::empty(),
            final(self).committed_view() == Map::<LoadHandle, T>::empty(),
    {
        self.uncommitted.clear();
        self.committed.clear();
    }
}

} // verus!
