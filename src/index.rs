use vstd::prelude::*;
use crate::types::NftError;

verus! {

/// One registered `(ordinal, hash)` pair.
#[derive(Clone, Debug)]
pub struct IndexEntry {
    pub ordinal: u64,
    pub hash: String,
}

/// The two inverse maps between ordinals and content hashes, kept as one
/// table of pairs in which neither column repeats.
pub struct IdentifierIndex {
    entries: Vec<IndexEntry>,
}

/// Some pair of `v` has ordinal `o`.
pub open spec fn has_ordinal(v: Seq<(u64, Seq<char>)>, o: u64) -> bool {
    exists|i: int| 0 <= i < v.len() && #[trigger] v[i].0 == o
}

/// Some pair of `v` has hash `h`.
pub open spec fn has_hash(v: Seq<(u64, Seq<char>)>, h: Seq<char>) -> bool {
    exists|i: int| 0 <= i < v.len() && #[trigger] v[i].1 == h
}

/// `(o, h)` is a pair of `v`.
pub open spec fn has_pair(v: Seq<(u64, Seq<char>)>, o: u64, h: Seq<char>) -> bool {
    exists|i: int| 0 <= i < v.len() && #[trigger] v[i] == (o, h)
}

/// Both directions are injective: no ordinal and no hash occurs twice.
pub open spec fn index_wf(v: Seq<(u64, Seq<char>)>) -> bool {
    forall|i: int, j: int|
        #![trigger v[i], v[j]]
        0 <= i < v.len() && 0 <= j < v.len() && i != j ==> v[i].0 != v[j].0 && v[i].1 != v[j].1
}

impl View for IdentifierIndex {
    type V = Seq<(u64, Seq<char>)>;

    closed spec fn view(&self) -> Seq<(u64, Seq<char>)> {
        self.entries@.map_values(|e: IndexEntry| (e.ordinal, e.hash@))
    }
}

impl IdentifierIndex {
    pub open spec fn wf(&self) -> bool {
        index_wf(self@)
    }

    pub fn new() -> (r: IdentifierIndex)
        ensures
            r@ == Seq::<(u64, Seq<char>)>::empty(),
            r.wf(),
    {
        let r = IdentifierIndex { entries: Vec::new() };
        assert(r@ =~= Seq::<(u64, Seq<char>)>::empty());
        r
    }

    /// Number of registered pairs.
    pub fn len(&self) -> (r: usize)
        ensures
            r == self@.len(),
    {
        self.entries.len()
    }

    fn find_hash(&self, hash: &String) -> (r: Option<usize>)
        ensures
            match r {
                Some(i) => i < self@.len() && self@[i as int].1 == hash@,
                None => !has_hash(self@, hash@),
            },
    {
        let mut i: usize = 0;
        while i < self.entries.len()
            invariant
                i <= self.entries@.len(),
                forall|k: int| 0 <= k < i ==> self@[k].1 != hash@,
            decreases self.entries.len() - i,
        {
            if self.entries[i].hash == *hash {
                return Some(i);
            }
            i += 1;
        }
        None
    }

    fn find_ordinal(&self, ordinal: u64) -> (r: Option<usize>)
        ensures
            match r {
                Some(i) => i < self@.len() && self@[i as int].0 == ordinal,
                None => !has_ordinal(self@, ordinal),
            },
    {
        let mut i: usize = 0;
        while i < self.entries.len()
            invariant
                i <= self.entries@.len(),
                forall|k: int| 0 <= k < i ==> self@[k].0 != ordinal,
            decreases self.entries.len() - i,
        {
            if self.entries[i].ordinal == ordinal {
                return Some(i);
            }
            i += 1;
        }
        None
    }

    /// Registers `(ordinal, hash)` in both directions, or rejects it with
    /// `DuplicateIdentifier` if either side is already present.
    pub fn register(&mut self, ordinal: u64, hash: String) -> (r: Result<(), NftError>)
        requires
            old(self).wf(),
        ensures
            final(self).wf(),
            has_ordinal(old(self)@, ordinal) || has_hash(old(self)@, hash@) ==> r == Err::<
                (),
                NftError,
            >(NftError::DuplicateIdentifier) && final(self)@ == old(self)@,
            !(has_ordinal(old(self)@, ordinal) || has_hash(old(self)@, hash@)) ==> r is Ok
                && final(self)@ == old(self)@.push((ordinal, hash@)),
    {
        if self.find_ordinal(ordinal).is_some() {
            return Err(NftError::DuplicateIdentifier);
        }
        if self.find_hash(&hash).is_some() {
            return Err(NftError::DuplicateIdentifier);
        }
        let ghost pre = self@;
        self.entries.push(IndexEntry { ordinal, hash });
        assert(self@ =~= pre.push((ordinal, hash@)));
        assert forall|i: int, j: int|
            0 <= i < self@.len() && 0 <= j < self@.len() && i != j implies #[trigger] self@[i].0
            != #[trigger] self@[j].0 && self@[i].1 != self@[j].1 by {
            if i == pre.len() {
                assert(pre[j].0 != ordinal);
                assert(pre[j].1 != self@[i].1);
            } else if j == pre.len() {
                assert(pre[i].0 != ordinal);
                assert(pre[i].1 != self@[j].1);
            }
        }
        Ok(())
    }

    /// The ordinal registered for `hash`, or `NotFound`.
    pub fn resolve_by_hash(&self, hash: &String) -> (r: Result<u64, NftError>)
        ensures
            match r {
                Ok(o) => has_pair(self@, o, hash@),
                Err(e) => e == NftError::NotFound && !has_hash(self@, hash@),
            },
    {
        match self.find_hash(hash) {
            Some(i) => {
                assert(self@[i as int] == (self@[i as int].0, hash@));
                Ok(self.entries[i].ordinal)
            },
            None => Err(NftError::NotFound),
        }
    }

    /// The hash registered for `ordinal`, or `NotFound`.
    pub fn resolve_by_ordinal(&self, ordinal: u64) -> (r: Result<String, NftError>)
        ensures
            match r {
                Ok(h) => has_pair(self@, ordinal, h@),
                Err(e) => e == NftError::NotFound && !has_ordinal(self@, ordinal),
            },
    {
        match self.find_ordinal(ordinal) {
            Some(i) => {
                let h = self.entries[i].hash.clone();
                assert(self@[i as int] == (ordinal, h@));
                Ok(h)
            },
            None => Err(NftError::NotFound),
        }
    }

    /// Removes the pair `(ordinal, hash)`. Fails with `InconsistentIndex`
    /// when only one side of it is present, and with `NotFound` when neither
    /// is.
    pub fn remove(&mut self, ordinal: u64, hash: &String) -> (r: Result<(), NftError>)
        requires
            old(self).wf(),
        ensures
            final(self).wf(),
            has_pair(old(self)@, ordinal, hash@) ==> r is Ok && !has_ordinal(final(self)@, ordinal)
                && !has_hash(final(self)@, hash@) && forall|o: u64, h: Seq<char>|
                o != ordinal ==> (has_pair(final(self)@, o, h) == has_pair(old(self)@, o, h)),
            !has_pair(old(self)@, ordinal, hash@) ==> final(self)@ == old(self)@ && r == Err::<
                (),
                NftError,
            >(
                if has_ordinal(old(self)@, ordinal) || has_hash(old(self)@, hash@) {
                    NftError::InconsistentIndex
                } else {
                    NftError::NotFound
                },
            ),
    {
        let ghost pre = self@;
        match self.find_ordinal(ordinal) {
            None => {
                let found = self.find_hash(hash);
                assert(!has_pair(pre, ordinal, hash@)) by {
                    if has_pair(pre, ordinal, hash@) {
                        let k = choose|k: int| 0 <= k < pre.len() && #[trigger] pre[k] == (ordinal, hash@);
                        assert(pre[k].0 == ordinal);
                    }
                }
                if found.is_some() {
                    return Err(NftError::InconsistentIndex);
                }
                return Err(NftError::NotFound);
            },
            Some(i) => {
                if self.entries[i].hash != *hash {
                    assert(!has_pair(pre, ordinal, hash@)) by {
                        if has_pair(pre, ordinal, hash@) {
                            let k = choose|k: int| 0 <= k < pre.len() && #[trigger] pre[k] == (ordinal, hash@);
                            if k != i {
                                assert(pre[k].0 != pre[i as int].0);
                            }
                        }
                    }
                    return Err(NftError::InconsistentIndex);
                }
                self.entries.remove(i);
                assert(self@ =~= pre.remove(i as int));
                assert forall|k: int| 0 <= k < self@.len() implies #[trigger] self@[k].0 != ordinal
                    && self@[k].1 != hash@ by {
                    if k < i {
                        assert(pre[k].0 != pre[i as int].0 && pre[k].1 != pre[i as int].1);
                    } else {
                        assert(pre[k + 1].0 != pre[i as int].0 && pre[k + 1].1 != pre[i as int].1);
                    }
                }
                assert forall|o: u64, h: Seq<char>| o != ordinal implies (has_pair(self@, o, h)
                    == has_pair(pre, o, h)) by {
                    if has_pair(pre, o, h) {
                        let k = choose|k: int| 0 <= k < pre.len() && #[trigger] pre[k] == (o, h);
                        if k < i {
                            assert(self@[k] == (o, h));
                        } else {
                            assert(self@[k - 1] == (o, h));
                        }
                    }
                    if has_pair(self@, o, h) {
                        let k = choose|k: int| 0 <= k < self@.len() && #[trigger] self@[k] == (o, h);
                        if k < i {
                            assert(pre[k] == (o, h));
                        } else {
                            assert(pre[k + 1] == (o, h));
                        }
                    }
                }
                Ok(())
            },
        }
    }
}

/// Round trip: in a well-formed index, resolving a registered hash to its
/// ordinal and that ordinal back to a hash gives the same hash, and no other
/// ordinal or hash shares either side of the pair.
pub proof fn lemma_resolve_round_trip(v: Seq<(u64, Seq<char>)>, o: u64, h: Seq<char>)
    requires
        index_wf(v),
        has_pair(v, o, h),
    ensures
        forall|o2: u64| #[trigger] has_pair(v, o2, h) ==> o2 == o,
        forall|h2: Seq<char>| #[trigger] has_pair(v, o, h2) ==> h2 == h,
{
    let i = choose|i: int| 0 <= i < v.len() && #[trigger] v[i] == (o, h);
    assert forall|o2: u64| #[trigger] has_pair(v, o2, h) implies o2 == o by {
        let j = choose|j: int| 0 <= j < v.len() && #[trigger] v[j] == (o2, h);
        if i != j {
            assert(v[i].1 != v[j].1);
        }
    }
    assert forall|h2: Seq<char>| #[trigger] has_pair(v, o, h2) implies h2 == h by {
        let j = choose|j: int| 0 <= j < v.len() && #[trigger] v[j] == (o, h2);
        if i != j {
            assert(v[i].0 != v[j].0);
        }
    }
}

} // verus!
