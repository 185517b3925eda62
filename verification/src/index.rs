//! The set of fingerprints known to be present in the destination tree.

use vstd::prelude::*;

verus! {

/// A set of content fingerprints.
///
/// The fingerprints are kept in a list in which none occurs twice.
pub struct DestinationIndex {
    hashes: Vec<String>,
}

impl View for DestinationIndex {
    type V = Set<Seq<char>>;

    /// The fingerprints that the index holds.
    closed spec fn view(&self) -> Set<Seq<char>> {
        self.listed().to_set()
    }
}

impl DestinationIndex {
    /// The fingerprints in the order in which they are listed.
    closed spec fn listed(&self) -> Seq<Seq<char>> {
        Seq::new(self.hashes@.len(), |i: int| self.hashes@[i]@)
    }

    /// No fingerprint is listed twice.
    pub closed spec fn wf(&self) -> bool {
        self.listed().no_duplicates()
    }

    /// An index that holds nothing.
    pub fn new() -> (index: DestinationIndex)
        ensures
            index.wf(),
            index@ == Set::<Seq<char>>::empty(),
    {
        let index = DestinationIndex { hashes: Vec::new() };
        assert(index@ =~= Set::<Seq<char>>::empty());
        index
    }

    /// The number of fingerprints in the index.
    pub fn len(&self) -> (n: usize)
        requires
            self.wf(),
        ensures
            n == self@.len(),
    {
        proof {
            self.listed().unique_seq_to_set();
        }
        self.hashes.len()
    }

    /// Whether the index holds `hash`.
    pub fn contains(&self, hash: &String) -> (found: bool)
        ensures
            found == self@.contains(hash@),
    {
        let mut i: usize = 0;
        while i < self.hashes.len()
            invariant
                0 <= i <= self.hashes.len(),
                forall|k: int| 0 <= k < i ==> self.listed()[k] != hash@,
            decreases self.hashes.len() - i,
        {
            if self.hashes[i] == *hash {
                assert(self.listed()[i as int] == hash@);
                return true;
            }
            i = i + 1;
        }
        false
    }

    /// Puts `hash` into the index. Returns whether it was new.
    pub fn insert(&mut self, hash: String) -> (added: bool)
        requires
            old(self).wf(),
        ensures
            final(self).wf(),
            final(self)@ == old(self)@.insert(hash@),
            added == !old(self)@.contains(hash@),
    {
        if self.contains(&hash) {
            assert(self@ =~= self@.insert(hash@));
            false
        } else {
            self.hashes.push(hash);
            proof {
                let before = old(self).listed();
                let after = self.listed();
                assert(after =~= before.push(hash@));
                assert(!before.contains(hash@));
                assert forall|i: int, j: int| 0 <= i < j < after.len() implies after[i]
                    != after[j] by {
                    if j == before.len() {
                        assert(before[i] == after[i]);
                    }
                }
                assert forall|h: Seq<char>|
                    after.to_set().contains(h) <==> before.to_set().insert(hash@).contains(h) by {
                    if after.contains(h) {
                        let i = choose|i: int| 0 <= i < after.len() && after[i] == h;
                        if i < before.len() {
                            assert(before[i] == h);
                        }
                    }
                    if before.contains(h) {
                        let i = choose|i: int| 0 <= i < before.len() && before[i] == h;
                        assert(after[i] == h);
                    }
                    if h == hash@ {
                        assert(after[before.len() as int] == h);
                    }
                }
                assert(self@ =~= old(self)@.insert(hash@));
            }
            true
        }
    }
}

} // verus!
