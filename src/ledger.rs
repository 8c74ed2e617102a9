//! The commitment ledger: 256 shards, each a list of commitments and the
//! Merkle root of that list. A commitment goes to the shard that its first
//! byte names. The list only grows; the root is recomputed over the whole
//! list on every insertion.
use crate::bytes::{digest_eq, lemma_array_from_view};
use crate::crypto::zero_digest;
use vstd::prelude::*;

verus! {

/// Number of shards.
pub const SHARD_COUNT: usize = 256;

/// One shard: its commitments in order of insertion, and their Merkle root.
#[derive(Debug, Clone, Default, PartialEq, Eq)]
pub struct Shard {
    pub list: Vec<[u8; 32]>,
    pub root: [u8; 32],
}

/// The shard that commitment `c` is stored and looked up in: its first byte.
pub open spec fn shard_index(c: [u8; 32]) -> int {
    c@[0] as int
}

/// The ledger of commitments, split into [`SHARD_COUNT`] shards.
#[derive(Debug, Clone, PartialEq, Eq)]
pub struct MantaPrivateAssetLedger {
    pub shard: Vec<Shard>,
}

impl MantaPrivateAssetLedger {
    /// There are exactly [`SHARD_COUNT`] shards.
    pub open spec fn wf(&self) -> bool {
        self.shard@.len() == SHARD_COUNT
    }

    /// Commitment `c` is in the shard it belongs to.
    pub open spec fn holds(&self, c: [u8; 32]) -> bool {
        self.shard@[shard_index(c)].list@.contains(c)
    }

    /// Some shard has root `t`.
    pub open spec fn has_root(&self, t: [u8; 32]) -> bool {
        exists|i: int| 0 <= i < self.shard@.len() && #[trigger] self.shard@[i].root == t
    }

    /// The ledger with every shard empty and every root all zero.
    pub fn new() -> (l: Self)
        ensures
            l.wf(),
            forall|i: int| 0 <= i < SHARD_COUNT ==> (#[trigger] l.shard@[i]).list@.len() == 0
                && l.shard@[i].root@ == zero_digest(),
    {
        let mut shard: Vec<Shard> = Vec::new();
        let mut i: usize = 0;
        while i < SHARD_COUNT
            invariant
                i <= SHARD_COUNT,
                shard@.len() == i,
                forall|j: int| 0 <= j < i ==> (#[trigger] shard@[j]).list@.len() == 0
                    && shard@[j].root@ == zero_digest(),
            decreases SHARD_COUNT - i,
        {
            let root: [u8; 32] = [0u8; 32];
            assert(root@ =~= zero_digest());
            shard.push(Shard { list: Vec::new(), root });
            i = i + 1;
        }
        MantaPrivateAssetLedger { shard }
    }

    /// Whether `target` is the current root of any shard.
    pub fn check_root(&self, target: &[u8; 32]) -> (r: bool)
        requires
            self.wf(),
        ensures
            r == self.has_root(*target),
    {
        let mut i: usize = 0;
        while i < SHARD_COUNT
            invariant
                self.wf(),
                i <= SHARD_COUNT,
                forall|j: int| 0 <= j < i ==> self.shard@[j].root != *target,
            decreases SHARD_COUNT - i,
        {
            if digest_eq(&self.shard[i].root, target) {
                proof {
                    lemma_array_from_view(self.shard@[i as int].root, *target);
                }
                return true;
            }
            i = i + 1;
        }
        false
    }

    /// Whether `target` is in the shard that its first byte names.
    pub fn exist(&self, target: &[u8; 32]) -> (r: bool)
        requires
            self.wf(),
        ensures
            r == self.holds(*target),
    {
        let index = target[0] as usize;
        assert(index as int == shard_index(*target));
        let list = &self.shard[index].list;
        assert(list@ == self.shard@[shard_index(*target)].list@);
        let mut i: usize = 0;
        while i < list.len()
            invariant
                i <= list@.len(),
                list@ == self.shard@[shard_index(*target)].list@,
                forall|j: int| 0 <= j < i ==> list@[j] != *target,
            decreases list@.len() - i,
        {
            if digest_eq(&list[i], target) {
                proof {
                    lemma_array_from_view(list@[i as int], *target);
                    assert(list@[i as int] == *target);
                }
                return true;
            }
            i = i + 1;
        }
        false
    }

    /// The list of `target`'s shard as it stands once `target` is appended:
    /// the leaves over which the root that [`MantaPrivateAssetLedger::update`]
    /// takes is computed.
    pub fn leaves_after(&self, target: &[u8; 32]) -> (v: Vec<[u8; 32]>)
        requires
            self.wf(),
        ensures
            v@ == self.shard@[shard_index(*target)].list@.push(*target),
    {
        let list = &self.shard[target[0] as usize].list;
        let mut v: Vec<[u8; 32]> = Vec::new();
        let mut i: usize = 0;
        while i < list.len()
            invariant
                i <= list@.len(),
                v@ == list@.subrange(0, i as int),
            decreases list@.len() - i,
        {
            v.push(list[i]);
            i = i + 1;
            assert(v@ =~= list@.subrange(0, i as int));
        }
        assert(list@.subrange(0, list@.len() as int) =~= list@);
        v.push(*target);
        v
    }

    /// Appends `target` to its shard and stores `root`, the Merkle root of
    /// that shard's list with `target` appended
    /// ([`MantaPrivateAssetLedger::leaves_after`]). A commitment already
    /// present is appended again. No other shard changes.
    pub fn update(&mut self, target: &[u8; 32], root: [u8; 32])
        requires
            old(self).wf(),
        ensures
            final(self).wf(),
            final(self).shard@[shard_index(*target)].list@ == old(self).shard@[shard_index(
                *target,
            )].list@.push(*target),
            final(self).shard@[shard_index(*target)].root == root,
            forall|i: int|
                0 <= i < SHARD_COUNT && i != shard_index(*target) ==> #[trigger] final(self).shard@[i]
                    == old(self).shard@[i],
    {
        let index = target[0] as usize;
        self.shard[index].list.push(*target);
        self.shard[index].root = root;
    }
}

impl Default for MantaPrivateAssetLedger {
    fn default() -> (l: Self)
        ensures
            l.wf(),
            forall|i: int| 0 <= i < SHARD_COUNT ==> (#[trigger] l.shard@[i]).list@.len() == 0
                && l.shard@[i].root@ == zero_digest(),
    {
        Self::new()
    }
}

/// A fresh ledger holds no commitment.
pub proof fn lemma_fresh_ledger_is_empty(l: MantaPrivateAssetLedger, c: [u8; 32])
    requires
        l.wf(),
        forall|i: int| 0 <= i < SHARD_COUNT ==> (#[trigger] l.shard@[i]).list@.len() == 0,
    ensures
        !l.holds(c),
{
    assert(l.shard@[shard_index(c)].list@.len() == 0);
}

/// After `c` is added with the root recomputed over its shard, the ledger
/// holds `c`, that root is one of its roots, and every commitment it held
/// before it still holds.
pub proof fn lemma_update_then_exists(
    before: MantaPrivateAssetLedger,
    after: MantaPrivateAssetLedger,
    c: [u8; 32],
    root: [u8; 32],
    d: [u8; 32],
)
    requires
        before.wf(),
        after.wf(),
        after.shard@[shard_index(c)].list@ == before.shard@[shard_index(c)].list@.push(c),
        after.shard@[shard_index(c)].root == root,
        forall|i: int|
            0 <= i < SHARD_COUNT && i != shard_index(c) ==> #[trigger] after.shard@[i]
                == before.shard@[i],
    ensures
        after.holds(c),
        after.has_root(root),
        before.holds(d) ==> after.holds(d),
{
    let l = after.shard@[shard_index(c)].list@;
    assert(l[l.len() - 1] == c);
    if before.holds(d) {
        let i = shard_index(d);
        if i != shard_index(c) {
            assert(after.shard@[i] == before.shard@[i]);
        } else {
            let j = choose|j: int| 0 <= j < before.shard@[i].list@.len() && before.shard@[i].list@[j] == d;
            assert(after.shard@[i].list@[j] == d);
        }
    }
}

/// A commitment is stored in, and looked up in, the shard its first byte
/// names: adding `c` changes that shard alone, and whether a commitment is
/// held is decided by its own shard alone.
pub proof fn lemma_shard_routing(
    before: MantaPrivateAssetLedger,
    after: MantaPrivateAssetLedger,
    c: [u8; 32],
    d: [u8; 32],
)
    requires
        before.wf(),
        after.wf(),
        after.shard@[shard_index(c)].list@ == before.shard@[shard_index(c)].list@.push(c),
        forall|i: int|
            0 <= i < SHARD_COUNT && i != shard_index(c) ==> #[trigger] after.shard@[i]
                == before.shard@[i],
    ensures
        0 <= shard_index(c) < SHARD_COUNT,
        shard_index(d) != shard_index(c) ==> (after.holds(d) == before.holds(d)),
{
    if shard_index(d) != shard_index(c) {
        assert(after.shard@[shard_index(d)] == before.shard@[shard_index(d)]);
    }
}

} // verus!
