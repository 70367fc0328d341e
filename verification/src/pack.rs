//! Pack descriptors: which blobs one storage container holds, and how many
//! bytes the container takes on disk.

use chrono::NaiveDateTime;
use vstd::prelude::*;
use crate::blob::{BlobType, IndexBlob};
use crate::id::Id;

verus! {

/// `chrono::NaiveDateTime`, a calendar date and time of day without a time
/// zone. The library reads it as universal time, stores it and hands it on,
/// and never looks inside one.
#[verifier::external_type_specification]
#[verifier::external_body]
pub struct ExNaiveDateTime(NaiveDateTime);

/// Bytes that every pack takes besides its blobs: a four-byte length field
/// and thirty-two bytes of authentication.
pub const CONTAINER_OVERHEAD: u32 = 36;

/// Bytes that the pack's trailing directory takes for each blob: identifier,
/// type tag and length field.
pub const BLOB_OVERHEAD: u32 = 37;

/// Bytes that `blobs` and their directory entries take in a pack.
pub open spec fn blobs_size(blobs: Seq<IndexBlob>) -> int
    decreases blobs.len(),
{
    if blobs.len() == 0 {
        0
    } else {
        blobs_size(blobs.drop_last()) + blobs.last().length + BLOB_OVERHEAD
    }
}

/// What a pack descriptor holds, as mathematical values.
pub struct PackView {
    pub id: Id,
    pub time: Option<NaiveDateTime>,
    pub blobs: Seq<IndexBlob>,
}

impl PackView {
    /// The exact size in bytes of the pack's container on disk.
    pub open spec fn size(&self) -> int {
        CONTAINER_OVERHEAD + blobs_size(self.blobs)
    }

    /// Whether every blob of the pack has type `t`.
    pub open spec fn all_of_type(&self, t: BlobType) -> bool {
        forall|i: int| 0 <= i < self.blobs.len() ==> (#[trigger] self.blobs[i]).tpe == t
    }

    /// Whether all blobs of the pack share one type.
    pub open spec fn is_homogeneous(&self) -> bool {
        forall|i: int, j: int|
            #![trigger self.blobs[i], self.blobs[j]]
            0 <= i < self.blobs.len() && 0 <= j < self.blobs.len() ==> self.blobs[i].tpe
                == self.blobs[j].tpe
    }

    /// Whether no two blobs of the pack carry the same identifier.
    pub open spec fn has_unique_ids(&self) -> bool {
        forall|i: int, j: int|
            #![trigger self.blobs[i], self.blobs[j]]
            0 <= i < j < self.blobs.len() ==> self.blobs[i].id != self.blobs[j].id
    }

    /// Whether no two blobs of the pack occupy a common byte position.
    pub open spec fn is_non_overlapping(&self) -> bool {
        forall|i: int, j: int|
            #![trigger self.blobs[i], self.blobs[j]]
            0 <= i < j < self.blobs.len() ==> !self.blobs[i].overlaps(&self.blobs[j])
    }

    /// The invariant of a sealed pack: it holds at least one blob, its blobs
    /// share one type, and they differ in identifier and in position.
    pub open spec fn is_sealable(&self) -> bool {
        &&& self.blobs.len() > 0
        &&& self.is_homogeneous()
        &&& self.has_unique_ids()
        &&& self.is_non_overlapping()
    }
}

/// One pack of the repository: its identifier, when it was written (in
/// universal time), if that is known, and the blobs it holds in the order
/// they were added.
#[derive(Debug)]
pub struct IndexPack {
    pub id: Id,
    pub time: Option<NaiveDateTime>,
    pub blobs: Vec<IndexBlob>,
}

impl View for IndexPack {
    type V = PackView;

    open spec fn view(&self) -> PackView {
        PackView { id: self.id, time: self.time, blobs: self.blobs@ }
    }
}

impl Default for IndexPack {
    /// The pack under assembly: no blobs yet, no time, the all-zero identifier.
    fn default() -> (pack: IndexPack)
        ensures
            pack@.blobs == Seq::<IndexBlob>::empty(),
            pack@.time == None::<NaiveDateTime>,
            pack@.id@ == Seq::new(32, |i: int| 0u8),
    {
        IndexPack { id: Id::default(), time: None, blobs: Vec::new() }
    }
}

impl IndexPack {
    /// Gives the pack its identifier, replacing the one it had.
    pub fn set_id(&mut self, id: Id)
        ensures
            final(self)@ == (PackView { id: id, ..old(self)@ }),
    {
        self.id = id;
    }

    /// Appends the blob with the given identity, type and position behind the
    /// blobs that the pack holds. Nothing is checked: keeping the blobs of
    /// one type and apart from each other is left to the caller.
    pub fn add(&mut self, id: Id, tpe: BlobType, offset: u32, length: u32)
        ensures
            final(self)@ == (PackView {
                blobs: old(self)@.blobs.push(IndexBlob { id, tpe, offset, length }),
                ..old(self)@
            }),
            final(self)@.size() == old(self)@.size() + length + BLOB_OVERHEAD,
            old(self)@.all_of_type(tpe) ==> final(self)@.all_of_type(tpe),
    {
        let blob = IndexBlob { id, tpe, offset, length };
        proof {
            assert(self.blobs@.push(blob).drop_last() =~= self.blobs@);
        }
        self.blobs.push(blob);
    }

    /// The exact size in bytes of the pack's container on disk.
    pub fn pack_size(&self) -> (size: u32)
        requires
            self@.blobs.len() > 0,
            self@.size() <= u32::MAX,
        ensures
            size == self@.size(),
    {
        let mut size: u32 = CONTAINER_OVERHEAD;
        let n: usize = self.blobs.len();
        let mut i: usize = 0;
        while i < n
            invariant
                n == self.blobs@.len(),
                i <= n,
                size == CONTAINER_OVERHEAD + blobs_size(self.blobs@.take(i as int)),
                self@.size() <= u32::MAX,
            decreases n - i,
        {
            proof {
                lemma_blobs_size_take(self.blobs@, i as int + 1);
                lemma_blobs_size_monotone(self.blobs@, i as int + 1);
            }
            size = size + self.blobs[i].length + BLOB_OVERHEAD;
            i += 1;
        }
        proof {
            assert(self.blobs@.take(n as int) =~= self.blobs@);
        }
        size
    }

    /// The size of the pack's container, if the pack holds a blob and the
    /// size can be written in thirty-two bits.
    pub fn checked_pack_size(&self) -> (size: Option<u32>)
        ensures
            size is Some <==> self@.blobs.len() > 0 && self@.size() <= u32::MAX,
            size is Some ==> size->Some_0 == self@.size(),
    {
        let n: usize = self.blobs.len();
        if n == 0 {
            return None;
        }
        let mut size: u32 = CONTAINER_OVERHEAD;
        let mut i: usize = 0;
        while i < n
            invariant
                n == self.blobs@.len(),
                i <= n,
                size == CONTAINER_OVERHEAD + blobs_size(self.blobs@.take(i as int)),
            decreases n - i,
        {
            proof {
                lemma_blobs_size_take(self.blobs@, i as int + 1);
                lemma_blobs_size_monotone(self.blobs@, i as int + 1);
            }
            let entry: u32 = match self.blobs[i].length.checked_add(BLOB_OVERHEAD) {
                Some(entry) => entry,
                None => { return None; },
            };
            size = match size.checked_add(entry) {
                Some(sum) => sum,
                None => { return None; },
            };
            i += 1;
        }
        proof {
            assert(self.blobs@.take(n as int) =~= self.blobs@);
        }
        Some(size)
    }

    /// Whether all blobs of the pack share one type.
    pub fn is_homogeneous(&self) -> (ok: bool)
        ensures
            ok == self@.is_homogeneous(),
    {
        let n: usize = self.blobs.len();
        if n == 0 {
            return true;
        }
        let first = self.blobs[0].tpe;
        let mut i: usize = 1;
        while i < n
            invariant
                n == self.blobs@.len(),
                1 <= i <= n,
                first == self.blobs@[0].tpe,
                forall|k: int| 0 <= k < i ==> (#[trigger] self.blobs@[k]).tpe == first,
            decreases n - i,
        {
            if self.blobs[i].tpe != first {
                proof {
                    assert(self.blobs@[i as int].tpe != self.blobs@[0].tpe);
                }
                return false;
            }
            i += 1;
        }
        true
    }

    /// Whether no two blobs of the pack carry the same identifier.
    pub fn has_unique_ids(&self) -> (ok: bool)
        ensures
            ok == self@.has_unique_ids(),
    {
        let n: usize = self.blobs.len();
        let mut j: usize = 0;
        while j < n
            invariant
                n == self.blobs@.len(),
                j <= n,
                forall|a: int, b: int|
                    #![trigger self.blobs@[a], self.blobs@[b]]
                    0 <= a < b < j ==> self.blobs@[a].id != self.blobs@[b].id,
            decreases n - j,
        {
            let mut i: usize = 0;
            while i < j
                invariant
                    n == self.blobs@.len(),
                    i <= j < n,
                    forall|a: int|
                        0 <= a < i ==> (#[trigger] self.blobs@[a]).id != self.blobs@[j as int].id,
                decreases j - i,
            {
                if self.blobs[i].id == self.blobs[j].id {
                    proof {
                        assert(self.blobs@[i as int].id == self.blobs@[j as int].id);
                    }
                    return false;
                }
                i += 1;
            }
            j += 1;
        }
        true
    }

    /// Whether no two blobs of the pack occupy a common byte position.
    pub fn is_non_overlapping(&self) -> (ok: bool)
        ensures
            ok == self@.is_non_overlapping(),
    {
        let n: usize = self.blobs.len();
        let mut j: usize = 0;
        while j < n
            invariant
                n == self.blobs@.len(),
                j <= n,
                forall|a: int, b: int|
                    #![trigger self.blobs@[a], self.blobs@[b]]
                    0 <= a < b < j ==> !self.blobs@[a].overlaps(&self.blobs@[b]),
            decreases n - j,
        {
            let mut i: usize = 0;
            while i < j
                invariant
                    n == self.blobs@.len(),
                    i <= j < n,
                    forall|a: int|
                        0 <= a < i ==> !(#[trigger] self.blobs@[a]).overlaps(
                            &self.blobs@[j as int],
                        ),
                decreases j - i,
            {
                if self.blobs[i].overlaps(&self.blobs[j]) {
                    proof {
                        assert(self@.blobs[i as int].overlaps(&self@.blobs[j as int]));
                    }
                    return false;
                }
                i += 1;
            }
            j += 1;
        }
        true
    }

    /// Whether the pack may be sealed: it holds a blob, its blobs share one
    /// type, and no two of them share an identifier or a byte position.
    /// `add` checks none of this, so a producer asks before it seals.
    pub fn is_sealable(&self) -> (ok: bool)
        ensures
            ok == self@.is_sealable(),
    {
        self.blobs.len() > 0 && self.is_homogeneous() && self.has_unique_ids()
            && self.is_non_overlapping()
    }

    /// The type of the pack's blobs: that of its first blob.
    pub fn blob_type(&self) -> (tpe: BlobType)
        requires
            self@.blobs.len() > 0,
        ensures
            tpe == self@.blobs[0].tpe,
            forall|t: BlobType| self@.all_of_type(t) ==> tpe == t,
            self@.is_homogeneous() ==> self@.all_of_type(tpe),
    {
        self.blobs[0].tpe
    }
}

/// The size of the first `k` blobs is that of the first `k - 1` and the
/// entry of the one behind them.
pub proof fn lemma_blobs_size_take(blobs: Seq<IndexBlob>, k: int)
    requires
        0 < k <= blobs.len(),
    ensures
        blobs_size(blobs.take(k)) == blobs_size(blobs.take(k - 1)) + blobs[k - 1].length
            + BLOB_OVERHEAD,
{
    assert(blobs.take(k).drop_last() =~= blobs.take(k - 1));
}

/// No prefix of a sequence of blobs takes more bytes than the whole.
pub proof fn lemma_blobs_size_monotone(blobs: Seq<IndexBlob>, k: int)
    requires
        0 <= k <= blobs.len(),
    ensures
        0 <= blobs_size(blobs.take(k)) <= blobs_size(blobs),
    decreases blobs.len() - k,
{
    if k == blobs.len() {
        assert(blobs.take(k) =~= blobs);
        lemma_blobs_size_bounds(blobs);
    } else {
        lemma_blobs_size_monotone(blobs, k + 1);
        lemma_blobs_size_take(blobs, k + 1);
        lemma_blobs_size_bounds(blobs.take(k));
    }
}

/// A sequence of blobs takes at least the bytes of its directory entries.
pub proof fn lemma_blobs_size_bounds(blobs: Seq<IndexBlob>)
    ensures
        blobs_size(blobs) >= BLOB_OVERHEAD * blobs.len(),
    decreases blobs.len(),
{
    if blobs.len() > 0 {
        lemma_blobs_size_bounds(blobs.drop_last());
    }
}

} // verus!
