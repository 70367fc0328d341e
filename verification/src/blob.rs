//! Blob descriptors: where one content-addressed unit lies inside a pack.

use std::cmp::Ordering;
use vstd::prelude::*;
use crate::id::Id;

verus! {

/// The payload category of a blob.
#[derive(Clone, Copy, Debug, PartialEq, Eq, Hash, Structural)]
pub enum BlobType {
    /// Directory structure.
    Tree,
    /// File content.
    Data,
}

/// One blob of a pack: its identity, its type, and the byte range
/// `[offset, offset + length)` that it occupies in the pack.
///
/// Equality compares all four fields. The natural order compares the offset
/// alone, so two different blobs at one offset rank as equal.
#[derive(Clone, Copy, Debug)]
pub struct IndexBlob {
    pub id: Id,
    pub tpe: BlobType,
    pub offset: u32,
    pub length: u32,
}

impl IndexBlob {
    /// The first byte position behind the blob.
    pub open spec fn end(&self) -> int {
        self.offset + self.length
    }

    /// Whether the blob occupies byte position `pos` of the pack.
    pub open spec fn covers(&self, pos: int) -> bool {
        self.offset <= pos < self.end()
    }

    /// Whether the byte ranges of the two blobs share a position.
    pub open spec fn spec_overlaps(&self, other: &IndexBlob) -> bool {
        exists|pos: int| #[trigger] self.covers(pos) && other.covers(pos)
    }

    /// Whether the byte ranges of the two blobs share a position. An empty
    /// blob overlaps nothing.
    #[verifier::when_used_as_spec(spec_overlaps)]
    pub fn overlaps(&self, other: &IndexBlob) -> (shared: bool)
        ensures
            shared == self.spec_overlaps(other),
    {
        proof {
            lemma_overlaps_by_bounds(*self, *other);
        }
        if self.length == 0 || other.length == 0 {
            false
        } else if self.offset >= other.offset {
            self.offset - other.offset < other.length
        } else {
            other.offset - self.offset < self.length
        }
    }

    /// The natural order: how `self` ranks against `other`, by offset alone.
    pub open spec fn order(&self, other: &IndexBlob) -> Ordering {
        if self.offset < other.offset {
            Ordering::Less
        } else if self.offset == other.offset {
            Ordering::Equal
        } else {
            Ordering::Greater
        }
    }

    /// Whether `self` does not come after `other` in the natural order.
    pub open spec fn precedes(&self, other: &IndexBlob) -> bool {
        self.order(other) != Ordering::Greater
    }

    /// Ranks `self` against `other` in the natural order.
    pub fn cmp(&self, other: &IndexBlob) -> (r: Ordering)
        ensures
            r == self.order(other),
            r == Ordering::Less <==> self.offset < other.offset,
            r == Ordering::Equal <==> self.offset == other.offset,
            r == Ordering::Greater <==> self.offset > other.offset,
    {
        if self.offset < other.offset {
            Ordering::Less
        } else if self.offset == other.offset {
            Ordering::Equal
        } else {
            Ordering::Greater
        }
    }
}

impl PartialEq for IndexBlob {
    fn eq(&self, other: &IndexBlob) -> (r: bool) {
        self.id == other.id && self.tpe == other.tpe && self.offset == other.offset
            && self.length == other.length
    }
}

impl vstd::std_specs::cmp::PartialEqSpecImpl for IndexBlob {
    open spec fn obeys_eq_spec() -> bool {
        true
    }

    open spec fn eq_spec(&self, other: &IndexBlob) -> bool {
        *self == *other
    }
}

impl Eq for IndexBlob {

}

impl PartialOrd for IndexBlob {
    fn partial_cmp(&self, other: &IndexBlob) -> (r: Option<Ordering>) {
        Some(self.cmp(other))
    }
}

impl vstd::std_specs::cmp::PartialOrdSpecImpl for IndexBlob {
    open spec fn obeys_partial_cmp_spec() -> bool {
        true
    }

    open spec fn partial_cmp_spec(&self, other: &IndexBlob) -> Option<Ordering> {
        Some(self.order(other))
    }
}

/// Whether no blob of `blobs` comes after a later one in the natural order.
pub open spec fn sorted_by_natural_order(blobs: Seq<IndexBlob>) -> bool {
    forall|i: int, j: int|
        #![trigger blobs[i], blobs[j]]
        0 <= i <= j < blobs.len() ==> blobs[i].precedes(&blobs[j])
}

/// Whether the offsets of `blobs` never decrease along the sequence.
pub open spec fn offsets_non_decreasing(blobs: Seq<IndexBlob>) -> bool {
    forall|i: int, j: int|
        #![trigger blobs[i], blobs[j]]
        0 <= i <= j < blobs.len() ==> blobs[i].offset <= blobs[j].offset
}

/// Puts `blobs` into the natural order: afterwards the same blobs are there,
/// each as often as before, and no offset is followed by a lower one. The
/// order among blobs at one offset is not promised.
pub fn sort_blobs(blobs: &mut Vec<IndexBlob>)
    ensures
        sorted_by_natural_order(final(blobs)@),
        final(blobs)@.to_multiset() == old(blobs)@.to_multiset(),
        final(blobs)@.len() == old(blobs)@.len(),
{
    let n: usize = blobs.len();
    let mut i: usize = 0;
    while i < n
        invariant
            n == blobs@.len(),
            n == old(blobs)@.len(),
            i <= n,
            blobs@.to_multiset() == old(blobs)@.to_multiset(),
            forall|a: int, b: int|
                #![trigger blobs@[a], blobs@[b]]
                0 <= a <= b < i ==> blobs@[a].offset <= blobs@[b].offset,
        decreases n - i,
    {
        let mut j: usize = i;
        while j > 0 && blobs[j - 1].offset > blobs[j].offset
            invariant
                n == blobs@.len(),
                j <= i < n,
                blobs@.to_multiset() == old(blobs)@.to_multiset(),
                forall|a: int, b: int|
                    #![trigger blobs@[a], blobs@[b]]
                    0 <= a <= b <= i && a != j && b != j ==> blobs@[a].offset
                        <= blobs@[b].offset,
                forall|b: int|
                    j < b <= i ==> blobs@[j as int].offset < (#[trigger] blobs@[b]).offset,
            decreases j,
        {
            let ghost before = blobs@;
            let lower = blobs[j - 1];
            let upper = blobs[j];
            blobs.set(j - 1, upper);
            blobs.set(j, lower);
            proof {
                lemma_swap_keeps_multiset(before, j - 1, j as int);
            }
            j -= 1;
        }
        i += 1;
    }
}

/// Exchanging two blobs of a sequence changes no blob's number of
/// occurrences.
proof fn lemma_swap_keeps_multiset(blobs: Seq<IndexBlob>, i: int, j: int)
    requires
        0 <= i < blobs.len(),
        0 <= j < blobs.len(),
    ensures
        blobs.update(i, blobs[j]).update(j, blobs[i]).to_multiset() == blobs.to_multiset(),
{
    let half = blobs.update(i, blobs[j]);
    vstd::seq_lib::to_multiset_update(blobs, i, blobs[j]);
    vstd::seq_lib::to_multiset_update(half, j, blobs[i]);
    vstd::seq_lib::to_multiset_contains(blobs, blobs[i]);
    vstd::seq_lib::to_multiset_contains(blobs, blobs[j]);
    assert(blobs.contains(blobs[i]));
    assert(blobs.contains(blobs[j]));
    assert(half.update(j, blobs[i]).to_multiset() =~= blobs.to_multiset());
}

/// The natural order is a total preorder: every blob ranks equal to itself,
/// any two blobs are comparable, and the ranking is transitive.
pub proof fn lemma_natural_order_total_preorder(a: IndexBlob, b: IndexBlob, c: IndexBlob)
    ensures
        a.order(&a) == Ordering::Equal,
        a.precedes(&b) || b.precedes(&a),
        a.precedes(&b) && b.precedes(&c) ==> a.precedes(&c),
        (a.order(&b) == Ordering::Less) <==> (b.order(&a) == Ordering::Greater),
        (a.order(&b) == Ordering::Equal) <==> (b.order(&a) == Ordering::Equal),
{
}

/// Blobs rank as equal exactly when they start at the same offset, whatever
/// their other fields hold; equal blobs therefore rank as equal.
pub proof fn lemma_order_equal_iff_same_offset(a: IndexBlob, b: IndexBlob)
    ensures
        a.order(&b) == Ordering::Equal <==> a.offset == b.offset,
        a == b ==> a.order(&b) == Ordering::Equal,
{
}

/// A sequence of blobs that is sorted by the natural order has offsets that
/// never decrease, and the other way round.
pub proof fn lemma_sorted_iff_offsets_non_decreasing(blobs: Seq<IndexBlob>)
    ensures
        sorted_by_natural_order(blobs) <==> offsets_non_decreasing(blobs),
{
    if offsets_non_decreasing(blobs) {
        assert forall|i: int, j: int|
            #![trigger blobs[i], blobs[j]]
            0 <= i <= j < blobs.len() implies blobs[i].precedes(&blobs[j]) by {
            assert(blobs[i].offset <= blobs[j].offset);
        }
    }
    if sorted_by_natural_order(blobs) {
        assert forall|i: int, j: int|
            #![trigger blobs[i], blobs[j]]
            0 <= i <= j < blobs.len() implies blobs[i].offset <= blobs[j].offset by {
            assert(blobs[i].precedes(&blobs[j]));
        }
    }
}

/// Two blobs that hold at least one byte each and do not overlap start at
/// different offsets: only blobs that break the rule rank as equal.
pub proof fn lemma_disjoint_blobs_rank_apart(a: IndexBlob, b: IndexBlob)
    requires
        a.length > 0,
        b.length > 0,
        !a.overlaps(&b),
    ensures
        a.order(&b) != Ordering::Equal,
        a.order(&b) == Ordering::Less ==> a.end() <= b.offset,
        a.order(&b) == Ordering::Greater ==> b.end() <= a.offset,
{
    lemma_overlaps_by_bounds(a, b);
}

/// Two blobs overlap exactly when both are non-empty and each starts before
/// the other ends.
pub proof fn lemma_overlaps_by_bounds(a: IndexBlob, b: IndexBlob)
    ensures
        a.overlaps(&b) <==> (a.length > 0 && b.length > 0 && a.offset < b.end() && b.offset
            < a.end()),
        a.overlaps(&b) <==> b.overlaps(&a),
{
    if a.length > 0 && b.length > 0 && a.offset < b.end() && b.offset < a.end() {
        let pos: u32 = if a.offset >= b.offset {
            a.offset
        } else {
            b.offset
        };
        assert(a.covers(pos as int) && b.covers(pos as int));
    }
}

} // verus!
