//! Content identifiers.

use vstd::prelude::*;

verus! {

/// A content hash that names a blob, a pack or an index revision.
///
/// Two identifiers are equal exactly when their bytes are.
#[derive(Clone, Copy, Debug, Hash)]
pub struct Id {
    pub bytes: [u8; 32],
}

impl View for Id {
    type V = Seq<u8>;

    open spec fn view(&self) -> Seq<u8> {
        self.bytes@
    }
}

impl Id {
    /// The identifier made of the given hash bytes.
    pub fn new(bytes: [u8; 32]) -> (id: Id)
        ensures
            id.bytes == bytes,
            id@ == bytes@,
    {
        Id { bytes }
    }

    /// The hash bytes of this identifier.
    pub fn as_bytes(&self) -> (bytes: &[u8; 32])
        ensures
            *bytes == self.bytes,
    {
        &self.bytes
    }

    /// Identifiers are determined by their view: equal bytes, equal value.
    pub proof fn lemma_view_injective(a: Id, b: Id)
        ensures
            a@ == b@ <==> a == b,
    {
        if a@ == b@ {
            assert(a.bytes =~= b.bytes);
        }
    }
}

impl PartialEq for Id {
    fn eq(&self, other: &Id) -> (r: bool) {
        let mut i: usize = 0;
        while i < 32
            invariant
                i <= 32,
                forall|j: int| 0 <= j < i ==> self.bytes[j] == other.bytes[j],
            decreases 32 - i,
        {
            if self.bytes[i] != other.bytes[i] {
                return false;
            }
            i += 1;
        }
        proof {
            assert(self.bytes =~= other.bytes);
        }
        true
    }
}

impl vstd::std_specs::cmp::PartialEqSpecImpl for Id {
    open spec fn obeys_eq_spec() -> bool {
        true
    }

    open spec fn eq_spec(&self, other: &Id) -> bool {
        *self == *other
    }
}

impl Eq for Id {

}

impl Default for Id {
    /// The all-zero identifier.
    fn default() -> (id: Id)
        ensures
            id@ == Seq::new(32, |i: int| 0u8),
    {
        let id = Id { bytes: [0u8; 32] };
        proof {
            assert(id@ =~= Seq::new(32, |i: int| 0u8));
        }
        id
    }
}

} // verus!
