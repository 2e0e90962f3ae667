//! Identities of the parties that act on markets.

use vstd::prelude::*;

verus! {

/// A party's identity: the 32 bytes of its address.
#[derive(Clone, Copy, Debug, PartialEq, Eq, Hash)]
pub struct Identity {
    pub bytes: [u8; 32],
}

impl View for Identity {
    type V = Seq<u8>;

    open spec fn view(&self) -> Seq<u8> {
        self.bytes@
    }
}

impl Default for Identity {
    /// The identity of all zero bytes.
    fn default() -> (id: Identity)
        ensures
            id@ == Identity::default_view(),
    {
        let id = Identity { bytes: [0u8; 32] };
        assert(id@ =~= Identity::default_view());
        id
    }
}

impl Identity {
    /// The bytes of the blank identity: 32 zeros.
    pub open spec fn default_view() -> Seq<u8> {
        Seq::new(32, |i: int| 0u8)
    }

    /// Wraps the 32 bytes of an address.
    pub fn new(bytes: [u8; 32]) -> (id: Identity)
        ensures
            id@ == bytes@,
            id.bytes == bytes,
    {
        Identity { bytes }
    }

    /// Whether two identities are the same party: all 32 bytes agree.
    pub fn same(&self, other: &Identity) -> (r: bool)
        ensures
            r == (self@ == other@),
    {
        let mut i: usize = 0;
        while i < 32
            invariant
                i <= 32,
                forall|j: int| 0 <= j < i ==> self.bytes@[j] == other.bytes@[j],
            decreases 32 - i,
        {
            if self.bytes[i] != other.bytes[i] {
                return false;
            }
            i = i + 1;
        }
        assert(self.bytes@ =~= other.bytes@);
        true
    }
}

} // verus!
