//! Account addresses.

use vstd::prelude::*;

verus! {

/// The identity of an account: 32 opaque bytes.
#[derive(Clone, Copy, Debug, Eq)]
pub struct Address {
    bytes: [u8; 32],
}

impl Address {
    /// The address made of the given bytes.
    pub fn new(bytes: [u8; 32]) -> (r: Address)
        ensures
            r.bytes() == bytes,
    {
        Address { bytes }
    }

    /// The bytes that make up the address.
    pub closed spec fn bytes(self) -> [u8; 32] {
        self.bytes
    }

    /// The bytes that make up the address.
    pub fn to_bytes(&self) -> (r: [u8; 32])
        ensures
            r == self.bytes(),
    {
        self.bytes
    }

    /// Two addresses are the same account exactly when their bytes agree.
    pub proof fn lemma_same_bytes(self, other: Address)
        ensures
            self == other <==> self.bytes()@ == other.bytes()@,
    {
        broadcast use vstd::array::group_array_axioms;

        if self.bytes()@ == other.bytes()@ {
            assert(self.bytes =~= other.bytes);
        }
    }
}

impl PartialEq for Address {
    fn eq(&self, other: &Self) -> (r: bool) {
        broadcast use vstd::array::group_array_axioms;

        let mut i: usize = 0;
        while i < 32
            invariant
                i <= 32,
                forall|j: int| 0 <= j < i ==> self.bytes[j] == other.bytes[j],
            decreases 32 - i,
        {
            if self.bytes[i] != other.bytes[i] {
                return false;
            }
            i = i + 1;
        }
        proof {
            assert(self.bytes =~= other.bytes);
        }
        true
    }
}

impl vstd::std_specs::cmp::PartialEqSpecImpl for Address {
    open spec fn obeys_eq_spec() -> bool {
        true
    }

    open spec fn eq_spec(&self, other: &Self) -> bool {
        *self == *other
    }
}

} // verus!
