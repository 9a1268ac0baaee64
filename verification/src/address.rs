use vstd::prelude::*;
use vstd::std_specs::cmp::PartialEqSpecImpl;

verus! {

/// An account identifier: twenty opaque bytes.
#[derive(Clone, Copy, Debug, Eq, Hash)]
pub struct Address {
    pub bytes: [u8; 20],
}

impl Address {
    /// Holds of the reserved identifier, whose bytes are all zero.
    pub open spec fn is_null(self) -> bool {
        forall|i: int| 0 <= i < 20 ==> self.bytes[i] == 0u8
    }

    /// The reserved identifier.
    pub fn null() -> (r: Address)
        ensures
            r.is_null(),
    {
        Address { bytes: [0u8; 20] }
    }

    /// Tells whether this is the reserved identifier.
    pub fn is_zero(&self) -> (r: bool)
        ensures
            r == self.is_null(),
    {
        let mut i: usize = 0;
        while i < 20
            invariant
                i <= 20,
                forall|j: int| 0 <= j < i ==> self.bytes[j] == 0u8,
            decreases 20 - i,
        {
            if self.bytes[i] != 0 {
                return false;
            }
            i += 1;
        }
        true
    }
}

impl PartialEq for Address {
    fn eq(&self, other: &Address) -> (r: bool) {
        let mut i: usize = 0;
        while i < 20
            invariant
                i <= 20,
                forall|j: int| 0 <= j < i ==> self.bytes[j] == other.bytes[j],
            decreases 20 - i,
        {
            if self.bytes[i] != other.bytes[i] {
                return false;
            }
            i += 1;
        }
        proof {
            assert(self.bytes =~= other.bytes);
        }
        true
    }
}

impl PartialEqSpecImpl for Address {
    open spec fn obeys_eq_spec() -> bool {
        true
    }

    open spec fn eq_spec(&self, other: &Address) -> bool {
        *self == *other
    }
}

/// Any two reserved identifiers are the same value.
pub proof fn lemma_null_unique(a: Address, b: Address)
    requires
        a.is_null(),
        b.is_null(),
    ensures
        a == b,
{
    assert(a.bytes =~= b.bytes);
}

} // verus!
