//! Account addresses.
use vstd::prelude::*;

verus! {

/// A 32-byte account address.
#[derive(Clone, Copy, Debug)]
pub struct Pubkey {
    pub bytes: [u8; 32],
}

impl Pubkey {
    /// The address with the given bytes.
    pub fn new_from_array(bytes: [u8; 32]) -> (r: Pubkey)
        ensures
            r.bytes == bytes,
    {
        Pubkey { bytes }
    }

    /// The bytes of the address.
    pub fn to_bytes(&self) -> (r: [u8; 32])
        ensures
            r == self.bytes,
    {
        self.bytes
    }
}

impl PartialEq for Pubkey {
    fn eq(&self, o: &Pubkey) -> (r: bool) {
        let mut i: usize = 0;
        while i < 32
            invariant
                i <= 32,
                forall|k: int| 0 <= k < i ==> self.bytes@[k] == o.bytes@[k],
            decreases 32 - i,
        {
            if self.bytes[i] != o.bytes[i] {
                return false;
            }
            i += 1;
        }
        proof {
            assert(self.bytes@ =~= o.bytes@);
            vstd::array::axiom_array_ext_equal(self.bytes, o.bytes);
        }
        true
    }
}

impl vstd::std_specs::cmp::PartialEqSpecImpl for Pubkey {
    open spec fn obeys_eq_spec() -> bool {
        true
    }

    open spec fn eq_spec(&self, o: &Pubkey) -> bool {
        *self == *o
    }
}

impl Eq for Pubkey {}

} // verus!
