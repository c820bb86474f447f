//! Account identities.
use vstd::prelude::*;

verus! {

/// A 160-bit account identity, held as its first four bytes and its last
/// sixteen, each read as a big-endian number.
#[derive(Clone, Copy, Debug, PartialEq, Eq, Structural)]
pub struct Address {
    pub hi: u32,
    pub lo: u128,
}

impl Address {
    /// The identity whose bytes are all zero: the native asset, and the value
    /// of a field that was never set.
    pub open spec fn zero_spec() -> Address {
        Address { hi: 0, lo: 0 }
    }

    /// The identity whose bytes are all zero.
    pub fn zero() -> (r: Address)
        ensures
            r == Address::zero_spec(),
    {
        Address { hi: 0, lo: 0 }
    }
}

} // verus!
