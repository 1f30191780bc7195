//! Identities of the parties: accounts and contracts.

use vstd::prelude::*;

verus! {

/// The identity of an account or of a contract. Two addresses are the same
/// party exactly when their ids are equal.
#[derive(Debug, Clone, Copy, PartialEq, Eq, Structural, Hash)]
pub struct Address {
    pub id: u64,
}

impl Address {
    /// The address with the given id.
    pub fn new(id: u64) -> (address: Address)
        ensures
            address.id == id,
    {
        Address { id }
    }
}

/// One number for an ordered pair of addresses: the first id in the upper
/// 64 bits, the second in the lower.
pub open spec fn spec_pair_key(first: Address, second: Address) -> u128 {
    (first.id * 0x1_0000_0000_0000_0000 + second.id) as u128
}

/// The number that stands for the pair `(first, second)`.
pub fn pair_key(first: Address, second: Address) -> (key: u128)
    ensures
        key == spec_pair_key(first, second),
{
    let upper: u128 = first.id as u128;
    let lower: u128 = second.id as u128;
    upper * 0x1_0000_0000_0000_0000u128 + lower
}

/// Different pairs have different keys.
pub proof fn lemma_pair_key_injective(a: Address, b: Address, c: Address, d: Address)
    ensures
        spec_pair_key(a, b) == spec_pair_key(c, d) <==> (a == c && b == d),
{
}

} // verus!
