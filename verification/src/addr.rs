//! Account addresses and their namespace resolution.
//!
//! Only two addresses own a key space: the zero address and the contract
//! address it deploys with nonce zero. Every other address is externally
//! owned and carries no contract storage.

use vstd::prelude::*;
use crate::keys::KeyTag;
use crate::keys::spec_tag_byte;
use crate::keys::tag_byte;

verus! {

/// A fixed-width account identifier, held as its raw bytes.
#[derive(Clone, Debug)]
pub struct Address {
    pub bytes: Vec<u8>,
}

impl View for Address {
    type V = Seq<u8>;

    open spec fn view(&self) -> Seq<u8> {
        self.bytes@
    }
}

impl Address {
    /// Wraps raw address bytes.
    pub fn from_bytes(bytes: Vec<u8>) -> (a: Address)
        ensures
            a@ == bytes@,
    {
        Address { bytes }
    }
}

/// The 20 zero bytes of the reserved zero address.
pub open spec fn zero_address() -> Seq<u8> {
    Seq::new(20, |i: int| 0u8)
}

/// The address of the contract that an address deploys with a given nonce.
pub uninterp spec fn create_address_of(deployer: Seq<u8>, nonce: u64) -> Seq<u8>;

/// Relies on `alloy_primitives::Address::create`: the keccak-256 digest of
/// the RLP pair (deployer, nonce), truncated to its last 20 bytes — a
/// function of the two arguments alone. `Address::from_slice` panics unless
/// it is given exactly 20 bytes, so shorter or longer input is excluded.
#[verifier::external_body]
fn create_address(deployer: &Vec<u8>, nonce: u64) -> (r: Vec<u8>)
    requires
        deployer@.len() == 20,
    ensures
        r@ == create_address_of(deployer@, nonce),
        r@.len() == 20,
{
    let address = alloy_primitives::Address::from_slice(deployer.as_slice());
    address.create(nonce).as_slice().to_vec()
}

/// Byte-for-byte equality of two byte strings.
pub fn bytes_equal(a: &Vec<u8>, b: &Vec<u8>) -> (r: bool)
    ensures
        r == (a@ == b@),
{
    if a.len() != b.len() {
        return false;
    }
    let mut i: usize = 0;
    while i < a.len()
        invariant
            0 <= i <= a@.len(),
            a@.len() == b@.len(),
            forall|j: int| 0 <= j < i ==> a@[j] == b@[j],
        decreases a@.len() - i,
    {
        if a[i] != b[i] {
            return false;
        }
        i += 1;
    }
    proof {
        assert(a@ =~= b@);
    }
    true
}

/// The 20 zero bytes of the reserved zero address.
pub fn zero_address_bytes() -> (r: Vec<u8>)
    ensures
        r@ == zero_address(),
{
    let mut bytes: Vec<u8> = Vec::new();
    let mut i: usize = 0;
    while i < 20
        invariant
            i <= 20,
            bytes@.len() == i,
            forall|j: int| 0 <= j < i ==> bytes@[j] == 0u8,
        decreases 20 - i,
    {
        bytes.push(0u8);
        i += 1;
    }
    proof {
        assert(bytes@ =~= zero_address());
    }
    bytes
}

/// The namespace tag of an address: one of the two reserved addresses gets
/// its tag byte, every other address none.
pub open spec fn spec_resolve(address: Seq<u8>) -> Option<u8> {
    if address == zero_address() {
        Some(spec_tag_byte(KeyTag::ZeroContractAddress))
    } else if address == create_address_of(zero_address(), 0) {
        Some(spec_tag_byte(KeyTag::ContractAddress))
    } else {
        None
    }
}

/// Maps an address to its namespace tag byte; `None` for an externally owned
/// account, which has no key space.
pub fn resolve_namespace_tag(address: &Address) -> (r: Option<u8>)
    ensures
        r == spec_resolve(address@),
{
    let zero = zero_address_bytes();
    if bytes_equal(&address.bytes, &zero) {
        return Some(tag_byte(KeyTag::ZeroContractAddress));
    }
    let contract = create_address(&zero, 0);
    if bytes_equal(&address.bytes, &contract) {
        return Some(tag_byte(KeyTag::ContractAddress));
    }
    None
}

} // verus!
