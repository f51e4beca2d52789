//! Block-hash derivation: the keccak-256 digest of the block number's
//! decimal digits.

use vstd::prelude::*;

verus! {

/// The decimal digits of a number, as ASCII bytes.
pub open spec fn spec_decimal_bytes(n: nat) -> Seq<u8>
    decreases n,
{
    if n < 10 {
        seq![(48 + n) as u8]
    } else {
        spec_decimal_bytes(n / 10) + seq![(48 + n % 10) as u8]
    }
}

/// Renders a number as its decimal ASCII digits.
pub fn decimal_bytes(n: u64) -> (r: Vec<u8>)
    ensures
        r@ == spec_decimal_bytes(n as nat),
    decreases n,
{
    if n < 10 {
        let mut digits: Vec<u8> = Vec::new();
        digits.push((48 + n) as u8);
        assert(digits@ =~= spec_decimal_bytes(n as nat));
        digits
    } else {
        let mut digits = decimal_bytes(n / 10);
        digits.push((48 + n % 10) as u8);
        assert(digits@ =~= spec_decimal_bytes(n as nat));
        digits
    }
}

/// What keccak-256 makes of a byte string.
pub uninterp spec fn keccak256_bytes(data: Seq<u8>) -> Seq<u8>;

/// Relies on `alloy_primitives::keccak256`: a 32-byte digest that is a
/// function of the input bytes alone.
#[verifier::external_body]
pub fn keccak256(data: &Vec<u8>) -> (r: Vec<u8>)
    ensures
        r@ == keccak256_bytes(data@),
        r@.len() == 32,
{
    alloy_primitives::keccak256(data.as_slice()).as_slice().to_vec()
}

} // verus!
