//! The key space of the backing store.
//!
//! Every key is `[tag, category]`, followed for the storage category by the
//! self-describing serialization of the 256-bit slot index.

use vstd::prelude::*;
use crate::error::DbError;
use crate::word256::Word256;
use crate::word256::lemma_word256_view_bounded;
use crate::word256::word_bound;

verus! {

/// The namespace of a key: which reserved contract's key space it belongs to.
pub enum KeyTag {
    /// Key prefix for the storage of the zero contract.
    ZeroContractAddress,
    /// Key prefix for the storage of the contract address.
    ContractAddress,
}

/// What a key addresses within one namespace.
pub enum KeyCategory {
    /// The serialized account information blob.
    AccountInfo,
    /// The persisted account lifecycle state.
    AccountState,
    /// One 256-bit storage slot.
    Storage,
}

/// The byte value of a namespace tag.
pub open spec fn spec_tag_byte(tag: KeyTag) -> u8 {
    match tag {
        KeyTag::ZeroContractAddress => 0u8,
        KeyTag::ContractAddress => 1u8,
    }
}

/// The byte value of a key category.
pub open spec fn spec_category_byte(category: KeyCategory) -> u8 {
    match category {
        KeyCategory::AccountInfo => 0u8,
        KeyCategory::AccountState => 1u8,
        KeyCategory::Storage => 2u8,
    }
}

/// The byte value of a namespace tag.
pub fn tag_byte(tag: KeyTag) -> (b: u8)
    ensures
        b == spec_tag_byte(tag),
{
    match tag {
        KeyTag::ZeroContractAddress => 0u8,
        KeyTag::ContractAddress => 1u8,
    }
}

/// The byte value of a key category.
pub fn category_byte(category: KeyCategory) -> (b: u8)
    ensures
        b == spec_category_byte(category),
{
    match category {
        KeyCategory::AccountInfo => 0u8,
        KeyCategory::AccountState => 1u8,
        KeyCategory::Storage => 2u8,
    }
}

/// The key of the account-information blob of a namespace.
pub open spec fn spec_info_key(tag: u8) -> Seq<u8> {
    seq![tag, 0u8]
}

/// The key of the persisted account state of a namespace.
pub open spec fn spec_state_key(tag: u8) -> Seq<u8> {
    seq![tag, 1u8]
}

/// The common prefix of every storage-slot key of a namespace.
pub open spec fn spec_storage_prefix(tag: u8) -> Seq<u8> {
    seq![tag, 2u8]
}

/// The key of one storage slot of a namespace.
pub open spec fn spec_storage_key(tag: u8, index: nat) -> Seq<u8> {
    spec_storage_prefix(tag) + bcs_u256_bytes(index)
}

/// What the self-describing codec makes of a 256-bit value.
pub uninterp spec fn bcs_u256_bytes(value: nat) -> Seq<u8>;

/// Relies on `bcs::to_bytes` over `alloy_primitives::U256`: the encoding is a
/// length byte followed by the value's 32 big-endian bytes, a function of the
/// numeric value alone. Writing this fixed-size value into a fresh buffer
/// cannot fail.
#[verifier::external_body]
fn bcs_serialize_word(word: &Word256) -> (r: Vec<u8>)
    ensures
        r@ == bcs_u256_bytes(word@),
{
    let value = alloy_primitives::U256::from_limbs([word.limb0, word.limb1, word.limb2, word.limb3]);
    bcs::to_bytes(&value).expect("a 256-bit word always serializes")
}

/// Relies on `bcs::from_bytes` over `alloy_primitives::U256`: decoding
/// succeeds exactly on canonically encoded values (bcs rejects non-canonical
/// and trailing input) and inverts the encoding.
#[verifier::external_body]
fn bcs_deserialize_word(bytes: &Vec<u8>) -> (r: Result<Word256, DbError>)
    ensures
        r matches Ok(word) ==> bytes@ == bcs_u256_bytes(word@),
        r matches Ok(word) ==> forall|v: nat|
            v < word_bound() && bytes@ == bcs_u256_bytes(v) ==> v == word@,
        (exists|v: nat| v < word_bound() && bytes@ == bcs_u256_bytes(v)) ==> r is Ok,
        r matches Err(e) ==> e == DbError::SerializationFailure,
{
    match bcs::from_bytes::<alloy_primitives::U256>(bytes.as_slice()) {
        Ok(value) => {
            let limbs = value.into_limbs();
            Ok(Word256 { limb0: limbs[0], limb1: limbs[1], limb2: limbs[2], limb3: limbs[3] })
        }
        Err(_) => Err(DbError::SerializationFailure),
    }
}

/// Builds the two-byte key `[tag, category]` of a non-storage entry.
pub fn make_category_key(val: u8, category: KeyCategory) -> (key: Vec<u8>)
    ensures
        key@ == seq![val, spec_category_byte(category)],
{
    let mut key: Vec<u8> = Vec::new();
    key.push(val);
    key.push(category_byte(category));
    assert(key@ =~= seq![val, spec_category_byte(category)]);
    key
}

/// Builds the key of one storage slot: the storage prefix of the namespace
/// followed by the encoded slot index.
pub fn get_uint256_key(val: u8, index: &Word256) -> (key: Vec<u8>)
    ensures
        key@ == spec_storage_key(val, index@),
{
    let mut key = make_category_key(val, KeyCategory::Storage);
    let mut tail = bcs_serialize_word(index);
    key.append(&mut tail);
    assert(key@ =~= spec_storage_key(val, index@));
    key
}

/// Encodes a slot value for storage; the same codec as the slot index.
pub fn encode_slot_value(value: &Word256) -> (bytes: Vec<u8>)
    ensures
        bytes@ == bcs_u256_bytes(value@),
{
    bcs_serialize_word(value)
}

/// Every storage key of a namespace starts with its storage prefix, and its
/// category byte distinguishes it from the info and state keys.
pub proof fn lemma_storage_key_shape(tag: u8, index: nat)
    ensures
        spec_storage_prefix(tag).is_prefix_of(spec_storage_key(tag, index)),
        spec_storage_key(tag, index) != spec_info_key(tag),
        spec_storage_key(tag, index) != spec_state_key(tag),
{
    assert(spec_storage_key(tag, index).subrange(0, 2) =~= spec_storage_prefix(tag));
    assert(spec_storage_key(tag, index)[1] == 2u8);
    if spec_storage_key(tag, index) == spec_info_key(tag) {
        assert(spec_storage_key(tag, index)[1] == spec_info_key(tag)[1]);
    }
    if spec_storage_key(tag, index) == spec_state_key(tag) {
        assert(spec_storage_key(tag, index)[1] == spec_state_key(tag)[1]);
    }
}

/// The value a stored byte string decodes to, if any.
pub open spec fn spec_decode_u256(bytes: Seq<u8>) -> Option<nat> {
    if exists|v: nat| v < word_bound() && bytes == bcs_u256_bytes(v) {
        Some(choose|v: nat| v < word_bound() && bytes == bcs_u256_bytes(v))
    } else {
        None
    }
}

/// Decodes a stored slot value.
pub fn decode_slot_value(bytes: &Vec<u8>) -> (r: Result<Word256, DbError>)
    ensures
        r matches Ok(word) ==> spec_decode_u256(bytes@) == Some(word@),
        r matches Err(e) ==> e == DbError::SerializationFailure && spec_decode_u256(bytes@) is None,
{
    match bcs_deserialize_word(bytes) {
        Ok(word) => {
            proof {
                lemma_word256_view_bounded(word);
                assert(word@ < word_bound() && bytes@ == bcs_u256_bytes(word@));
                let v = choose|v: nat| v < word_bound() && bytes@ == bcs_u256_bytes(v);
                assert(v == word@);
            }
            Ok(word)
        },
        Err(e) => {
            proof {
                if exists|v: nat| v < word_bound() && bytes@ == bcs_u256_bytes(v) {
                    assert(false);
                }
            }
            Err(e)
        },
    }
}

} // verus!
