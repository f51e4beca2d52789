//! The lifecycle tag persisted per contract account.

use vstd::prelude::*;

verus! {

/// Lifecycle of a contract account, as persisted under its state key.
///
/// The tag decides whether a slot whose reported original value is zero may
/// be trusted without consulting the store: after `StorageCleared` every
/// unwritten slot is known zero, after `Touched` it is not.
#[derive(Clone, Copy, Debug, PartialEq, Eq, Structural)]
pub enum AccountState {
    /// The account was never created, or was erased by a selfdestruct.
    NotExisting,
    /// The account was created and its residual storage wiped; unwritten
    /// slots read as zero.
    StorageCleared,
    /// The account exists and its persisted slots may hold any value.
    Touched,
}

impl Default for AccountState {
    /// An absent persisted state reads as `NotExisting`.
    fn default() -> (s: AccountState)
        ensures
            s == AccountState::NotExisting,
    {
        AccountState::NotExisting
    }
}

impl AccountState {
    /// Whether the tag is `StorageCleared`.
    pub fn is_storage_cleared(&self) -> (b: bool)
        ensures
            b == (*self is StorageCleared),
    {
        matches!(self, AccountState::StorageCleared)
    }
}

/// The single byte under which a state tag is persisted.
pub open spec fn spec_state_byte(s: AccountState) -> u8 {
    match s {
        AccountState::NotExisting => 0u8,
        AccountState::StorageCleared => 1u8,
        AccountState::Touched => 2u8,
    }
}

/// The persisted form of a state tag: exactly its one byte.
pub open spec fn spec_state_bytes(s: AccountState) -> Seq<u8> {
    seq![spec_state_byte(s)]
}

/// The decoding of persisted state bytes; `None` on corrupt bytes.
pub open spec fn spec_decode_state(b: Seq<u8>) -> Option<AccountState> {
    if b.len() == 1 {
        if b[0] == 0u8 {
            Some(AccountState::NotExisting)
        } else if b[0] == 1u8 {
            Some(AccountState::StorageCleared)
        } else if b[0] == 2u8 {
            Some(AccountState::Touched)
        } else {
            None
        }
    } else {
        None
    }
}

/// Decoding inverts encoding on every state tag.
pub proof fn lemma_state_codec_round_trip(s: AccountState)
    ensures
        spec_decode_state(spec_state_bytes(s)) == Some(s),
{
}

/// Encodes a state tag into its persisted bytes.
pub fn encode_account_state(s: &AccountState) -> (r: Vec<u8>)
    ensures
        r@ == spec_state_bytes(*s),
{
    let byte: u8 = match s {
        AccountState::NotExisting => 0u8,
        AccountState::StorageCleared => 1u8,
        AccountState::Touched => 2u8,
    };
    let mut bytes: Vec<u8> = Vec::new();
    bytes.push(byte);
    assert(bytes@ =~= spec_state_bytes(*s));
    bytes
}

/// Decodes persisted bytes back into a state tag; `None` on corrupt bytes.
pub fn decode_account_state(bytes: &Vec<u8>) -> (r: Option<AccountState>)
    ensures
        r == spec_decode_state(bytes@),
{
    if bytes.len() == 1 {
        let byte = bytes[0];
        if byte == 0u8 {
            Some(AccountState::NotExisting)
        } else if byte == 1u8 {
            Some(AccountState::StorageCleared)
        } else if byte == 2u8 {
            Some(AccountState::Touched)
        } else {
            None
        }
    } else {
        None
    }
}

} // verus!
