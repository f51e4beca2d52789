use linera_db::addr::Address;
use linera_db::addr::bytes_equal;
use linera_db::addr::resolve_namespace_tag;
use linera_db::addr::zero_address_bytes;
use linera_db::account_state::AccountState;
use linera_db::account_state::decode_account_state;
use linera_db::account_state::encode_account_state;
use linera_db::db::LineraDatabase;
use linera_db::error::DbError;
use linera_db::keys::KeyCategory;
use linera_db::keys::KeyTag;
use linera_db::keys::category_byte;
use linera_db::keys::get_uint256_key;
use linera_db::keys::make_category_key;
use linera_db::keys::tag_byte;
use linera_db::plan::AccountDelta;
use linera_db::plan::SlotDelta;
use linera_db::plan::SlotDisposition;
use linera_db::plan::classify;
use linera_db::word256::Word256;
use linera_views::store::WritableKeyValueStore;

fn w(x: u64) -> Word256 {
    Word256::from_u64(x)
}

fn slot(index: u64, original: u64, present: u64) -> SlotDelta {
    SlotDelta { index: w(index), original: w(original), present: w(present) }
}

fn zero_address() -> Address {
    Address::from_bytes(vec![0u8; 20])
}

fn contract_address() -> Address {
    let created = alloy_primitives::Address::ZERO.create(0);
    Address::from_bytes(created.as_slice().to_vec())
}

fn other_address() -> Address {
    Address::from_bytes(vec![7u8; 20])
}

fn delta(created: bool, selfdestructed: bool, info: Vec<u8>, slots: Vec<SlotDelta>) -> AccountDelta {
    AccountDelta { touched: true, created, selfdestructed, info_bytes: info, slots }
}

fn fresh_db() -> LineraDatabase {
    LineraDatabase::new_in_memory(vec![0xAA, 0xBB, 0xCC])
}

#[test]
fn resolver_knows_only_the_two_reserved_addresses() {
    assert_eq!(resolve_namespace_tag(&zero_address()), Some(0u8));
    assert_eq!(resolve_namespace_tag(&contract_address()), Some(1u8));
    assert_eq!(resolve_namespace_tag(&other_address()), None);
    let db = fresh_db();
    assert_eq!(db.get_contract_address_key(&zero_address()), Some(0u8));
    assert_eq!(db.get_contract_address_key(&contract_address()), Some(1u8));
    assert_eq!(db.get_contract_address_key(&other_address()), None);
}

#[test]
fn tag_and_category_bytes_are_ordinal() {
    assert_eq!(tag_byte(KeyTag::ZeroContractAddress), 0);
    assert_eq!(tag_byte(KeyTag::ContractAddress), 1);
    assert_eq!(category_byte(KeyCategory::AccountInfo), 0);
    assert_eq!(category_byte(KeyCategory::AccountState), 1);
    assert_eq!(category_byte(KeyCategory::Storage), 2);
}

#[test]
fn storage_key_is_tag_category_and_bcs_index() {
    let key = get_uint256_key(1, &w(7));
    let mut expected = vec![1u8, 2u8];
    let index = alloy_primitives::U256::from(7u64);
    expected.extend_from_slice(&bcs::to_bytes(&index).unwrap());
    assert_eq!(key, expected);
    assert_eq!(make_category_key(0, KeyCategory::AccountInfo), vec![0u8, 0u8]);
    assert_eq!(make_category_key(1, KeyCategory::AccountState), vec![1u8, 1u8]);
}

#[test]
fn account_state_codec_round_trips() {
    for state in [AccountState::NotExisting, AccountState::StorageCleared, AccountState::Touched] {
        let bytes = encode_account_state(&state);
        assert_eq!(bytes.len(), 1);
        assert_eq!(decode_account_state(&bytes), Some(state));
    }
    assert_eq!(decode_account_state(&vec![3u8]), None);
    assert_eq!(decode_account_state(&vec![]), None);
    assert_eq!(decode_account_state(&vec![0u8, 0u8]), None);
}

#[test]
fn word256_zero_and_equality() {
    assert!(w(0).is_zero());
    assert!(!w(1).is_zero());
    assert!(Word256::zero().is_zero());
    assert!(w(5).same_value(&w(5)));
    assert!(!w(5).same_value(&w(6)));
    let big = Word256 { limb0: 0, limb1: 0, limb2: 0, limb3: 1 };
    assert!(!big.is_zero());
    assert!(!big.same_value(&w(1)));
}

#[test]
fn classification_covers_the_five_cases() {
    assert_eq!(classify(&w(0), &w(0)), SlotDisposition::ZeroNoOp);
    assert_eq!(classify(&w(0), &w(5)), SlotDisposition::SetValue);
    assert_eq!(classify(&w(5), &w(0)), SlotDisposition::Release);
    assert_eq!(classify(&w(5), &w(5)), SlotDisposition::Clean);
    assert_eq!(classify(&w(5), &w(7)), SlotDisposition::Reset);
}

#[test]
fn helper_byte_functions() {
    let zero = zero_address_bytes();
    assert_eq!(zero, vec![0u8; 20]);
    assert!(bytes_equal(&vec![1, 2, 3], &vec![1, 2, 3]));
    assert!(!bytes_equal(&vec![1, 2, 3], &vec![1, 2, 4]));
    assert!(!bytes_equal(&vec![1, 2], &vec![1, 2, 3]));
}

#[test]
fn block_hash_is_keccak_of_decimal_digits() {
    let db = fresh_db();
    let hash = db.block_hash(12345).unwrap();
    assert_eq!(hash, alloy_primitives::keccak256("12345".as_bytes()).to_vec());
    let hash0 = db.block_hash(0).unwrap();
    assert_eq!(hash0, alloy_primitives::keccak256("0".as_bytes()).to_vec());
    let hash100 = db.block_hash(100).unwrap();
    assert_eq!(hash100, alloy_primitives::keccak256("100".as_bytes()).to_vec());
    let hash_max = db.block_hash(u64::MAX).unwrap();
    assert_eq!(
        hash_max,
        alloy_primitives::keccak256(u64::MAX.to_string().as_bytes()).to_vec()
    );
}

#[test]
fn code_by_hash_is_unsupported() {
    let db = fresh_db();
    assert_eq!(db.code_by_hash(&vec![0u8; 32]), Err(DbError::UnsupportedAddress));
}

#[test]
fn basic_reads_stored_info_verbatim() {
    let mut db = fresh_db();
    assert_eq!(db.basic(&zero_address()), Ok(None));
    db.commit(vec![(zero_address(), delta(true, false, vec![1, 2, 3], vec![]))]);
    assert!(db.commit_error.is_none());
    assert_eq!(db.basic(&zero_address()), Ok(Some(vec![1, 2, 3])));
    assert_eq!(db.basic(&other_address()), Err(DbError::UnsupportedAddress));
}

#[test]
fn storage_of_unresolved_address_is_unsupported() {
    let mut db = fresh_db();
    assert_eq!(db.storage(&other_address(), &w(1)), Err(DbError::UnsupportedAddress));
}

#[test]
fn unwritten_slot_reads_zero_and_counts_cold() {
    let mut db = fresh_db();
    db.commit(vec![(zero_address(), delta(true, false, vec![1], vec![]))]);
    assert!(db.commit_error.is_none());
    let value = db.storage(&zero_address(), &w(42)).unwrap();
    assert!(value.is_zero());
    assert_eq!(db.storage_stats.map.len(), 1);
    assert_eq!(db.storage_stats.number_warm_read, 0);
}

#[test]
fn commit_counts_each_disposition() {
    let mut db = fresh_db();
    let slots = vec![
        slot(1, 0, 0),
        slot(2, 0, 5),
        slot(3, 5, 0),
        slot(4, 5, 5),
        slot(5, 5, 7),
    ];
    db.commit(vec![(zero_address(), delta(true, false, vec![1], slots))]);
    assert!(db.commit_error.is_none());
    assert_eq!(db.storage_stats.number_set, 1);
    assert_eq!(db.storage_stats.number_release, 1);
    assert_eq!(db.storage_stats.number_reset, 1);
    assert_eq!(db.storage(&zero_address(), &w(2)).unwrap(), w(5));
    assert_eq!(db.storage(&zero_address(), &w(3)).unwrap(), w(0));
    assert_eq!(db.storage(&zero_address(), &w(5)).unwrap(), w(7));
}

#[test]
fn cache_serves_warm_reads_and_keeps_stale_values() {
    let mut db = fresh_db();
    db.commit(vec![(zero_address(), delta(true, false, vec![1], vec![slot(9, 0, 5)]))]);
    assert!(db.commit_error.is_none());
    db.reset_storage_stats();
    // First read after reset is cold: fetched from the store.
    assert_eq!(db.storage(&zero_address(), &w(9)).unwrap(), w(5));
    assert_eq!(db.storage_stats.map.len(), 1);
    assert_eq!(db.storage_stats.number_warm_read, 0);
    // An immediately repeated read is warm and does not touch the store.
    assert_eq!(db.storage(&zero_address(), &w(9)).unwrap(), w(5));
    assert_eq!(db.storage_stats.map.len(), 1);
    assert_eq!(db.storage_stats.number_warm_read, 1);
    // A write does not invalidate the cache: the stale value stays until the
    // session is reset.
    db.commit(vec![(zero_address(), delta(false, false, vec![1], vec![slot(9, 5, 8)]))]);
    assert!(db.commit_error.is_none());
    assert_eq!(db.storage(&zero_address(), &w(9)).unwrap(), w(5));
    assert_eq!(db.storage_stats.number_warm_read, 2);
    db.reset_storage_stats();
    assert_eq!(db.storage(&zero_address(), &w(9)).unwrap(), w(8));
    assert_eq!(db.storage_stats.map.len(), 1);
    assert_eq!(db.storage_stats.number_warm_read, 0);
}

#[test]
fn commit_of_untouched_unresolved_account_changes_nothing() {
    let mut db = fresh_db();
    let untouched = AccountDelta {
        touched: false,
        created: false,
        selfdestructed: false,
        info_bytes: vec![5],
        slots: vec![slot(1, 0, 9)],
    };
    db.commit(vec![(other_address(), untouched)]);
    assert!(db.commit_error.is_none());
    assert_eq!(db.basic(&zero_address()), Ok(None));
    assert_eq!(db.storage_stats.number_set, 0);
}

#[test]
fn balance_transfer_for_external_account_poisons() {
    let mut db = fresh_db();
    db.commit(vec![(other_address(), delta(false, false, vec![], vec![]))]);
    assert_eq!(db.commit_error, Some(DbError::BalanceUnsupported));
    assert_eq!(db.basic(&zero_address()), Err(DbError::PoisonedState));
}

#[test]
fn unsupported_address_with_storage_poisons_every_operation() {
    let mut db = fresh_db();
    db.commit(vec![(other_address(), delta(false, false, vec![], vec![slot(1, 0, 9)]))]);
    assert_eq!(db.commit_error, Some(DbError::UnsupportedAddress));
    // Every subsequent operation fails with the poisoned state, with no
    // partial successes.
    assert_eq!(db.basic(&zero_address()), Err(DbError::PoisonedState));
    assert_eq!(db.storage(&zero_address(), &w(1)), Err(DbError::PoisonedState));
    assert_eq!(db.block_hash(1), Err(DbError::PoisonedState));
    assert_eq!(db.code_by_hash(&vec![0u8; 32]), Err(DbError::PoisonedState));
    // A later, well-formed commit is rejected too and the poison stays.
    db.commit(vec![(zero_address(), delta(true, false, vec![1], vec![]))]);
    assert_eq!(db.commit_error, Some(DbError::UnsupportedAddress));
    assert_eq!(db.basic(&zero_address()), Err(DbError::PoisonedState));
}

#[test]
fn commit_of_unchanged_delta_is_idempotent() {
    let mut db = fresh_db();
    db.commit(vec![(zero_address(), delta(true, false, vec![1], vec![slot(4, 0, 8)]))]);
    assert!(db.commit_error.is_none());
    db.reset_storage_stats();
    let unchanged = || delta(false, false, vec![1], vec![slot(4, 8, 8)]);
    db.commit(vec![(zero_address(), unchanged())]);
    db.commit(vec![(zero_address(), unchanged())]);
    assert!(db.commit_error.is_none());
    assert_eq!(db.storage_stats.number_set, 0);
    assert_eq!(db.storage_stats.number_reset, 0);
    assert_eq!(db.storage_stats.number_release, 0);
    assert_eq!(db.storage(&zero_address(), &w(4)).unwrap(), w(8));
    assert_eq!(db.basic(&zero_address()), Ok(Some(vec![1])));
}

#[test]
fn selfdestruct_erases_storage_and_writes_defaults() {
    let mut db = fresh_db();
    db.commit(vec![(zero_address(), delta(true, false, vec![1, 2], vec![slot(3, 0, 9)]))]);
    assert!(db.commit_error.is_none());
    assert_eq!(db.storage(&zero_address(), &w(3)).unwrap(), w(9));
    db.commit(vec![(zero_address(), delta(false, true, vec![1, 2], vec![]))]);
    assert!(db.commit_error.is_none());
    // The account information reads as the default blob the adapter was
    // created with, and every slot reads as zero in a fresh session.
    assert_eq!(db.basic(&zero_address()), Ok(Some(vec![0xAA, 0xBB, 0xCC])));
    db.reset_storage_stats();
    assert_eq!(db.storage(&zero_address(), &w(3)).unwrap(), w(0));
    assert_eq!(db.storage(&zero_address(), &w(7)).unwrap(), w(0));
}

#[test]
fn creation_clears_residual_storage() {
    let mut db = fresh_db();
    db.commit(vec![(zero_address(), delta(true, false, vec![1], vec![slot(6, 0, 5)]))]);
    assert!(db.commit_error.is_none());
    // A second creation wipes the residual slot even without a delta for it.
    db.commit(vec![(zero_address(), delta(true, false, vec![1], vec![]))]);
    assert!(db.commit_error.is_none());
    db.reset_storage_stats();
    assert_eq!(db.storage(&zero_address(), &w(6)).unwrap(), w(0));
}

#[test]
fn deployed_contract_key_value_operation_sequence() {
    // Deploy a contract at the reserved zero-nonce address, then apply the
    // operation sequence delete(7), insert(7,5), insert(7,5), insert(7,7),
    // insert-twice(7,5 then 6); slot 7 must end at 6 with cumulative counts
    // SET=1, RESET=2, RELEASE=0.
    let mut db = fresh_db();
    let contract = contract_address();
    db.commit(vec![(contract.clone(), delta(true, false, vec![4, 4], vec![]))]);
    assert!(db.commit_error.is_none());
    db.reset_storage_stats();
    let steps = vec![
        slot(7, 0, 0),  // delete while already absent: no-op
        slot(7, 0, 5),  // insert 5: SET
        slot(7, 5, 5),  // insert 5 again: CLEAN no-op
        slot(7, 5, 7),  // insert 7: RESET
        slot(7, 7, 6),  // insert 5 then 6 inside one execution: RESET
    ];
    for step in steps {
        db.commit(vec![(contract.clone(), delta(false, false, vec![4, 4], vec![step]))]);
        assert!(db.commit_error.is_none());
    }
    assert_eq!(db.storage_stats.number_set, 1);
    assert_eq!(db.storage_stats.number_reset, 2);
    assert_eq!(db.storage_stats.number_release, 0);
    assert_eq!(db.storage(&contract, &w(7)).unwrap(), w(6));
    // Delete and read back zero, as the tail of the original sequence does.
    db.commit(vec![(contract.clone(), delta(false, false, vec![4, 4], vec![slot(7, 6, 0)]))]);
    assert!(db.commit_error.is_none());
    assert_eq!(db.storage_stats.number_release, 1);
    db.reset_storage_stats();
    assert_eq!(db.storage(&contract, &w(7)).unwrap(), w(0));
    assert_eq!(db.storage(&contract, &w(5)).unwrap(), w(0));
}

#[test]
fn corrupt_stored_bytes_fail_with_serialization_failure() {
    let store = linera_views::memory::MemoryStore::new_for_testing();
    // Plant garbage under the slot-7 key and the state key of namespace 0,
    // bypassing the adapter's codecs.
    let mut batch = linera_views::batch::Batch::new();
    batch.put_key_value_bytes(get_uint256_key(0, &w(7)), vec![0xFF]);
    batch.put_key_value_bytes(vec![0u8, 1u8], vec![9u8]);
    futures::executor::block_on(store.write_batch(batch)).unwrap();
    let mut db = LineraDatabase::new(store, vec![1]);
    assert_eq!(db.storage(&zero_address(), &w(7)), Err(DbError::SerializationFailure));
    // A surviving account's commit reads the persisted state and must fail
    // on the corrupt bytes, poisoning the adapter.
    db.commit(vec![(zero_address(), delta(false, false, vec![1], vec![]))]);
    assert_eq!(db.commit_error, Some(DbError::SerializationFailure));
}

#[test]
fn adapter_over_external_store_sees_prior_contents() {
    let store = linera_views::memory::MemoryStore::new_for_testing();
    let mut first = LineraDatabase::new(store.clone(), vec![1]);
    first.commit(vec![(zero_address(), delta(true, false, vec![9], vec![slot(2, 0, 3)]))]);
    assert!(first.commit_error.is_none());
    // A second adapter over the same backing store reads what the first
    // committed, without any session cache in the way.
    let mut second = LineraDatabase::new(store, vec![1]);
    assert_eq!(second.basic(&zero_address()), Ok(Some(vec![9])));
    assert_eq!(second.storage(&zero_address(), &w(2)).unwrap(), w(3));
}
