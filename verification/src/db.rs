//! The persistence adapter: point reads and the atomic commit pipeline over
//! the backing key-value store.

use vstd::prelude::*;
use crate::account_state::AccountState;
use crate::account_state::decode_account_state;
use crate::account_state::encode_account_state;
use crate::addr::Address;
use crate::addr::resolve_namespace_tag;
use crate::addr::spec_resolve;
use crate::error::DbError;
use crate::hash::decimal_bytes;
use crate::hash::keccak256;
use crate::hash::keccak256_bytes;
use crate::hash::spec_decimal_bytes;
use crate::keys::KeyCategory;
use crate::keys::get_uint256_key;
use crate::keys::make_category_key;
use crate::keys::spec_decode_u256;
use crate::keys::spec_info_key;
use crate::keys::spec_state_key;
use crate::keys::encode_slot_value;
use crate::keys::spec_storage_key;
use crate::keys::spec_storage_prefix;
use crate::plan::AccountDelta;
use crate::plan::AccountPlan;
use crate::plan::CommitPlan;
use crate::plan::SlotDisposition;
use crate::plan::classify;
use crate::plan::lemma_plan_rejection_persists;
use crate::plan::spec_account_plan;
use crate::plan::spec_changes_view;
use crate::plan::spec_commit_plan;
use crate::plan::spec_persisted_state;
use crate::plan::spec_release_count;
use crate::plan::spec_reset_count;
use crate::plan::spec_set_count;
use crate::plan::spec_slots_ops;
use crate::stats::StorageStats;
use crate::stats::lemma_sat_add_assoc;
use crate::stats::lemma_sat_add_fold;
use crate::stats::sat_add64;
use crate::account_state::spec_state_bytes;
use crate::store::apply_ops;
use crate::store::batch_delete_key;
use crate::store::batch_delete_key_prefix;
use crate::store::batch_new;
use crate::store::batch_ops;
use crate::store::batch_put_key_value_bytes;
use crate::store::empty_contents;
use crate::store::op_delete_prefix;
use crate::store::op_put;
use crate::store::store_write_batch;
use crate::store::new_memory_store;
use crate::store::store_map;
use crate::store::store_read_value_bytes;
use crate::word256::Word256;

verus! {

/// The value a slot holds in the store: zero when its key is absent, the
/// decoded value when present, `None` when the stored bytes are corrupt.
pub open spec fn spec_slot_at(contents: Map<Seq<u8>, Seq<u8>>, tag: u8, index: nat) -> Option<
    nat,
> {
    if !contents.contains_key(spec_storage_key(tag, index)) {
        Some(0nat)
    } else {
        spec_decode_u256(contents[spec_storage_key(tag, index)])
    }
}

/// The adapter between the execution engine and the backing store.
///
/// It caches slot reads within one session, classifies per-slot changes on
/// commit, applies them as one atomic batch, and poisons itself on a commit
/// failure, since the engine-facing commit signature cannot return an error.
pub struct LineraDatabase {
    /// The deferred commit error: set once, poisoning every later operation.
    pub commit_error: Option<DbError>,
    /// Per-session statistics and the slot cache.
    pub storage_stats: StorageStats,
    /// The backing store.
    pub db: linera_views::memory::MemoryStore,
    /// The account-information bytes written by a selfdestruct, the
    /// serialized form of the engine's default account information.
    pub default_info: Vec<u8>,
}

impl LineraDatabase {
    /// Well-formed: the session cache holds each slot index at most once.
    pub open spec fn wf(&self) -> bool {
        self.storage_stats.wf()
    }

    /// The contents of the backing store.
    pub open spec fn store_view(&self) -> Map<Seq<u8>, Seq<u8>> {
        store_map(self.db)
    }

    /// Whether a prior commit failure poisoned the adapter.
    pub open spec fn is_poisoned(&self) -> bool {
        self.commit_error is Some
    }

    /// Wraps a backing store; `default_info` is stored verbatim as the
    /// account information of selfdestructed accounts.
    pub fn new(db: linera_views::memory::MemoryStore, default_info: Vec<u8>) -> (adapter:
        LineraDatabase)
        ensures
            adapter.wf(),
            !adapter.is_poisoned(),
            adapter.store_view() == store_map(db),
            adapter.storage_stats.is_reset(),
            adapter.default_info == default_info,
    {
        LineraDatabase { commit_error: None, storage_stats: StorageStats::new(), db, default_info }
    }

    /// A fresh adapter over an empty in-memory store.
    pub fn new_in_memory(default_info: Vec<u8>) -> (adapter: LineraDatabase)
        ensures
            adapter.wf(),
            !adapter.is_poisoned(),
            adapter.store_view() == empty_contents(),
            adapter.storage_stats.is_reset(),
            adapter.default_info == default_info,
    {
        Self::new(new_memory_store(), default_info)
    }

    /// Maps an account address to its namespace tag byte; `None` for an
    /// externally owned account, which has no key space.
    pub fn get_contract_address_key(&self, address: &Address) -> (r: Option<u8>)
        ensures
            r == spec_resolve(address@),
    {
        resolve_namespace_tag(address)
    }

    /// Fails with `PoisonedState` if a prior commit failure was recorded.
    pub fn throw_error(&self) -> (r: Result<(), DbError>)
        ensures
            r is Ok <==> !self.is_poisoned(),
            r matches Err(e) ==> e == DbError::PoisonedState,
    {
        match &self.commit_error {
            Option::Some(_) => Err(DbError::PoisonedState),
            Option::None => Ok(()),
        }
    }

    /// Clears the session statistics and the slot cache; never done by
    /// internal logic, only by this explicit call.
    pub fn reset_storage_stats(&mut self)
        ensures
            final(self).wf(),
            final(self).storage_stats.is_reset(),
            final(self).commit_error == old(self).commit_error,
            final(self).db == old(self).db,
            final(self).default_info == old(self).default_info,
    {
        self.storage_stats.reset();
    }

    /// The engine's bytecode lookup, which this adapter does not support.
    pub fn code_by_hash(&self, _code_hash: &Vec<u8>) -> (r: Result<Vec<u8>, DbError>)
        ensures
            r is Err,
            r matches Err(e) ==> e == (if self.is_poisoned() {
                DbError::PoisonedState
            } else {
                DbError::UnsupportedAddress
            }),
    {
        match self.throw_error() {
            Err(e) => Err(e),
            Ok(()) => Err(DbError::UnsupportedAddress),
        }
    }

    /// The hash of a block number: the keccak-256 digest of the number's
    /// decimal digits.
    pub fn block_hash(&self, number: u64) -> (r: Result<Vec<u8>, DbError>)
        ensures
            self.is_poisoned() ==> (r matches Err(e) && e == DbError::PoisonedState),
            !self.is_poisoned() ==> (r matches Ok(hash) && hash@ == keccak256_bytes(
                spec_decimal_bytes(number as nat),
            ) && hash@.len() == 32),
    {
        match self.throw_error() {
            Err(e) => {
                return Err(e);
            },
            Ok(()) => {},
        }
        let digits = decimal_bytes(number);
        Ok(keccak256(&digits))
    }

    /// Reads the account-information blob of an address, verbatim as stored;
    /// `Ok(None)` when the account has none.
    pub fn basic(&self, address: &Address) -> (r: Result<Option<Vec<u8>>, DbError>)
        ensures
            self.is_poisoned() ==> (r matches Err(e) && e == DbError::PoisonedState),
            !self.is_poisoned() ==> match spec_resolve(address@) {
                Option::None => (r matches Err(e) && e == DbError::UnsupportedAddress),
                Option::Some(tag) => {
                    &&& (r matches Ok(found) ==> match found {
                        Some(bytes) => self.store_view().contains_key(spec_info_key(tag))
                            && bytes@ == self.store_view()[spec_info_key(tag)],
                        None => !self.store_view().contains_key(spec_info_key(tag)),
                    })
                    &&& (r matches Err(e) ==> e == DbError::StoreFailure)
                },
            },
    {
        match self.throw_error() {
            Err(e) => {
                return Err(e);
            },
            Ok(()) => {},
        }
        let tag = match resolve_namespace_tag(address) {
            Some(tag) => tag,
            None => {
                return Err(DbError::UnsupportedAddress);
            },
        };
        let key = make_category_key(tag, KeyCategory::AccountInfo);
        store_read_value_bytes(&self.db, &key)
    }

    /// Reads one storage slot of an address: served from the session cache
    /// when warm, fetched from the backing store and cached when cold. An
    /// absent slot reads as zero. A cached value is returned as cached, even
    /// if a later commit changed the slot: within one session, read after
    /// write is resolved only at the store.
    pub fn storage(&mut self, address: &Address, index: &Word256) -> (r: Result<
        Word256,
        DbError,
    >)
        requires
            old(self).wf(),
        ensures
            final(self).wf(),
            final(self).commit_error == old(self).commit_error,
            final(self).db == old(self).db,
            final(self).default_info == old(self).default_info,
            final(self).storage_stats.number_reset == old(self).storage_stats.number_reset,
            final(self).storage_stats.number_set == old(self).storage_stats.number_set,
            final(self).storage_stats.number_release == old(self).storage_stats.number_release,
            old(self).is_poisoned() ==> (r matches Err(e) && e == DbError::PoisonedState
                && *final(self) == *old(self)),
            !old(self).is_poisoned() ==> match spec_resolve(address@) {
                Option::None => (r matches Err(e) && e == DbError::UnsupportedAddress
                    && *final(self) == *old(self)),
                Option::Some(tag) => {
                    &&& (old(self).storage_stats.cache().contains_key(index@) ==> {
                        &&& r matches Ok(value) && value@ == old(self).storage_stats.cache()[index@]
                        &&& final(self).storage_stats.map@ == old(self).storage_stats.map@
                        &&& final(self).storage_stats.number_warm_read == sat_add64(old(self).storage_stats.number_warm_read, 1)
                    })
                    &&& (!old(self).storage_stats.cache().contains_key(index@) ==> {
                        &&& final(self).storage_stats.number_warm_read == old(self).storage_stats.number_warm_read
                        &&& (r matches Ok(value) ==> {
                            &&& spec_slot_at(old(self).store_view(), tag, index@) == Some(value@)
                            &&& final(self).storage_stats.cache() == old(self).storage_stats.cache().insert(index@, value@)
                            &&& final(self).storage_stats.map@.len() == old(self).storage_stats.map@.len() + 1
                        })
                        &&& (r is Err ==> *final(self) == *old(self))
                        &&& (r matches Err(e) ==> e == DbError::StoreFailure || e == DbError::SerializationFailure)
                        &&& (r matches Err(e) && e == DbError::SerializationFailure
                            ==> spec_slot_at(old(self).store_view(), tag, index@) is None)
                        &&& (spec_slot_at(old(self).store_view(), tag, index@) is None ==> r is Err)
                    })
                },
            },
    {
        match self.throw_error() {
            Err(e) => {
                return Err(e);
            },
            Ok(()) => {},
        }
        let tag = match resolve_namespace_tag(address) {
            Some(tag) => tag,
            None => {
                return Err(DbError::UnsupportedAddress);
            },
        };
        match self.storage_stats.lookup(index) {
            Some(value) => {
                self.storage_stats.number_warm_read =
                    self.storage_stats.number_warm_read.saturating_add(1);
                Ok(value)
            },
            None => {
                let key = get_uint256_key(tag, index);
                let read = match store_read_value_bytes(&self.db, &key) {
                    Ok(read) => read,
                    Err(e) => {
                        return Err(e);
                    },
                };
                let value = match read {
                    Some(bytes) => match crate::keys::decode_slot_value(&bytes) {
                        Ok(value) => value,
                        Err(e) => {
                            return Err(e);
                        },
                    },
                    None => Word256::zero(),
                };
                self.storage_stats.insert_cold(*index, value);
                Ok(value)
            },
        }
    }

    /// Classifies and folds every touched account's delta into one batch,
    /// applies it atomically, and tallies the per-disposition counts. The
    /// commit's effect is exactly the plan over the store contents at entry.
    pub fn commit_with_error(&mut self, changes: Vec<(Address, AccountDelta)>) -> (r: Result<
        (),
        DbError,
    >)
        requires
            old(self).wf(),
        ensures
            final(self).wf(),
            final(self).commit_error == old(self).commit_error,
            final(self).default_info == old(self).default_info,
            final(self).storage_stats.map@ == old(self).storage_stats.map@,
            final(self).storage_stats.number_warm_read == old(self).storage_stats.number_warm_read,
            ({
                let plan = spec_commit_plan(
                    old(self).store_view(),
                    spec_changes_view(changes@),
                    old(self).default_info@,
                );
                &&& (r is Ok ==> (plan matches CommitPlan::Built {
                    ops,
                    sets,
                    resets,
                    releases,
                    balance,
                } && balance == false && final(self).store_view() == apply_ops(
                    old(self).store_view(),
                    ops,
                ) && final(self).storage_stats.number_set == sat_add64(
                    old(self).storage_stats.number_set,
                    sets,
                ) && final(self).storage_stats.number_reset == sat_add64(
                    old(self).storage_stats.number_reset,
                    resets,
                ) && final(self).storage_stats.number_release == sat_add64(
                    old(self).storage_stats.number_release,
                    releases,
                )))
                &&& (r is Err ==> final(self).storage_stats == old(self).storage_stats)
                &&& (r matches Err(e) ==> e == DbError::UnsupportedAddress
                    || e == DbError::SerializationFailure || e == DbError::StoreFailure
                    || e == DbError::BalanceUnsupported)
                &&& (r matches Err(e) ==> (e != DbError::BalanceUnsupported ==> final(self).store_view() == old(self).store_view()))
                &&& (r matches Err(e) ==> ((e == DbError::UnsupportedAddress
                    || e == DbError::SerializationFailure) ==> plan == (CommitPlan::Rejected {
                    error: e,
                })))
                &&& (r matches Err(e) ==> (e == DbError::BalanceUnsupported ==> (plan
                    matches CommitPlan::Built { ops, sets, resets, releases, balance }
                    && balance == true && final(self).store_view() == apply_ops(
                    old(self).store_view(),
                    ops,
                ))))
                &&& (plan is Rejected ==> r is Err)
            }),
    {
        let ghost contents = store_map(self.db);
        let ghost cv = spec_changes_view(changes@);
        let ghost dinfo = self.default_info@;
        let mut batch = batch_new();
        let mut sets: u64 = 0;
        let mut resets: u64 = 0;
        let mut releases: u64 = 0;
        let mut balance = false;
        let mut i: usize = 0;
        while i < changes.len()
            invariant
                *self == *old(self),
                old(self).wf(),
                0 <= i <= changes@.len(),
                contents == store_map(self.db),
                cv == spec_changes_view(changes@),
                dinfo == self.default_info@,
                cv.len() == changes@.len(),
                (spec_commit_plan(contents, cv.subrange(0, i as int), dinfo)
                    matches CommitPlan::Built {
                    ops,
                    sets: plan_sets,
                    resets: plan_resets,
                    releases: plan_releases,
                    balance: plan_balance,
                } && ops == batch_ops(batch) && sets == sat_add64(0u64, plan_sets) && resets
                    == sat_add64(0u64, plan_resets) && releases == sat_add64(0u64, plan_releases)
                    && balance == plan_balance),
            decreases changes@.len() - i,
        {
            proof {
                assert(cv[i as int] == (changes@[i as int].0@, changes@[i as int].1@));
            }
            let result = plan_account(
                &self.db,
                batch,
                sets,
                resets,
                releases,
                balance,
                &changes[i].0,
                &changes[i].1,
                &self.default_info,
            );
            match result {
                Ok(out) => {
                    batch = out.0;
                    sets = out.1;
                    resets = out.2;
                    releases = out.3;
                    balance = out.4;
                },
                Err(e) => {
                    proof {
                        assert(cv.subrange(0, i + 1).drop_last() =~= cv.subrange(0, i as int));
                        assert(cv.subrange(0, i + 1).last() == cv[i as int]);
                        if e != DbError::StoreFailure {
                            assert(spec_commit_plan(contents, cv.subrange(0, i + 1), dinfo)
                                == (CommitPlan::Rejected { error: e }));
                            lemma_plan_rejection_persists(contents, cv, dinfo, i + 1);
                        }
                    }
                    return Err(e);
                },
            }
            proof {
                assert(cv.subrange(0, i + 1).drop_last() =~= cv.subrange(0, i as int));
                assert(cv.subrange(0, i + 1).last() == cv[i as int]);
                let prefix_plan = spec_commit_plan(contents, cv.subrange(0, i as int), dinfo);
                let account_plan = spec_account_plan(
                    contents,
                    cv[i as int].0,
                    cv[i as int].1,
                    dinfo,
                );
                match prefix_plan {
                    CommitPlan::Built {
                        sets: plan_sets,
                        resets: plan_resets,
                        releases: plan_releases,
                        ..
                    } => {
                        match account_plan {
                            AccountPlan::Contribute {
                                sets: account_sets,
                                resets: account_resets,
                                releases: account_releases,
                                ..
                            } => {
                                lemma_sat_add_assoc(0u64, plan_sets, account_sets);
                                lemma_sat_add_assoc(0u64, plan_resets, account_resets);
                                lemma_sat_add_assoc(0u64, plan_releases, account_releases);
                            },
                            AccountPlan::Reject { .. } => {},
                        }
                    },
                    CommitPlan::Rejected { .. } => {},
                }
            }
            i += 1;
        }
        proof {
            assert(cv.subrange(0, changes@.len() as int) =~= cv);
        }
        match store_write_batch(&mut self.db, batch) {
            Ok(()) => {},
            Err(e) => {
                return Err(e);
            },
        }
        if balance {
            return Err(DbError::BalanceUnsupported);
        }
        proof {
            match spec_commit_plan(contents, cv, dinfo) {
                CommitPlan::Built {
                    sets: plan_sets,
                    resets: plan_resets,
                    releases: plan_releases,
                    ..
                } => {
                    lemma_sat_add_fold(old(self).storage_stats.number_set, plan_sets);
                    lemma_sat_add_fold(old(self).storage_stats.number_reset, plan_resets);
                    lemma_sat_add_fold(old(self).storage_stats.number_release, plan_releases);
                },
                CommitPlan::Rejected { .. } => {},
            }
        }
        self.storage_stats.number_set = self.storage_stats.number_set.saturating_add(sets);
        self.storage_stats.number_reset = self.storage_stats.number_reset.saturating_add(resets);
        self.storage_stats.number_release = self.storage_stats.number_release.saturating_add(
            releases,
        );
        Ok(())
    }

    /// The engine-facing commit. Its signature cannot return an error, so a
    /// failure is recorded into the deferred-error slot instead, poisoning
    /// the adapter; a poisoned adapter commits nothing.
    pub fn commit(&mut self, changes: Vec<(Address, AccountDelta)>)
        requires
            old(self).wf(),
        ensures
            final(self).wf(),
            final(self).default_info == old(self).default_info,
            old(self).is_poisoned() ==> *final(self) == *old(self),
            !old(self).is_poisoned() ==> ({
                let plan = spec_commit_plan(
                    old(self).store_view(),
                    spec_changes_view(changes@),
                    old(self).default_info@,
                );
                &&& final(self).storage_stats.map@ == old(self).storage_stats.map@
                &&& final(self).storage_stats.number_warm_read == old(self).storage_stats.number_warm_read
                &&& (final(self).commit_error is None ==> (plan matches CommitPlan::Built {
                    ops,
                    sets,
                    resets,
                    releases,
                    balance,
                } && balance == false && final(self).store_view() == apply_ops(
                    old(self).store_view(),
                    ops,
                ) && final(self).storage_stats.number_set == sat_add64(
                    old(self).storage_stats.number_set,
                    sets,
                ) && final(self).storage_stats.number_reset == sat_add64(
                    old(self).storage_stats.number_reset,
                    resets,
                ) && final(self).storage_stats.number_release == sat_add64(
                    old(self).storage_stats.number_release,
                    releases,
                )))
                &&& (final(self).commit_error matches Some(e) ==> ((e
                    == DbError::UnsupportedAddress || e == DbError::SerializationFailure
                    || e == DbError::StoreFailure || e == DbError::BalanceUnsupported)
                    && final(self).storage_stats.number_set == old(self).storage_stats.number_set
                    && final(self).storage_stats.number_reset == old(self).storage_stats.number_reset && final(self).storage_stats.number_release == old(self).storage_stats.number_release))
                &&& (final(self).commit_error matches Some(e) && e != DbError::BalanceUnsupported
                    ==> final(self).store_view() == old(self).store_view())
                &&& (final(self).commit_error matches Some(e) ==> ((e
                    == DbError::UnsupportedAddress || e == DbError::SerializationFailure)
                    ==> plan == (CommitPlan::Rejected { error: e })))
                &&& (final(self).commit_error matches Some(e) ==> (e
                    == DbError::BalanceUnsupported ==> (plan matches CommitPlan::Built {
                    ops,
                    balance: plan_balance,
                    ..
                } && plan_balance == true && final(self).store_view() == apply_ops(
                    old(self).store_view(),
                    ops,
                ))))
                &&& (plan is Rejected ==> final(self).commit_error is Some)
            }),
    {
        match self.throw_error() {
            Err(_) => {
                return;
            },
            Ok(()) => {},
        }
        let result = self.commit_with_error(changes);
        if let Err(error) = result {
            self.commit_error = Some(error);
        }
    }
}

/// Copies a byte string.
fn copy_bytes(bytes: &Vec<u8>) -> (r: Vec<u8>)
    ensures
        r@ == bytes@,
{
    vstd::slice::slice_to_vec(bytes.as_slice())
}

/// Folds one account's contribution into the batch and the counters: the
/// body of the commit loop. On an error the partially built batch is
/// abandoned by the caller, never applied.
fn plan_account(
    store: &linera_views::memory::MemoryStore,
    batch: linera_views::batch::Batch,
    sets: u64,
    resets: u64,
    releases: u64,
    balance: bool,
    address: &Address,
    delta: &AccountDelta,
    default_info: &Vec<u8>,
) -> (r: Result<(linera_views::batch::Batch, u64, u64, u64, bool), DbError>)
    ensures
        (r matches Ok(out) ==> (spec_account_plan(
            store_map(*store),
            address@,
            delta@,
            default_info@,
        ) matches AccountPlan::Contribute {
            ops,
            sets: plan_sets,
            resets: plan_resets,
            releases: plan_releases,
            balance: plan_balance,
        } && batch_ops(out.0) == batch_ops(batch) + ops && out.1 == sat_add64(sets, plan_sets)
            && out.2 == sat_add64(resets, plan_resets) && out.3 == sat_add64(
            releases,
            plan_releases,
        ) && out.4 == (balance || plan_balance))),
        (r matches Err(e) ==> e == DbError::StoreFailure || spec_account_plan(
            store_map(*store),
            address@,
            delta@,
            default_info@,
        ) == (AccountPlan::Reject { error: e })),
        (spec_account_plan(store_map(*store), address@, delta@, default_info@) is Reject ==> r
            is Err),
{
    if !delta.touched {
        return Ok((batch, sets, resets, releases, balance));
    }
    let val = match resolve_namespace_tag(address) {
        Some(val) => val,
        None => {
            if delta.slots.len() > 0 {
                return Err(DbError::UnsupportedAddress);
            }
            return Ok((batch, sets, resets, releases, true));
        },
    };
    let mut batch = batch;
    let ghost batch0 = batch_ops(batch);
    if delta.selfdestructed {
        let key_prefix = make_category_key(val, KeyCategory::Storage);
        let key_info = make_category_key(val, KeyCategory::AccountInfo);
        let key_state = make_category_key(val, KeyCategory::AccountState);
        batch_delete_key_prefix(&mut batch, key_prefix);
        batch_put_key_value_bytes(&mut batch, key_info, copy_bytes(default_info));
        batch_put_key_value_bytes(
            &mut batch,
            key_state,
            encode_account_state(&AccountState::NotExisting),
        );
        proof {
            assert(batch_ops(batch) =~= batch0 + seq![
                op_delete_prefix(spec_storage_prefix(val)),
                op_put(spec_info_key(val), default_info@),
                op_put(spec_state_key(val), spec_state_bytes(AccountState::NotExisting)),
            ]);
        }
        return Ok((batch, sets, resets, releases, balance));
    }
    let key_info = make_category_key(val, KeyCategory::AccountInfo);
    batch_put_key_value_bytes(&mut batch, key_info, copy_bytes(&delta.info_bytes));
    let account_state = if delta.created {
        let key_prefix = make_category_key(val, KeyCategory::Storage);
        batch_delete_key_prefix(&mut batch, key_prefix);
        AccountState::StorageCleared
    } else {
        let key_state = make_category_key(val, KeyCategory::AccountState);
        let read = match store_read_value_bytes(store, &key_state) {
            Ok(read) => read,
            Err(e) => {
                return Err(e);
            },
        };
        let prior = match read {
            Some(bytes) => match decode_account_state(&bytes) {
                Some(prior) => prior,
                None => {
                    return Err(DbError::SerializationFailure);
                },
            },
            None => AccountState::default(),
        };
        proof {
            assert(spec_persisted_state(store_map(*store), val) == Some(prior));
        }
        if prior.is_storage_cleared() {
            AccountState::StorageCleared
        } else {
            AccountState::Touched
        }
    };
    let key_state = make_category_key(val, KeyCategory::AccountState);
    batch_put_key_value_bytes(&mut batch, key_state, encode_account_state(&account_state));
    let ghost head_ops = batch_ops(batch);
    proof {
        if delta@.created {
            assert(head_ops =~= batch0 + seq![
                op_put(spec_info_key(val), delta.info_bytes@),
                op_delete_prefix(spec_storage_prefix(val)),
                op_put(spec_state_key(val), spec_state_bytes(AccountState::StorageCleared)),
            ]);
        } else {
            assert(head_ops =~= batch0 + seq![
                op_put(spec_info_key(val), delta.info_bytes@),
                op_put(spec_state_key(val), spec_state_bytes(account_state)),
            ]);
        }
    }
    let mut new_sets = sets;
    let mut new_resets = resets;
    let mut new_releases = releases;
    let ghost slots_v = delta@.slots;
    let mut j: usize = 0;
    while j < delta.slots.len()
        invariant
            0 <= j <= delta.slots@.len(),
            slots_v == delta@.slots,
            slots_v.len() == delta.slots@.len(),
            batch_ops(batch) == head_ops + spec_slots_ops(val, slots_v.subrange(0, j as int)),
            new_sets == sat_add64(sets, spec_set_count(slots_v.subrange(0, j as int))),
            new_resets == sat_add64(resets, spec_reset_count(slots_v.subrange(0, j as int))),
            new_releases == sat_add64(releases, spec_release_count(slots_v.subrange(0, j as int))),
        decreases delta.slots@.len() - j,
    {
        let slot = &delta.slots[j];
        proof {
            assert(slots_v[j as int] == delta.slots@[j as int]@);
        }
        let disposition = classify(&slot.original, &slot.present);
        let key = get_uint256_key(val, &slot.index);
        match disposition {
            SlotDisposition::SetValue => {
                let value_bytes = encode_slot_value(&slot.present);
                batch_put_key_value_bytes(&mut batch, key, value_bytes);
                new_sets = new_sets.saturating_add(1);
            },
            SlotDisposition::Reset => {
                let value_bytes = encode_slot_value(&slot.present);
                batch_put_key_value_bytes(&mut batch, key, value_bytes);
                new_resets = new_resets.saturating_add(1);
            },
            SlotDisposition::Release => {
                batch_delete_key(&mut batch, key);
                new_releases = new_releases.saturating_add(1);
            },
            SlotDisposition::ZeroNoOp => {},
            SlotDisposition::Clean => {},
        }
        proof {
            assert(slots_v.subrange(0, j + 1).drop_last() =~= slots_v.subrange(0, j as int));
            assert(slots_v.subrange(0, j + 1).last() == slots_v[j as int]);
            lemma_sat_add_assoc(sets, spec_set_count(slots_v.subrange(0, j as int)), 1);
            lemma_sat_add_assoc(resets, spec_reset_count(slots_v.subrange(0, j as int)), 1);
            lemma_sat_add_assoc(releases, spec_release_count(slots_v.subrange(0, j as int)), 1);
            assert(batch_ops(batch) =~= head_ops + spec_slots_ops(
                val,
                slots_v.subrange(0, j + 1),
            ));
        }
        j += 1;
    }
    proof {
        assert(slots_v.subrange(0, slots_v.len() as int) =~= slots_v);
    }
    Ok((batch, new_sets, new_resets, new_releases, balance))
}

} // verus!
