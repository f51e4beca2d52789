//! Laws of the commit pipeline, proved against the commit model that the
//! adapter's contracts are stated over.

use vstd::prelude::*;
use crate::account_state::AccountState;
use crate::account_state::lemma_state_codec_round_trip;
use crate::account_state::spec_state_bytes;
use crate::addr::spec_resolve;
use crate::db::spec_slot_at;
use crate::error::DbError;
use crate::keys::bcs_u256_bytes;
use crate::keys::lemma_storage_key_shape;
use crate::keys::spec_info_key;
use crate::keys::spec_state_key;
use crate::keys::spec_storage_key;
use crate::keys::spec_storage_prefix;
use crate::plan::AccountDeltaView;
use crate::plan::AccountPlan;
use crate::plan::CommitPlan;
use crate::plan::SlotDeltaView;
use crate::plan::SlotDisposition;
use crate::plan::spec_account_plan;
use crate::plan::spec_classify;
use crate::plan::spec_commit_plan;
use crate::plan::spec_next_state;
use crate::plan::spec_persisted_state;
use crate::plan::spec_release_count;
use crate::plan::spec_reset_count;
use crate::plan::spec_set_count;
use crate::plan::spec_slot_ops;
use crate::plan::spec_slots_ops;
use crate::stats::StorageStats;
use crate::store::StoreOp;
use crate::store::apply_op;
use crate::store::apply_ops;
use crate::store::keys_with_prefix;
use crate::store::lemma_apply_ops_concat;
use crate::store::lemma_apply_ops_empty;
use crate::store::lemma_apply_ops_step;
use crate::store::op_delete_prefix;
use crate::store::op_put;
use crate::word256::Word256;

verus! {

/// The plan of a one-account change set is exactly that account's
/// contribution.
proof fn lemma_single_account_plan(
    contents: Map<Seq<u8>, Seq<u8>>,
    address: Seq<u8>,
    delta: AccountDeltaView,
    default_info: Seq<u8>,
)
    ensures
        ({
            let plan = spec_commit_plan(contents, seq![(address, delta)], default_info);
            match spec_account_plan(contents, address, delta, default_info) {
                AccountPlan::Reject { error } => plan == (CommitPlan::Rejected { error }),
                AccountPlan::Contribute { ops, sets, resets, releases, balance } => plan
                    matches CommitPlan::Built {
                    ops: plan_ops,
                    sets: plan_sets,
                    resets: plan_resets,
                    releases: plan_releases,
                    balance: plan_balance,
                } && plan_ops =~= ops && plan_sets == sets && plan_resets == resets
                    && plan_releases == releases && plan_balance == balance,
            }
        }),
{
    let changes = seq![(address, delta)];
    let empty_changes = Seq::<(Seq<u8>, AccountDeltaView)>::empty();
    assert(spec_commit_plan(contents, empty_changes, default_info) == (CommitPlan::Built {
        ops: Seq::<StoreOp>::empty(),
        sets: 0nat,
        resets: 0nat,
        releases: 0nat,
        balance: false,
    }));
    assert(changes.drop_last() =~= empty_changes);
    assert(changes.last() == (address, delta));
}

/// A commit whose every account resolves to no namespace tag and carries an
/// empty storage delta plans no store operation at all: applying it leaves
/// the store contents untouched.
pub proof fn lemma_unresolved_empty_deltas_mutate_nothing(
    contents: Map<Seq<u8>, Seq<u8>>,
    changes: Seq<(Seq<u8>, AccountDeltaView)>,
    default_info: Seq<u8>,
)
    requires
        forall|i: int|
            0 <= i < changes.len() ==> spec_resolve(#[trigger] changes[i].0) is None && changes[
                i
            ].1.slots.len() == 0,
    ensures
        (spec_commit_plan(contents, changes, default_info) matches CommitPlan::Built {
            ops,
            sets,
            resets,
            releases,
            balance,
        } && ops =~= Seq::<StoreOp>::empty() && sets == 0 && resets == 0 && releases == 0
            && apply_ops(contents, ops) == contents),
    decreases changes.len(),
{
    lemma_apply_ops_empty(contents);
    if changes.len() > 0 {
        assert(changes[changes.len() - 1] == changes.last());
        lemma_unresolved_empty_deltas_mutate_nothing(contents, changes.drop_last(), default_info);
    }
}

/// A storage delta in which every slot's present value equals its original
/// contributes no operation and no count.
pub proof fn lemma_unchanged_slots_plan_nothing(tag: u8, slots: Seq<SlotDeltaView>)
    requires
        forall|k: int|
            0 <= k < slots.len() ==> (#[trigger] slots[k]).original == slots[k].present,
    ensures
        spec_slots_ops(tag, slots) =~= Seq::<StoreOp>::empty(),
        spec_set_count(slots) == 0,
        spec_reset_count(slots) == 0,
        spec_release_count(slots) == 0,
    decreases slots.len(),
{
    if slots.len() > 0 {
        assert(slots[slots.len() - 1] == slots.last());
        lemma_unchanged_slots_plan_nothing(tag, slots.drop_last());
    }
}

/// Committing an all-unchanged delta of a surviving, pre-existing account is
/// idempotent: it plans no slot operation and no counter increment, and a
/// second commit of the same delta leaves the store contents exactly as the
/// first left them.
pub proof fn lemma_commit_unchanged_idempotent(
    contents: Map<Seq<u8>, Seq<u8>>,
    address: Seq<u8>,
    tag: u8,
    delta: AccountDeltaView,
    default_info: Seq<u8>,
)
    requires
        spec_resolve(address) == Some(tag),
        delta.touched,
        !delta.created,
        !delta.selfdestructed,
        spec_persisted_state(contents, tag) is Some,
        forall|k: int|
            0 <= k < delta.slots.len() ==> (#[trigger] delta.slots[k]).original == delta.slots[
                k
            ].present,
    ensures
        ({
            let changes = seq![(address, delta)];
            spec_commit_plan(contents, changes, default_info) matches CommitPlan::Built {
                ops,
                sets,
                resets,
                releases,
                balance,
            } && sets == 0 && resets == 0 && releases == 0 && balance == false && ({
                let once = apply_ops(contents, ops);
                spec_commit_plan(once, changes, default_info) matches CommitPlan::Built {
                    ops: ops_again,
                    ..
                } && apply_ops(once, ops_again) == once
            })
        }),
{
    let changes = seq![(address, delta)];
    lemma_unchanged_slots_plan_nothing(tag, delta.slots);
    let prior = spec_persisted_state(contents, tag)->Some_0;
    let written = spec_next_state(prior, false);
    let head = seq![
        op_put(spec_info_key(tag), delta.info_bytes),
        op_put(spec_state_key(tag), spec_state_bytes(written)),
    ];
    lemma_single_account_plan(contents, address, delta, default_info);
    let plan = spec_commit_plan(contents, changes, default_info);
    assert(plan is Built);
    let ops = plan->Built_ops;
    assert(ops =~= head);
    let once = apply_ops(contents, ops);
    lemma_apply_ops_step(contents, ops);
    lemma_apply_ops_step(contents, ops.drop_last());
    lemma_apply_ops_empty(contents);
    assert(ops.drop_last() =~= seq![op_put(spec_info_key(tag), delta.info_bytes)]);
    assert(ops.drop_last().drop_last() =~= Seq::<StoreOp>::empty());
    assert(once == contents.insert(spec_info_key(tag), delta.info_bytes).insert(
        spec_state_key(tag),
        spec_state_bytes(written),
    ));
    lemma_state_codec_round_trip(written);
    assert(spec_persisted_state(once, tag) == Some(written));
    // The second commit reads the state the first wrote: `StorageCleared`
    // stays `StorageCleared`, `Touched` stays `Touched`.
    assert(spec_next_state(written, false) == written);
    lemma_single_account_plan(once, address, delta, default_info);
    let plan_again = spec_commit_plan(once, changes, default_info);
    assert(plan_again is Built);
    let ops_again = plan_again->Built_ops;
    assert(ops_again =~= ops);
    let twice = apply_ops(once, ops_again);
    lemma_apply_ops_step(once, ops_again);
    lemma_apply_ops_step(once, ops_again.drop_last());
    lemma_apply_ops_empty(once);
    assert(ops_again.drop_last() =~= seq![op_put(spec_info_key(tag), delta.info_bytes)]);
    assert(ops_again.drop_last().drop_last() =~= Seq::<StoreOp>::empty());
    assert(twice == once.insert(spec_info_key(tag), delta.info_bytes).insert(
        spec_state_key(tag),
        spec_state_bytes(written),
    ));
    assert(twice =~= once);
}

/// The slot classification is exhaustive: every pair of an original and a
/// present value falls in exactly one of the five dispositions.
pub proof fn lemma_classification_exhaustive(original: nat, present: nat)
    ensures
        (spec_classify(original, present) == SlotDisposition::ZeroNoOp <==> original == 0
            && present == 0),
        (spec_classify(original, present) == SlotDisposition::SetValue <==> original == 0
            && present != 0),
        (spec_classify(original, present) == SlotDisposition::Release <==> original != 0
            && present == 0),
        (spec_classify(original, present) == SlotDisposition::Clean <==> original != 0 && present
            != 0 && present == original),
        (spec_classify(original, present) == SlotDisposition::Reset <==> original != 0 && present
            != 0 && present != original),
{
}

/// One classified slot leaves the store in the documented end state: the
/// encoded present value written for `SetValue` and `Reset`, the key deleted
/// for `Release`, and the contents untouched for the two no-op cases.
pub proof fn lemma_slot_end_state(contents: Map<Seq<u8>, Seq<u8>>, tag: u8, slot: SlotDeltaView)
    ensures
        ({
            let after = apply_ops(contents, spec_slot_ops(tag, slot));
            let key = spec_storage_key(tag, slot.index);
            let disposition = spec_classify(slot.original, slot.present);
            &&& ((disposition == SlotDisposition::SetValue || disposition
                == SlotDisposition::Reset) ==> after.contains_key(key) && after[key]
                == bcs_u256_bytes(slot.present))
            &&& (disposition == SlotDisposition::Release ==> !after.contains_key(key))
            &&& ((disposition == SlotDisposition::ZeroNoOp || disposition
                == SlotDisposition::Clean) ==> after == contents)
        }),
{
    let ops = spec_slot_ops(tag, slot);
    lemma_apply_ops_empty(contents);
    if ops.len() > 0 {
        lemma_apply_ops_step(contents, ops);
        assert(ops.drop_last() =~= Seq::<StoreOp>::empty());
    }
}

/// Slot operations of a namespace never touch a two-byte key of another
/// category: the info and state entries survive a storage delta unchanged.
proof fn lemma_slots_ops_preserve_category_keys(
    contents: Map<Seq<u8>, Seq<u8>>,
    tag: u8,
    slots: Seq<SlotDeltaView>,
    key: Seq<u8>,
)
    requires
        key.len() == 2,
        key[1] != 2u8,
    ensures
        apply_ops(contents, spec_slots_ops(tag, slots)).contains_key(key)
            <==> contents.contains_key(key),
        contents.contains_key(key) ==> apply_ops(contents, spec_slots_ops(tag, slots))[key]
            == contents[key],
    decreases slots.len(),
{
    lemma_apply_ops_empty(contents);
    if slots.len() > 0 {
        lemma_slots_ops_preserve_category_keys(contents, tag, slots.drop_last(), key);
        let rest = spec_slots_ops(tag, slots.drop_last());
        let last_ops = spec_slot_ops(tag, slots.last());
        let before = apply_ops(contents, rest);
        lemma_apply_ops_concat(contents, rest, last_ops);
        lemma_apply_ops_empty(before);
        if last_ops.len() > 0 {
            lemma_apply_ops_step(before, last_ops);
            assert(last_ops.drop_last() =~= Seq::<StoreOp>::empty());
            let slot_key = spec_storage_key(tag, slots.last().index);
            assert(slot_key[1] == 2u8);
            if slot_key == key {
                assert(slot_key[1] == key[1]);
            }
            assert(slot_key != key);
        }
    }
}

/// A whole commit of one surviving, pre-existing account with one slot
/// leaves that slot's key in the documented end state: the encoded present
/// value written for `SetValue` and `Reset`, the key deleted for `Release`,
/// and the key untouched for the two no-op cases.
pub proof fn lemma_commit_single_slot_end_state(
    contents: Map<Seq<u8>, Seq<u8>>,
    address: Seq<u8>,
    tag: u8,
    delta: AccountDeltaView,
    default_info: Seq<u8>,
)
    requires
        spec_resolve(address) == Some(tag),
        delta.touched,
        !delta.created,
        !delta.selfdestructed,
        spec_persisted_state(contents, tag) is Some,
        delta.slots.len() == 1,
    ensures
        (spec_commit_plan(contents, seq![(address, delta)], default_info)
            matches CommitPlan::Built { ops, .. } && ({
            let after = apply_ops(contents, ops);
            let slot = delta.slots[0];
            let key = spec_storage_key(tag, slot.index);
            let disposition = spec_classify(slot.original, slot.present);
            &&& ((disposition == SlotDisposition::SetValue || disposition
                == SlotDisposition::Reset) ==> after.contains_key(key) && after[key]
                == bcs_u256_bytes(slot.present))
            &&& (disposition == SlotDisposition::Release ==> !after.contains_key(key))
            &&& ((disposition == SlotDisposition::ZeroNoOp || disposition
                == SlotDisposition::Clean) ==> (after.contains_key(key)
                <==> contents.contains_key(key)) && (contents.contains_key(key) ==> after[key]
                == contents[key]))
        })),
{
    let changes = seq![(address, delta)];
    let prior = spec_persisted_state(contents, tag)->Some_0;
    let written = spec_next_state(prior, false);
    let head = seq![
        op_put(spec_info_key(tag), delta.info_bytes),
        op_put(spec_state_key(tag), spec_state_bytes(written)),
    ];
    let slot = delta.slots[0];
    let tail = spec_slots_ops(tag, delta.slots);
    lemma_single_account_plan(contents, address, delta, default_info);
    let plan = spec_commit_plan(contents, changes, default_info);
    assert(plan is Built);
    let ops = plan->Built_ops;
    assert(delta.slots.drop_last() =~= Seq::<SlotDeltaView>::empty());
    assert(delta.slots.last() == slot);
    assert(spec_slots_ops(tag, Seq::<SlotDeltaView>::empty()) =~= Seq::<StoreOp>::empty());
    assert(tail =~= spec_slot_ops(tag, slot));
    assert(ops =~= head + tail);
    lemma_apply_ops_concat(contents, head, tail);
    lemma_apply_ops_step(contents, head);
    lemma_apply_ops_step(contents, head.drop_last());
    lemma_apply_ops_empty(contents);
    assert(head.drop_last() =~= seq![op_put(spec_info_key(tag), delta.info_bytes)]);
    assert(head.drop_last().drop_last() =~= Seq::<StoreOp>::empty());
    let mid = apply_ops(contents, head);
    let key = spec_storage_key(tag, slot.index);
    lemma_storage_key_shape(tag, slot.index);
    // The two category puts do not touch the slot key.
    assert(mid.contains_key(key) <==> contents.contains_key(key));
    assert(contents.contains_key(key) ==> mid[key] == contents[key]);
    lemma_slot_end_state(mid, tag, slot);
    assert(apply_ops(mid, tail) == apply_ops(mid, spec_slot_ops(tag, slot)));
    assert(apply_ops(contents, ops) == apply_ops(mid, tail));
}

/// After a commit that creates an account and writes no slot, every storage
/// slot of its namespace reads as zero: residual storage of an earlier
/// incarnation is wiped by the creation.
pub proof fn lemma_commit_created_account_clears_storage(
    contents: Map<Seq<u8>, Seq<u8>>,
    address: Seq<u8>,
    tag: u8,
    delta: AccountDeltaView,
    default_info: Seq<u8>,
)
    requires
        spec_resolve(address) == Some(tag),
        delta.touched,
        delta.created,
        !delta.selfdestructed,
        delta.slots.len() == 0,
    ensures
        (spec_commit_plan(contents, seq![(address, delta)], default_info)
            matches CommitPlan::Built { ops, .. } && ({
            let after = apply_ops(contents, ops);
            forall|index: nat| spec_slot_at(after, tag, index) == Some(0nat)
        })),
{
    let changes = seq![(address, delta)];
    let head = seq![
        op_put(spec_info_key(tag), delta.info_bytes),
        op_delete_prefix(spec_storage_prefix(tag)),
        op_put(spec_state_key(tag), spec_state_bytes(AccountState::StorageCleared)),
    ];
    lemma_single_account_plan(contents, address, delta, default_info);
    let plan = spec_commit_plan(contents, changes, default_info);
    assert(plan is Built);
    let ops = plan->Built_ops;
    assert(spec_slots_ops(tag, delta.slots) =~= Seq::<StoreOp>::empty());
    assert(ops =~= head);
    lemma_apply_ops_step(contents, ops);
    lemma_apply_ops_step(contents, ops.drop_last());
    lemma_apply_ops_step(contents, ops.drop_last().drop_last());
    lemma_apply_ops_empty(contents);
    assert(ops.drop_last() =~= seq![
        op_put(spec_info_key(tag), delta.info_bytes),
        op_delete_prefix(spec_storage_prefix(tag)),
    ]);
    assert(ops.drop_last().drop_last() =~= seq![op_put(spec_info_key(tag), delta.info_bytes)]);
    assert(ops.drop_last().drop_last().drop_last() =~= Seq::<StoreOp>::empty());
    let after = apply_ops(contents, ops);
    let wiped = contents.insert(spec_info_key(tag), delta.info_bytes).remove_keys(
        keys_with_prefix(spec_storage_prefix(tag)),
    );
    assert(after == wiped.insert(
        spec_state_key(tag),
        spec_state_bytes(AccountState::StorageCleared),
    ));
    assert forall|index: nat| spec_slot_at(after, tag, index) == Some(0nat) by {
        lemma_storage_key_shape(tag, index);
        let key = spec_storage_key(tag, index);
        assert(keys_with_prefix(spec_storage_prefix(tag)).contains(key));
        assert(!wiped.contains_key(key));
        assert(!after.contains_key(key));
    }
}

/// After a commit that creates an account, the persisted account state of
/// its namespace reads as `StorageCleared`.
pub proof fn lemma_commit_created_account(
    contents: Map<Seq<u8>, Seq<u8>>,
    address: Seq<u8>,
    tag: u8,
    delta: AccountDeltaView,
    default_info: Seq<u8>,
)
    requires
        spec_resolve(address) == Some(tag),
        delta.touched,
        delta.created,
        !delta.selfdestructed,
    ensures
        (spec_commit_plan(contents, seq![(address, delta)], default_info)
            matches CommitPlan::Built { ops, .. } && spec_persisted_state(
            apply_ops(contents, ops),
            tag,
        ) == Some(AccountState::StorageCleared)),
{
    let changes = seq![(address, delta)];
    let head = seq![
        op_put(spec_info_key(tag), delta.info_bytes),
        op_delete_prefix(spec_storage_prefix(tag)),
        op_put(spec_state_key(tag), spec_state_bytes(AccountState::StorageCleared)),
    ];
    let tail = spec_slots_ops(tag, delta.slots);
    lemma_single_account_plan(contents, address, delta, default_info);
    let plan = spec_commit_plan(contents, changes, default_info);
    assert(plan is Built);
    let ops = plan->Built_ops;
    assert(ops =~= head + tail);
    lemma_apply_ops_concat(contents, head, tail);
    lemma_apply_ops_step(contents, head);
    lemma_apply_ops_step(contents, head.drop_last());
    lemma_apply_ops_step(contents, head.drop_last().drop_last());
    lemma_apply_ops_empty(contents);
    assert(head.drop_last() =~= seq![
        op_put(spec_info_key(tag), delta.info_bytes),
        op_delete_prefix(spec_storage_prefix(tag)),
    ]);
    assert(head.drop_last().drop_last() =~= seq![op_put(spec_info_key(tag), delta.info_bytes)]);
    assert(head.drop_last().drop_last().drop_last() =~= Seq::<StoreOp>::empty());
    let mid = apply_ops(contents, head);
    assert(mid.contains_key(spec_state_key(tag)) && mid[spec_state_key(tag)] == spec_state_bytes(
        AccountState::StorageCleared,
    ));
    lemma_slots_ops_preserve_category_keys(mid, tag, delta.slots, spec_state_key(tag));
    lemma_state_codec_round_trip(AccountState::StorageCleared);
    assert(apply_ops(contents, ops) == apply_ops(mid, tail));
}

/// After a commit that selfdestructs an account, its account information
/// reads as the default blob, its persisted state reads as `NotExisting`,
/// and every storage slot of its namespace reads as zero.
pub proof fn lemma_commit_selfdestructed_account(
    contents: Map<Seq<u8>, Seq<u8>>,
    address: Seq<u8>,
    tag: u8,
    delta: AccountDeltaView,
    default_info: Seq<u8>,
)
    requires
        spec_resolve(address) == Some(tag),
        delta.touched,
        delta.selfdestructed,
    ensures
        (spec_commit_plan(contents, seq![(address, delta)], default_info)
            matches CommitPlan::Built { ops, .. } && ({
            let after = apply_ops(contents, ops);
            &&& after.contains_key(spec_info_key(tag)) && after[spec_info_key(tag)]
                == default_info
            &&& spec_persisted_state(after, tag) == Some(AccountState::NotExisting)
            &&& forall|index: nat| spec_slot_at(after, tag, index) == Some(0nat)
        })),
{
    let changes = seq![(address, delta)];
    let head = seq![
        op_delete_prefix(spec_storage_prefix(tag)),
        op_put(spec_info_key(tag), default_info),
        op_put(spec_state_key(tag), spec_state_bytes(AccountState::NotExisting)),
    ];
    lemma_single_account_plan(contents, address, delta, default_info);
    let plan = spec_commit_plan(contents, changes, default_info);
    assert(plan is Built);
    let ops = plan->Built_ops;
    assert(ops =~= head);
    lemma_apply_ops_step(contents, ops);
    lemma_apply_ops_step(contents, ops.drop_last());
    lemma_apply_ops_step(contents, ops.drop_last().drop_last());
    lemma_apply_ops_empty(contents);
    assert(ops.drop_last() =~= seq![
        op_delete_prefix(spec_storage_prefix(tag)),
        op_put(spec_info_key(tag), default_info),
    ]);
    assert(ops.drop_last().drop_last() =~= seq![op_delete_prefix(spec_storage_prefix(tag))]);
    assert(ops.drop_last().drop_last().drop_last() =~= Seq::<StoreOp>::empty());
    let wiped = contents.remove_keys(keys_with_prefix(spec_storage_prefix(tag)));
    let after = apply_ops(contents, ops);
    assert(after == wiped.insert(spec_info_key(tag), default_info).insert(
        spec_state_key(tag),
        spec_state_bytes(AccountState::NotExisting),
    ));
    lemma_state_codec_round_trip(AccountState::NotExisting);
    assert(spec_info_key(tag) != spec_state_key(tag)) by {
        assert(spec_info_key(tag)[1] != spec_state_key(tag)[1]);
    }
    assert forall|index: nat| spec_slot_at(after, tag, index) == Some(0nat) by {
        lemma_storage_key_shape(tag, index);
        let key = spec_storage_key(tag, index);
        assert(keys_with_prefix(spec_storage_prefix(tag)).contains(key));
        assert(!wiped.contains_key(key));
        assert(!after.contains_key(key));
    }
}

/// After a session reset the cache is empty, so the first read of any slot
/// is cold: it must be served by the store and is then cached. Once the slot
/// is cached, an immediately repeated read is warm: the cache holds the slot
/// and serves the same value without touching the store.
pub proof fn lemma_first_read_cold_then_warm(stats: StorageStats, index: nat, value: nat)
    requires
        stats.is_reset(),
    ensures
        !stats.cache().contains_key(index),
        stats.cache().insert(index, value).contains_key(index),
        stats.cache().insert(index, value)[index] == value,
{
    assert(stats.map@ =~= Seq::<(Word256, Word256)>::empty());
}

/// A touched account that resolves to no namespace tag but carries a
/// non-empty storage delta rejects the commit with `UnsupportedAddress`.
pub proof fn lemma_unsupported_address_rejects(
    contents: Map<Seq<u8>, Seq<u8>>,
    address: Seq<u8>,
    delta: AccountDeltaView,
    default_info: Seq<u8>,
)
    requires
        delta.touched,
        spec_resolve(address) is None,
        delta.slots.len() > 0,
    ensures
        spec_account_plan(contents, address, delta, default_info) == (AccountPlan::Reject {
            error: DbError::UnsupportedAddress,
        }),
        spec_commit_plan(contents, seq![(address, delta)], default_info)
            == (CommitPlan::Rejected { error: DbError::UnsupportedAddress }),
{
    lemma_single_account_plan(contents, address, delta, default_info);
}

} // verus!
