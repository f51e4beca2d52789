//! The commit model: what one commit call writes, as a function of the store
//! contents at its start and the submitted changes.

use vstd::prelude::*;
use crate::account_state::AccountState;
use crate::account_state::spec_decode_state;
use crate::account_state::spec_state_bytes;
use crate::addr::Address;
use crate::addr::spec_resolve;
use crate::error::DbError;
use crate::keys::bcs_u256_bytes;
use crate::keys::spec_info_key;
use crate::keys::spec_state_key;
use crate::keys::spec_storage_key;
use crate::keys::spec_storage_prefix;
use crate::store::StoreOp;
use crate::store::op_delete;
use crate::store::op_delete_prefix;
use crate::store::op_put;
use crate::word256::Word256;

verus! {

/// One slot of a storage delta: the slot index, the value the engine reports
/// as persisted before the execution, and the present value after it.
pub struct SlotDelta {
    pub index: Word256,
    pub original: Word256,
    pub present: Word256,
}

/// The numeric view of a slot delta.
pub struct SlotDeltaView {
    pub index: nat,
    pub original: nat,
    pub present: nat,
}

impl View for SlotDelta {
    type V = SlotDeltaView;

    open spec fn view(&self) -> SlotDeltaView {
        SlotDeltaView { index: self.index@, original: self.original@, present: self.present@ }
    }
}

/// What one execution did to one account.
pub struct AccountDelta {
    /// Whether the account was touched at all; untouched deltas are skipped.
    pub touched: bool,
    /// Whether the account was created by this execution.
    pub created: bool,
    /// Whether the account selfdestructed in this execution.
    pub selfdestructed: bool,
    /// The serialized account information, stored verbatim.
    pub info_bytes: Vec<u8>,
    /// The storage delta.
    pub slots: Vec<SlotDelta>,
}

/// The view of an account delta.
pub struct AccountDeltaView {
    pub touched: bool,
    pub created: bool,
    pub selfdestructed: bool,
    pub info_bytes: Seq<u8>,
    pub slots: Seq<SlotDeltaView>,
}

impl View for AccountDelta {
    type V = AccountDeltaView;

    open spec fn view(&self) -> AccountDeltaView {
        AccountDeltaView {
            touched: self.touched,
            created: self.created,
            selfdestructed: self.selfdestructed,
            info_bytes: self.info_bytes@,
            slots: self.slots@.map_values(|slot: SlotDelta| slot@),
        }
    }
}

/// The view of a whole change set, in submission order.
pub open spec fn spec_changes_view(changes: Seq<(Address, AccountDelta)>) -> Seq<
    (Seq<u8>, AccountDeltaView),
> {
    changes.map_values(|pair: (Address, AccountDelta)| (pair.0@, pair.1@))
}

/// The disposition of one slot delta: the five cases of the classification
/// table over (original, present).
#[derive(Clone, Copy, Debug, PartialEq, Eq, Structural)]
pub enum SlotDisposition {
    /// Original zero, present zero: nothing to do.
    ZeroNoOp,
    /// Original zero, present nonzero: write the slot.
    SetValue,
    /// Original nonzero, present zero: delete the slot.
    Release,
    /// Both nonzero and equal: nothing to do.
    Clean,
    /// Both nonzero and different: rewrite the slot.
    Reset,
}

/// The classification table over the original and present value.
pub open spec fn spec_classify(original: nat, present: nat) -> SlotDisposition {
    if original == 0 {
        if present != 0 {
            SlotDisposition::SetValue
        } else {
            SlotDisposition::ZeroNoOp
        }
    } else {
        if present == 0 {
            SlotDisposition::Release
        } else if present == original {
            SlotDisposition::Clean
        } else {
            SlotDisposition::Reset
        }
    }
}

/// Classifies one slot delta.
pub fn classify(original: &Word256, present: &Word256) -> (d: SlotDisposition)
    ensures
        d == spec_classify(original@, present@),
{
    if original.is_zero() {
        if !present.is_zero() {
            SlotDisposition::SetValue
        } else {
            SlotDisposition::ZeroNoOp
        }
    } else {
        if present.is_zero() {
            SlotDisposition::Release
        } else if present.same_value(original) {
            SlotDisposition::Clean
        } else {
            SlotDisposition::Reset
        }
    }
}

/// The batch operations one slot delta contributes.
pub open spec fn spec_slot_ops(tag: u8, slot: SlotDeltaView) -> Seq<StoreOp> {
    let disposition = spec_classify(slot.original, slot.present);
    if disposition == SlotDisposition::SetValue || disposition == SlotDisposition::Reset {
        seq![op_put(spec_storage_key(tag, slot.index), bcs_u256_bytes(slot.present))]
    } else if disposition == SlotDisposition::Release {
        seq![op_delete(spec_storage_key(tag, slot.index))]
    } else {
        Seq::empty()
    }
}

/// The batch operations of a whole storage delta, in slot order.
pub open spec fn spec_slots_ops(tag: u8, slots: Seq<SlotDeltaView>) -> Seq<StoreOp>
    decreases slots.len(),
{
    if slots.len() == 0 {
        Seq::empty()
    } else {
        spec_slots_ops(tag, slots.drop_last()) + spec_slot_ops(tag, slots.last())
    }
}

/// How many slots of a delta classify as `Set`.
pub open spec fn spec_set_count(slots: Seq<SlotDeltaView>) -> nat
    decreases slots.len(),
{
    if slots.len() == 0 {
        0
    } else {
        spec_set_count(slots.drop_last()) + if spec_classify(
            slots.last().original,
            slots.last().present,
        ) == SlotDisposition::SetValue {
            1nat
        } else {
            0nat
        }
    }
}

/// How many slots of a delta classify as `Reset`.
pub open spec fn spec_reset_count(slots: Seq<SlotDeltaView>) -> nat
    decreases slots.len(),
{
    if slots.len() == 0 {
        0
    } else {
        spec_reset_count(slots.drop_last()) + if spec_classify(
            slots.last().original,
            slots.last().present,
        ) == SlotDisposition::Reset {
            1nat
        } else {
            0nat
        }
    }
}

/// How many slots of a delta classify as `Release`.
pub open spec fn spec_release_count(slots: Seq<SlotDeltaView>) -> nat
    decreases slots.len(),
{
    if slots.len() == 0 {
        0
    } else {
        spec_release_count(slots.drop_last()) + if spec_classify(
            slots.last().original,
            slots.last().present,
        ) == SlotDisposition::Release {
            1nat
        } else {
            0nat
        }
    }
}

/// The account state persisted in the store for a namespace: `NotExisting`
/// when the state key is absent, `None` when the stored bytes are corrupt.
pub open spec fn spec_persisted_state(contents: Map<Seq<u8>, Seq<u8>>, tag: u8) -> Option<
    AccountState,
> {
    if !contents.contains_key(spec_state_key(tag)) {
        Some(AccountState::NotExisting)
    } else {
        spec_decode_state(contents[spec_state_key(tag)])
    }
}

/// The state written for a surviving account: `StorageCleared` right after a
/// creation or when already cleared, `Touched` otherwise.
pub open spec fn spec_next_state(prior: AccountState, created: bool) -> AccountState {
    if created {
        AccountState::StorageCleared
    } else if prior is StorageCleared {
        AccountState::StorageCleared
    } else {
        AccountState::Touched
    }
}

/// What one account contributes to a commit.
pub enum AccountPlan {
    /// The account is rejected; nothing of the commit is applied.
    Reject { error: DbError },
    /// The account contributes operations and counter increments; `balance`
    /// notes an externally owned account whose balance would have to be
    /// converted after the batch is applied.
    Contribute { ops: Seq<StoreOp>, sets: nat, resets: nat, releases: nat, balance: bool },
}

/// The contribution of one account, against the store contents at the start
/// of the commit.
pub open spec fn spec_account_plan(
    contents: Map<Seq<u8>, Seq<u8>>,
    address: Seq<u8>,
    delta: AccountDeltaView,
    default_info: Seq<u8>,
) -> AccountPlan {
    if !delta.touched {
        AccountPlan::Contribute {
            ops: Seq::empty(),
            sets: 0,
            resets: 0,
            releases: 0,
            balance: false,
        }
    } else {
        match spec_resolve(address) {
            Option::None => if delta.slots.len() > 0 {
                AccountPlan::Reject { error: DbError::UnsupportedAddress }
            } else {
                AccountPlan::Contribute {
                    ops: Seq::empty(),
                    sets: 0,
                    resets: 0,
                    releases: 0,
                    balance: true,
                }
            },
            Option::Some(tag) => if delta.selfdestructed {
                AccountPlan::Contribute {
                    ops: seq![
                        op_delete_prefix(spec_storage_prefix(tag)),
                        op_put(spec_info_key(tag), default_info),
                        op_put(spec_state_key(tag), spec_state_bytes(AccountState::NotExisting)),
                    ],
                    sets: 0,
                    resets: 0,
                    releases: 0,
                    balance: false,
                }
            } else if delta.created {
                AccountPlan::Contribute {
                    ops: seq![
                        op_put(spec_info_key(tag), delta.info_bytes),
                        op_delete_prefix(spec_storage_prefix(tag)),
                        op_put(
                            spec_state_key(tag),
                            spec_state_bytes(AccountState::StorageCleared),
                        ),
                    ] + spec_slots_ops(tag, delta.slots),
                    sets: spec_set_count(delta.slots),
                    resets: spec_reset_count(delta.slots),
                    releases: spec_release_count(delta.slots),
                    balance: false,
                }
            } else {
                match spec_persisted_state(contents, tag) {
                    Option::None => AccountPlan::Reject {
                        error: DbError::SerializationFailure,
                    },
                    Option::Some(prior) => AccountPlan::Contribute {
                        ops: seq![
                            op_put(spec_info_key(tag), delta.info_bytes),
                            op_put(
                                spec_state_key(tag),
                                spec_state_bytes(spec_next_state(prior, false)),
                            ),
                        ] + spec_slots_ops(tag, delta.slots),
                        sets: spec_set_count(delta.slots),
                        resets: spec_reset_count(delta.slots),
                        releases: spec_release_count(delta.slots),
                        balance: false,
                    },
                }
            },
        }
    }
}

/// The plan of a whole commit: rejected with an error before the batch is
/// applied, or the folded operations, counter increments and balance flag.
pub enum CommitPlan {
    Rejected { error: DbError },
    Built { ops: Seq<StoreOp>, sets: nat, resets: nat, releases: nat, balance: bool },
}

/// The plan of a commit over a change set, processed in submission order;
/// the leftmost rejection wins.
pub open spec fn spec_commit_plan(
    contents: Map<Seq<u8>, Seq<u8>>,
    changes: Seq<(Seq<u8>, AccountDeltaView)>,
    default_info: Seq<u8>,
) -> CommitPlan
    decreases changes.len(),
{
    if changes.len() == 0 {
        CommitPlan::Built { ops: Seq::empty(), sets: 0, resets: 0, releases: 0, balance: false }
    } else {
        match spec_commit_plan(contents, changes.drop_last(), default_info) {
            CommitPlan::Rejected { error } => CommitPlan::Rejected { error },
            CommitPlan::Built { ops, sets, resets, releases, balance } => {
                match spec_account_plan(
                    contents,
                    changes.last().0,
                    changes.last().1,
                    default_info,
                ) {
                    AccountPlan::Reject { error } => CommitPlan::Rejected { error },
                    AccountPlan::Contribute {
                        ops: account_ops,
                        sets: account_sets,
                        resets: account_resets,
                        releases: account_releases,
                        balance: account_balance,
                    } => CommitPlan::Built {
                        ops: ops + account_ops,
                        sets: sets + account_sets,
                        resets: resets + account_resets,
                        releases: releases + account_releases,
                        balance: balance || account_balance,
                    },
                }
            },
        }
    }
}

/// Once a prefix of the change set rejects, the whole plan rejects with the
/// same error: the leftmost rejection wins.
pub proof fn lemma_plan_rejection_persists(
    contents: Map<Seq<u8>, Seq<u8>>,
    changes: Seq<(Seq<u8>, AccountDeltaView)>,
    default_info: Seq<u8>,
    i: int,
)
    requires
        0 <= i <= changes.len(),
        spec_commit_plan(contents, changes.subrange(0, i), default_info) is Rejected,
    ensures
        spec_commit_plan(contents, changes, default_info) == spec_commit_plan(
            contents,
            changes.subrange(0, i),
            default_info,
        ),
    decreases changes.len() - i,
{
    if i == changes.len() {
        assert(changes.subrange(0, i) =~= changes);
    } else {
        assert(changes.subrange(0, i + 1).drop_last() =~= changes.subrange(0, i));
        lemma_plan_rejection_persists(contents, changes, default_info, i + 1);
    }
}

} // verus!
