//! Properties of the library that span its operations.
use vstd::prelude::*;
use crate::spec::{ChainSpec, ForkName};
use crate::errors::{BlockProcessingError, ProposerSlashingInvalid};
use crate::beacon_state::{CACHED_EPOCHS, StateView, ValidatorView, pubkey_index};
use crate::common::{slash_validator, spec_initiate_validator_exit};
use crate::churn::{
    activation_exit_epoch, compute_consolidation_epoch_and_update_churn, compute_exit_epoch_and_update_churn,
    consume_churn,
};
use crate::operations::{DepositDataView, DepositView, ProposerSlashingView};
use crate::process_operations::{
    apply_ops, bls_to_execution_change_step, consolidation_request_step, consolidation_requests_result,
    proposer_slashing_step, withdrawal_request_step, withdrawal_requests_result,
};
use crate::operations::SignedBlsToExecutionChangeView;
use crate::beacon_state::{COMPOUNDING_WITHDRAWAL_PREFIX, ETH1_ADDRESS_WITHDRAWAL_PREFIX};
use crate::common::pending_balance_to_withdraw;
use crate::enr::{EnrFields, enr_matches, opt_bytes};
use crate::sync::SyncRequestKind;
use crate::operations::{ConsolidationRequestView, WithdrawalRequestView};
use crate::verify_operations::{deposit_signature_valid, is_slashable_at, proposer_slashing_validity};
use crate::deposits::{deposit_outcome, deposits_outcome, expected_deposit_count};
use crate::attester_slashing::{first_unordered, slashable_indices};
use crate::attestations::{
    AttestationView, attestation_outcome, attestations_outcome, base_attestation_outcome, flag_mask,
    flag_update, index_update, participation_updates, attestation_for_block, attesting_indices,
    participation_flags, participation_of, base_reward, state_reward_per_increment,
    PROPOSER_REWARD_DENOMINATOR, TIMELY_SOURCE_WEIGHT, TIMELY_TARGET_WEIGHT, TIMELY_HEAD_WEIGHT,
};
use crate::sync_committee::{apply_sync_rewards, committee_indices, sync_aggregate_outcome};
use crate::block::{BeaconBlockBodyView, operations_outcome};
use crate::store::restored_state;
use crate::handlers::selected_forks;
use crate::signing::{le_bytes, lemma_le_bytes_len};
use crate::enr::{EnrForkId, enr_fork_id_bytes, decoded_fork_id, bitvector_bits, empty_bitfield};
use crate::sync::{message_actions, BackfillOutcome, SearchContext, SyncAction, SyncEvent, ChainSegmentKind, spec_should_search_for_block, spec_subscribes_core_topics, SLOT_IMPORT_TOLERANCE, SyncState};

verus! {

/// Starting the exit of a validator a second time changes nothing: once
/// queued, its exit epoch is no longer the far future (where that epoch is
/// the largest and withdrawals are delayed at all).
pub proof fn lemma_initiate_exit_idempotent(s: StateView, i: nat, c: ChainSpec)
    requires
        c.far_future_epoch == u64::MAX,
        c.min_validator_withdrawability_delay > 0,
        spec_initiate_validator_exit(s, i, c) is Ok,
    ensures
        spec_initiate_validator_exit(spec_initiate_validator_exit(s, i, c)->Ok_0, i, c) == spec_initiate_validator_exit(
            s,
            i,
            c,
        ),
{
    let s1 = spec_initiate_validator_exit(s, i, c)->Ok_0;
    assert(s1.validators.len() == s.validators.len());
    assert(s1.validators[i as int].exit_epoch != c.far_future_epoch);
}

/// A block that slashes the same proposer twice is refused at the second
/// slashing: the first leaves the proposer slashed, so no longer slashable.
pub proof fn lemma_repeated_proposer_slashing_rejected(
    s: StateView,
    ps: ProposerSlashingView,
    k: nat,
    verify: bool,
    proposer: u64,
    c: ChainSpec,
)
    requires
        c.valid(),
        s.wf(c),
        proposer_slashing_step(s, ps, k, verify, proposer, c) is Ok,
    ensures
        proposer_slashing_step(proposer_slashing_step(s, ps, k, verify, proposer, c)->Ok_0, ps, k + 1, verify, proposer, c)
            == Err::<StateView, BlockProcessingError>(
            BlockProcessingError::ProposerSlashingInvalid {
                index: (k + 1) as u64,
                reason: ProposerSlashingInvalid::ProposerNotSlashable(ps.signed_header_1.message.proposer_index),
            },
        ),
{
    let i = ps.signed_header_1.message.proposer_index;
    let s1 = proposer_slashing_step(s, ps, k, verify, proposer, c)->Ok_0;
    assert(proposer_slashing_validity(s, ps, verify, c) is None);
    assert(slash_validator(s, i as nat, None, proposer as nat, c) == Ok::<StateView, BlockProcessingError>(s1));
    assert(s1.validators.len() == s.validators.len());
    assert(s1.validators[i as int].slashed);
    assert(!is_slashable_at(s1.validators[i as int], crate::beacon_state::current_epoch(s1, c)));
}

/// A state stored with its caches comes back as it was.
pub proof fn lemma_storage_roundtrip(s: StateView)
    requires
        s.committee_caches.len() == CACHED_EPOCHS,
    ensures
        restored_state(s, s.committee_caches) == s,
{
    assert(s.committee_caches.take(CACHED_EPOCHS as int) =~= s.committee_caches);
}

/// A handler runs exactly the forks it is enabled for, but Fulu.
pub proof fn lemma_selected_forks(forks: Seq<ForkName>, enabled: spec_fn(ForkName) -> bool, f: ForkName)
    ensures
        selected_forks(forks, enabled).contains(f) <==> (forks.contains(f) && f != ForkName::Fulu && enabled(f)),
    decreases forks.len(),
{
    broadcast use vstd::seq_lib::group_seq_properties;

    if forks.len() > 0 {
        lemma_selected_forks(forks.drop_last(), enabled, f);
        let rest = selected_forks(forks.drop_last(), enabled);
        assert(forks =~= forks.drop_last().push(forks.last()));
        if forks.last() != ForkName::Fulu && enabled(forks.last()) {
            assert(rest.push(forks.last()).contains(f) <==> (rest.contains(f) || f == forks.last())) by {
                if f == forks.last() {
                    assert(rest.push(forks.last())[rest.len() as int] == f);
                }
                if rest.push(forks.last()).contains(f) {
                    let j = choose|j: int| 0 <= j < rest.push(forks.last()).len() && rest.push(forks.last())[j] == f;
                    if j < rest.len() {
                        assert(rest[j] == f);
                    }
                }
            }
        }
        assert(forks.contains(f) <==> (forks.drop_last().contains(f) || f == forks.last())) by {
            if forks.contains(f) {
                let j = choose|j: int| 0 <= j < forks.len() && forks[j] == f;
                if j < forks.len() - 1 {
                    assert(forks.drop_last()[j] == f);
                }
            }
            if f == forks.last() {
                assert(forks[forks.len() - 1] == f);
            }
            if forks.drop_last().contains(f) {
                let j = choose|j: int| 0 <= j < forks.drop_last().len() && forks.drop_last()[j] == f;
                assert(forks[j] == f);
            }
        }
    }
}

/// A deposit for an unknown key whose signature does not verify only
/// advances the deposit index.
pub proof fn lemma_bad_signature_deposit_only_counts(s: StateView, d: DepositDataView, c: ChainSpec)
    requires
        pubkey_index(s.validators, d.pubkey) is None,
        !deposit_signature_valid(d, c),
        s.eth1_deposit_index < u64::MAX,
    ensures
        deposit_outcome(s, d, None, true, c) == Ok::<StateView, BlockProcessingError>(
            StateView { eth1_deposit_index: (s.eth1_deposit_index + 1) as u64, ..s },
        ),
{
}

/// The validators that an attester slashing slashes attested in both
/// attestations and can be slashed; when the first attestation's indices
/// increase, so do they.
pub proof fn lemma_slashable_indices_sound(vals: Seq<ValidatorView>, a: Seq<u64>, b: Seq<u64>, epoch: u64)
    requires
        slashable_indices(vals, a, b, epoch) is Ok,
    ensures
        forall|k: int|
            0 <= k < slashable_indices(vals, a, b, epoch)->Ok_0.len() ==> {
                let i = #[trigger] slashable_indices(vals, a, b, epoch)->Ok_0[k];
                &&& a.contains(i)
                &&& b.contains(i)
                &&& i < vals.len()
                &&& is_slashable_at(vals[i as int], epoch)
            },
        first_unordered(a) is None ==> forall|j: int, k: int|
            0 <= j < k < slashable_indices(vals, a, b, epoch)->Ok_0.len() ==> slashable_indices(vals, a, b, epoch)->Ok_0[j]
                < slashable_indices(vals, a, b, epoch)->Ok_0[k],
    decreases a.len(),
{
    if a.len() > 0 {
        let rest = slashable_indices(vals, a.drop_last(), b, epoch);
        lemma_slashable_indices_sound(vals, a.drop_last(), b, epoch);
        let ix = slashable_indices(vals, a, b, epoch)->Ok_0;
        let r = rest->Ok_0;
        assert forall|k: int| 0 <= k < r.len() implies a.contains(#[trigger] r[k]) by {
            let i = r[k];
            assert(a.drop_last().contains(i));
            let j = choose|j: int| 0 <= j < a.drop_last().len() && a.drop_last()[j] == i;
            assert(a[j] == i);
        }
        assert(a[a.len() - 1] == a.last());
        if first_unordered(a) is None {
            lemma_first_unordered_prefix(a);
            lemma_last_exceeds(a, r, vals, b, epoch);
        }
    }
}

proof fn lemma_first_unordered_prefix(a: Seq<u64>)
    requires
        first_unordered(a) is None,
        a.len() > 0,
    ensures
        first_unordered(a.drop_last()) is None,
{
}

/// In an increasing list, every earlier element is below the last.
proof fn lemma_increasing_below_last(a: Seq<u64>, j: int)
    requires
        first_unordered(a) is None,
        0 <= j < a.len() - 1,
    ensures
        a[j] < a.last(),
    decreases a.len(),
{
    if j < a.len() - 2 {
        lemma_increasing_below_last(a.drop_last(), j);
    }
}

proof fn lemma_last_exceeds(a: Seq<u64>, r: Seq<u64>, vals: Seq<ValidatorView>, b: Seq<u64>, epoch: u64)
    requires
        a.len() > 0,
        first_unordered(a) is None,
        slashable_indices(vals, a.drop_last(), b, epoch) == Ok::<Seq<u64>, crate::errors::AttesterSlashingInvalid>(r),
        forall|k: int| 0 <= k < r.len() ==> a.drop_last().contains(#[trigger] r[k]),
    ensures
        forall|k: int| 0 <= k < r.len() ==> #[trigger] r[k] < a.last(),
{
    assert forall|k: int| 0 <= k < r.len() implies #[trigger] r[k] < a.last() by {
        assert(a.drop_last().contains(r[k]));
        let j = choose|j: int| 0 <= j < a.drop_last().len() && a.drop_last()[j] == r[k];
        lemma_increasing_below_last(a, j);
    }
}

/// A block close to our head is searched for whatever the sync state, when
/// its peer is connected and the execution engine online.
pub proof fn lemma_close_blocks_are_searched(synced: bool, block_slot: u64, head_slot: u64)
    requires
        crate::sync::slot_distance(head_slot, block_slot) <= SLOT_IMPORT_TOLERANCE,
    ensures
        spec_should_search_for_block(synced, Some(block_slot), head_slot, true, true) is Ok,
{
}

/// The core topics are subscribed only by a node that was not synced.
pub proof fn lemma_core_topics_once(old_state: SyncState, new_state: SyncState)
    requires
        spec_subscribes_core_topics(old_state, new_state),
    ensures
        !old_state.spec_is_synced(),
        new_state.spec_is_synced(),
{
}

/// The `eth2` field that a local ENR is built with decodes back to the fork
/// id: its digest, its next fork version and its next fork epoch.
pub proof fn lemma_enr_fork_id_roundtrip(f: EnrForkId)
    ensures
        decoded_fork_id(enr_fork_id_bytes(f)) == Some(
            (f.fork_digest@, f.next_fork_version@, le_bytes(f.next_fork_epoch as nat, 8)),
        ),
{
    lemma_le_bytes_len(f.next_fork_epoch as nat, 8);
    let b = enr_fork_id_bytes(f);
    assert(b.subrange(0, 4) =~= f.fork_digest@);
    assert(b.subrange(4, 8) =~= f.next_fork_version@);
    assert(b.subrange(8, 16) =~= le_bytes(f.next_fork_epoch as nat, 8));
}

/// The subnet bitfields that a local ENR is built with decode to bit vectors
/// of the announced length with no bit set.
pub proof fn lemma_empty_bitfield_decodes_unset(bits: u64)
    requires
        bits + 7 <= u64::MAX,
    ensures
        bitvector_bits(empty_bitfield(bits), bits) == Some(Seq::new(bits as nat, |i: int| false)),
{
    let bytes = empty_bitfield(bits);
    if bits == 0 {
        assert(bytes[0] == 0u8);
        assert(Seq::new(0, |i: int| (bytes[i / 8] >> ((i % 8) as u8)) & 1u8 == 1u8) =~= Seq::new(
            0,
            |i: int| false,
        ));
        return;
    }
    if bits % 8 != 0 {
        let last = bytes.last();
        assert(last == 0u8);
        let k: u8 = (8 - bits % 8) as u8;
        assert(last & !(0xffu8 >> k) == 0u8) by (bit_vector)
            requires
                last == 0u8,
        ;
    }
    let decoded = Seq::new(bits as nat, |i: int| (bytes[i / 8] >> ((i % 8) as u8)) & 1u8 == 1u8);
    assert forall|i: int| 0 <= i < bits implies #[trigger] decoded[i] == false by {
        assert(i / 8 < bytes.len()) by (nonlinear_arith)
            requires
                0 <= i < bits,
                bytes.len() == (bits + 7) / 8,
        ;
        let b = bytes[i / 8];
        let sh: u8 = (i % 8) as u8;
        assert(b == 0u8);
        assert((b >> sh) & 1u8 == 0u8) by (bit_vector)
            requires
                b == 0u8,
        ;
    }
    assert(decoded =~= Seq::new(bits as nat, |i: int| false));
}

/// Every participation flag set in `before` is still set in `after`.
pub open spec fn flags_kept(before: Seq<u8>, after: Seq<u8>) -> bool {
    &&& after.len() == before.len()
    &&& forall|i: int| 0 <= i < before.len() ==> #[trigger] after[i] & before[i] == before[i]
}

proof fn lemma_flags_kept_refl(p: Seq<u8>)
    ensures
        flags_kept(p, p),
{
    assert forall|i: int| 0 <= i < p.len() implies #[trigger] p[i] & p[i] == p[i] by {
        let x = p[i];
        assert(x & x == x) by (bit_vector);
    }
}

proof fn lemma_flags_kept_trans(a: Seq<u8>, b: Seq<u8>, c: Seq<u8>)
    requires
        flags_kept(a, b),
        flags_kept(b, c),
    ensures
        flags_kept(a, c),
{
    assert forall|i: int| 0 <= i < a.len() implies #[trigger] c[i] & a[i] == a[i] by {
        let x = a[i];
        let y = b[i];
        let z = c[i];
        assert(y & x == x);
        assert(z & y == y);
        assert(z & x == x) by (bit_vector)
            requires
                y & x == x,
                z & y == y,
        ;
    }
}

proof fn lemma_flags_kept_set(p: Seq<u8>, i: int, m: u8)
    requires
        0 <= i < p.len(),
    ensures
        flags_kept(p, p.update(i, p[i] | m)),
{
    let q = p.update(i, p[i] | m);
    assert forall|j: int| 0 <= j < p.len() implies #[trigger] q[j] & p[j] == p[j] by {
        let x = p[j];
        if j == i {
            assert((x | m) & x == x) by (bit_vector);
        } else {
            assert(x & x == x) by (bit_vector);
        }
    }
}

/// What an attestation may change of a state: participation flags only
/// gain bits, and the validators stay as they were.
pub open spec fn participation_grows(before: StateView, after: StateView) -> bool {
    &&& flags_kept(before.current_epoch_participation, after.current_epoch_participation)
    &&& flags_kept(before.previous_epoch_participation, after.previous_epoch_participation)
    &&& after.validators == before.validators
}

proof fn lemma_participation_grows_refl(s: StateView)
    ensures
        participation_grows(s, s),
{
    lemma_flags_kept_refl(s.current_epoch_participation);
    lemma_flags_kept_refl(s.previous_epoch_participation);
}

proof fn lemma_participation_grows_trans(a: StateView, b: StateView, c: StateView)
    requires
        participation_grows(a, b),
        participation_grows(b, c),
    ensures
        participation_grows(a, c),
{
    lemma_flags_kept_trans(a.current_epoch_participation, b.current_epoch_participation, c.current_epoch_participation);
    lemma_flags_kept_trans(
        a.previous_epoch_participation,
        b.previous_epoch_participation,
        c.previous_epoch_participation,
    );
}

proof fn lemma_flag_update_grows(
    s: StateView,
    i: u64,
    f: nat,
    weight: u64,
    earned: bool,
    on_current: bool,
    num: u64,
    per_increment: Result<u64, BlockProcessingError>,
    c: ChainSpec,
)
    requires
        flag_update(s, i, f, weight, earned, on_current, num, per_increment, c) is Ok,
    ensures
        participation_grows(s, flag_update(s, i, f, weight, earned, on_current, num, per_increment, c)->Ok_0.0),
{
    lemma_participation_grows_refl(s);
    let s2 = flag_update(s, i, f, weight, earned, on_current, num, per_increment, c)->Ok_0.0;
    if s2 != s {
        if on_current {
            lemma_flags_kept_set(s.current_epoch_participation, i as int, flag_mask(f));
        } else {
            lemma_flags_kept_set(s.previous_epoch_participation, i as int, flag_mask(f));
        }
    }
}

proof fn lemma_index_update_grows(
    s: StateView,
    i: u64,
    flags: (bool, bool, bool),
    on_current: bool,
    num: u64,
    per_increment: Result<u64, BlockProcessingError>,
    c: ChainSpec,
)
    requires
        index_update(s, i, flags, on_current, num, per_increment, c) is Ok,
    ensures
        participation_grows(s, index_update(s, i, flags, on_current, num, per_increment, c)->Ok_0.0),
{
    let (s1, n1) = flag_update(s, i, 0, 1, flags.0, on_current, num, per_increment, c)->Ok_0;
    lemma_flag_update_grows(s, i, 0, 1, flags.0, on_current, num, per_increment, c);
    let (s2, n2) = flag_update(s1, i, 1, 2, flags.1, on_current, n1, per_increment, c)->Ok_0;
    lemma_flag_update_grows(s1, i, 1, 2, flags.1, on_current, n1, per_increment, c);
    lemma_flag_update_grows(s2, i, 2, 3, flags.2, on_current, n2, per_increment, c);
    let s3 = flag_update(s2, i, 2, 3, flags.2, on_current, n2, per_increment, c)->Ok_0.0;
    lemma_participation_grows_trans(s, s1, s2);
    lemma_participation_grows_trans(s, s2, s3);
}

proof fn lemma_participation_updates_grow(
    s: StateView,
    ix: Seq<u64>,
    flags: (bool, bool, bool),
    on_current: bool,
    per_increment: Result<u64, BlockProcessingError>,
    c: ChainSpec,
)
    requires
        participation_updates(s, ix, flags, on_current, per_increment, c) is Ok,
    ensures
        participation_grows(s, participation_updates(s, ix, flags, on_current, per_increment, c)->Ok_0.0),
    decreases ix.len(),
{
    if ix.len() == 0 {
        lemma_participation_grows_refl(s);
    } else {
        lemma_participation_updates_grow(s, ix.drop_last(), flags, on_current, per_increment, c);
        let (s1, n1) = participation_updates(s, ix.drop_last(), flags, on_current, per_increment, c)->Ok_0;
        lemma_index_update_grows(s1, ix.last(), flags, on_current, n1, per_increment, c);
        let s2 = index_update(s1, ix.last(), flags, on_current, n1, per_increment, c)->Ok_0.0;
        lemma_participation_grows_trans(s, s1, s2);
    }
}

proof fn lemma_attestation_grows(s: StateView, a: AttestationView, k: nat, verify: bool, proposer: u64, c: ChainSpec)
    requires
        attestation_outcome(s, a, k, verify, proposer, c) is Ok,
    ensures
        participation_grows(s, attestation_outcome(s, a, k, verify, proposer, c)->Ok_0),
{
    let ix = crate::attestations::attestation_for_block(s, a, k, verify, c)->Ok_0;
    let flags = crate::attestations::participation_flags(s, a.data, (s.slot - a.data.slot) as u64, c)->Ok_0;
    let on_current = a.data.target.epoch == crate::beacon_state::current_epoch(s, c);
    let per = crate::attestations::state_reward_per_increment(s, c);
    lemma_participation_updates_grow(s, ix, flags, on_current, per, c);
    let s2 = participation_updates(s, ix, flags, on_current, per, c)->Ok_0.0;
    let s3 = attestation_outcome(s, a, k, verify, proposer, c)->Ok_0;
    lemma_participation_grows_refl(s2);
    assert(participation_grows(s2, s3));
    lemma_participation_grows_trans(s, s2, s3);
}

proof fn lemma_apply_ops_grow(
    s: StateView,
    ops: Seq<AttestationView>,
    step: spec_fn(StateView, AttestationView, nat) -> Result<StateView, BlockProcessingError>,
)
    requires
        apply_ops(s, ops, step) is Ok,
        forall|s1: StateView, a: AttestationView, k: nat| #[trigger] step(s1, a, k) is Ok ==> participation_grows(s1, step(s1, a, k)->Ok_0),
    ensures
        participation_grows(s, apply_ops(s, ops, step)->Ok_0),
    decreases ops.len(),
{
    if ops.len() == 0 {
        lemma_participation_grows_refl(s);
    } else {
        lemma_apply_ops_grow(s, ops.drop_last(), step);
        let s1 = apply_ops(s, ops.drop_last(), step)->Ok_0;
        let s2 = step(s1, ops.last(), (ops.len() - 1) as nat)->Ok_0;
        lemma_participation_grows_trans(s, s1, s2);
    }
}

/// The attestations of a block only ever set participation flags: every
/// flag that was set before is still set after, and no validator changes.
pub proof fn lemma_attestations_only_set_flags(
    s: StateView,
    attestations: Seq<AttestationView>,
    verify: bool,
    proposer: u64,
    c: ChainSpec,
)
    requires
        attestations_outcome(s, attestations, verify, proposer, c) is Ok,
    ensures
        participation_grows(s, attestations_outcome(s, attestations, verify, proposer, c)->Ok_0),
{
    if s.altair_enabled() {
        let step = |s1: StateView, a: AttestationView, k: nat| attestation_outcome(s1, a, k, verify, proposer, c);
        assert forall|s1: StateView, a: AttestationView, k: nat| #[trigger] step(s1, a, k) is Ok implies participation_grows(
            s1,
            step(s1, a, k)->Ok_0,
        ) by {
            lemma_attestation_grows(s1, a, k, verify, proposer, c);
        }
        lemma_apply_ops_grow(s, attestations, step);
    } else {
        let step = |s1: StateView, a: AttestationView, k: nat| base_attestation_outcome(s1, a, k, verify, proposer, c);
        assert forall|s1: StateView, a: AttestationView, k: nat| #[trigger] step(s1, a, k) is Ok implies participation_grows(
            s1,
            step(s1, a, k)->Ok_0,
        ) by {
            lemma_participation_grows_refl(s1);
        }
        lemma_apply_ops_grow(s, attestations, step);
    }
}

/// What a deposit keeps: the validators before it stay, in their places.
pub open spec fn registry_extends(before: StateView, after: StateView) -> bool {
    &&& before.validators.len() <= after.validators.len()
    &&& after.validators.subrange(0, before.validators.len() as int) == before.validators
}

proof fn lemma_deposit_step(s: StateView, d: DepositDataView, c: ChainSpec)
    requires
        deposit_outcome(s, d, None, true, c) is Ok,
    ensures
        deposit_outcome(s, d, None, true, c)->Ok_0.eth1_deposit_index == s.eth1_deposit_index + 1,
        registry_extends(s, deposit_outcome(s, d, None, true, c)->Ok_0),
{
    let s2 = deposit_outcome(s, d, None, true, c)->Ok_0;
    assert(s2.validators.subrange(0, s.validators.len() as int) =~= s.validators);
}

proof fn lemma_deposit_steps(
    s: StateView,
    ds: Seq<DepositDataView>,
    step: spec_fn(StateView, DepositDataView, nat) -> Result<StateView, BlockProcessingError>,
)
    requires
        apply_ops(s, ds, step) is Ok,
        forall|s1: StateView, d: DepositDataView, k: nat| #[trigger] step(s1, d, k) is Ok ==> {
            &&& step(s1, d, k)->Ok_0.eth1_deposit_index == s1.eth1_deposit_index + 1
            &&& registry_extends(s1, step(s1, d, k)->Ok_0)
        },
    ensures
        apply_ops(s, ds, step)->Ok_0.eth1_deposit_index == s.eth1_deposit_index + ds.len(),
        registry_extends(s, apply_ops(s, ds, step)->Ok_0),
    decreases ds.len(),
{
    if ds.len() == 0 {
        assert(s.validators.subrange(0, s.validators.len() as int) =~= s.validators);
    } else {
        lemma_deposit_steps(s, ds.drop_last(), step);
        let s1 = apply_ops(s, ds.drop_last(), step)->Ok_0;
        let s2 = step(s1, ds.last(), (ds.len() - 1) as nat)->Ok_0;
        assert(s2.validators.subrange(0, s.validators.len() as int) =~= s1.validators.subrange(
            0,
            s.validators.len() as int,
        ));
    }
}

/// The deposits of a block advance the deposit index by their number, and
/// leave every validator that was already registered in its place.
pub proof fn lemma_deposits_advance_index(s: StateView, ds: Seq<DepositView>, c: ChainSpec)
    requires
        deposits_outcome(s, ds, c) is Ok,
    ensures
        deposits_outcome(s, ds, c)->Ok_0.eth1_deposit_index == s.eth1_deposit_index + ds.len(),
        registry_extends(s, deposits_outcome(s, ds, c)->Ok_0),
{
    let step = |s1: StateView, d: DepositDataView, k: nat| deposit_outcome(s1, d, None, true, c);
    assert forall|s1: StateView, d: DepositDataView, k: nat| #[trigger] step(s1, d, k) is Ok implies {
        &&& step(s1, d, k)->Ok_0.eth1_deposit_index == s1.eth1_deposit_index + 1
        &&& registry_extends(s1, step(s1, d, k)->Ok_0)
    } by {
        lemma_deposit_step(s1, d, c);
    }
    lemma_deposit_steps(s, ds.map_values(|d: DepositView| d.data), step);
}

/// A block with no operations, of a state that expects no deposit, leaves
/// the state as it was (since Electra, its execution requests are empty).
pub proof fn lemma_empty_block_changes_nothing(s: StateView, b: BeaconBlockBodyView, verify: bool, proposer: u64, c: ChainSpec)
    requires
        b.proposer_slashings.len() == 0,
        b.attester_slashings.len() == 0,
        b.attestations.len() == 0,
        b.deposits.len() == 0,
        b.voluntary_exits.len() == 0,
        b.bls_to_execution_changes matches Some(ch) ==> ch.len() == 0,
        s.electra_enabled() ==> (b.execution_requests matches Some(r) && r.deposits.len() == 0
            && r.withdrawals.len() == 0 && r.consolidations.len() == 0),
        expected_deposit_count(s, c) == 0,
    ensures
        operations_outcome(s, b, verify, proposer, c) == Ok::<StateView, BlockProcessingError>(s),
{
    assert(b.deposits.map_values(|d: DepositView| d.data).len() == 0);
}

/// No balance is lower in `after` than in `before`.
pub open spec fn no_balance_lowered(before: StateView, after: StateView) -> bool {
    &&& after.balances.len() == before.balances.len()
    &&& forall|k: int| 0 <= k < before.balances.len() ==> #[trigger] after.balances[k] >= before.balances[k]
}

proof fn lemma_full_sync_rewards(
    s: StateView,
    indices: Seq<nat>,
    bits: Seq<bool>,
    proposer: nat,
    proposer_balance: u64,
    participant_reward: u64,
    proposer_reward: u64,
)
    requires
        proposer < s.balances.len(),
        bits.len() == indices.len(),
        forall|j: int| 0 <= j < bits.len() ==> #[trigger] bits[j],
        apply_sync_rewards(s, indices, bits, proposer, proposer_balance, participant_reward, proposer_reward) is Ok,
    ensures
        ({
            let (s2, b) = apply_sync_rewards(
                s,
                indices,
                bits,
                proposer,
                proposer_balance,
                participant_reward,
                proposer_reward,
            )->Ok_0;
            &&& no_balance_lowered(s, s2)
            &&& s2.balances[proposer as int] == s.balances[proposer as int]
            &&& b >= proposer_balance
        }),
    decreases indices.len(),
{
    if indices.len() > 0 {
        lemma_full_sync_rewards(
            s,
            indices.drop_last(),
            bits.drop_last(),
            proposer,
            proposer_balance,
            participant_reward,
            proposer_reward,
        );
        assert(bits.last());
    }
}

/// A sync aggregate that every member of the committee signed lowers no
/// balance.
pub proof fn lemma_full_sync_aggregate_lowers_nothing(
    s: StateView,
    bits: Seq<bool>,
    signature: Seq<u8>,
    proposer: u64,
    verify: bool,
    c: ChainSpec,
)
    requires
        bits.len() == s.current_sync_committee.len(),
        forall|j: int| 0 <= j < bits.len() ==> #[trigger] bits[j],
        sync_aggregate_outcome(s, bits, signature, proposer, verify, c) is Ok,
    ensures
        no_balance_lowered(s, sync_aggregate_outcome(s, bits, signature, proposer, verify, c)->Ok_0),
{
    let (pr, br) = crate::sync_committee::sync_aggregate_rewards(s, c)->Ok_0;
    let indices = committee_indices(s.validators, s.current_sync_committee)->0;
    crate::sync_committee::lemma_committee_indices_len(s.validators, s.current_sync_committee);
    lemma_full_sync_rewards(s, indices, bits, proposer as nat, s.balances[proposer as int], pr, br);
}

/// A balance fits into a churn queue without the queue moving back: the
/// epoch it gets is no earlier than the queue's last epoch nor than the
/// floor, the balance available from there on plus the churn of the epochs
/// added is the balance plus what is left, and where epochs were added, what
/// is left is less than one epoch's churn.
#[verifier::spinoff_prover]
pub proof fn lemma_churn_queue_accounting(earliest: u64, to_consume: u64, floor: u64, per_epoch: u64, balance: u64)
    requires
        consume_churn(earliest, to_consume, floor, per_epoch, balance) is Ok,
    ensures
        ({
            let (left, epoch) = consume_churn(earliest, to_consume, floor, per_epoch, balance)->Ok_0;
            let start = if earliest >= floor { earliest } else { floor };
            let available = if earliest < start { per_epoch } else { to_consume };
            &&& epoch >= earliest
            &&& epoch >= floor
            &&& available + (epoch - start) * per_epoch == balance + left
            &&& epoch > start ==> left < per_epoch
        }),
{
    let start = if earliest >= floor { earliest } else { floor };
    let available = if earliest < start { per_epoch } else { to_consume };
    if balance > available {
        let x = balance - available;
        let p = per_epoch as int;
        let extra = (x - 1) / p + 1;
        assert(p * ((x - 1) / p) + (x - 1) % p == x - 1) by (nonlinear_arith)
            requires
                p > 0,
        ;
        assert(0 <= (x - 1) % p < p) by (nonlinear_arith)
            requires
                p > 0,
        ;
        assert(extra * p == p * ((x - 1) / p) + p) by (nonlinear_arith)
            requires
                extra == (x - 1) / p + 1,
        ;
        let (left, epoch) = consume_churn(earliest, to_consume, floor, per_epoch, balance)->Ok_0;
        assert(epoch == start + extra);
        assert(left == available + extra * p - balance);
        assert((epoch - start) * per_epoch == extra * p);
        assert(left < per_epoch);
    } else {
        let (left, epoch) = consume_churn(earliest, to_consume, floor, per_epoch, balance)->Ok_0;
        assert(epoch == start);
        assert(left == available - balance);
        assert((epoch - start) * per_epoch == 0);
    }
}

/// An exit leaves no earlier than the exit queue's last epoch, nor than the
/// first epoch at which an exit initiated now may take effect, and the queue
/// moves to that epoch.
pub proof fn lemma_exit_queue_monotone(s: StateView, exit_balance: u64, c: ChainSpec)
    requires
        compute_exit_epoch_and_update_churn(s, exit_balance, c) is Ok,
    ensures
        ({
            let (s2, epoch) = compute_exit_epoch_and_update_churn(s, exit_balance, c)->Ok_0;
            &&& epoch >= s.earliest_exit_epoch
            &&& epoch >= activation_exit_epoch(crate::beacon_state::current_epoch(s, c), c)->Ok_0
            &&& s2.earliest_exit_epoch == epoch
        }),
{
    let floor = activation_exit_epoch(crate::beacon_state::current_epoch(s, c), c)->Ok_0;
    let per = crate::churn::activation_exit_churn_limit(s, c)->Ok_0;
    lemma_churn_queue_accounting(s.earliest_exit_epoch, s.exit_balance_to_consume, floor, per, exit_balance);
}

/// A consolidation takes effect no earlier than the consolidation queue's
/// last epoch, nor than the first epoch at which one initiated now may, and
/// the queue moves to that epoch.
pub proof fn lemma_consolidation_queue_monotone(s: StateView, balance: u64, c: ChainSpec)
    requires
        compute_consolidation_epoch_and_update_churn(s, balance, c) is Ok,
    ensures
        ({
            let (s2, epoch) = compute_consolidation_epoch_and_update_churn(s, balance, c)->Ok_0;
            &&& epoch >= s.earliest_consolidation_epoch
            &&& epoch >= activation_exit_epoch(crate::beacon_state::current_epoch(s, c), c)->Ok_0
            &&& s2.earliest_consolidation_epoch == epoch
        }),
{
    let floor = activation_exit_epoch(crate::beacon_state::current_epoch(s, c), c)->Ok_0;
    let per = crate::churn::consolidation_churn_limit(s, c)->Ok_0;
    lemma_churn_queue_accounting(s.earliest_consolidation_epoch, s.consolidation_balance_to_consume, floor, per, balance);
}

/// What withdrawal requests may change of the partial-withdrawal queue and
/// the balances: the balances stay, the queue keeps its entries in order and
/// only grows at its end, and never beyond its limit when it was within it.
pub open spec fn withdrawal_queue_appended(before: StateView, after: StateView, limit: u64) -> bool {
    &&& after.balances == before.balances
    &&& before.pending_partial_withdrawals.len() <= after.pending_partial_withdrawals.len()
    &&& after.pending_partial_withdrawals.subrange(0, before.pending_partial_withdrawals.len() as int)
        == before.pending_partial_withdrawals
    &&& before.pending_partial_withdrawals.len() <= limit ==> after.pending_partial_withdrawals.len() <= limit
}

proof fn lemma_withdrawal_queue_appended_trans(a: StateView, b: StateView, d: StateView, limit: u64)
    requires
        withdrawal_queue_appended(a, b, limit),
        withdrawal_queue_appended(b, d, limit),
    ensures
        withdrawal_queue_appended(a, d, limit),
{
    let n = a.pending_partial_withdrawals.len() as int;
    let nb = b.pending_partial_withdrawals.len() as int;
    let dq = d.pending_partial_withdrawals;
    assert(dq.subrange(0, n) =~= dq.subrange(0, nb).subrange(0, n));
    assert(dq.subrange(0, nb) == b.pending_partial_withdrawals);
    assert(b.pending_partial_withdrawals.subrange(0, n) == a.pending_partial_withdrawals);
}

proof fn lemma_withdrawal_queue_appended_refl(a: StateView, limit: u64)
    ensures
        withdrawal_queue_appended(a, a, limit),
{
    assert(a.pending_partial_withdrawals.subrange(0, a.pending_partial_withdrawals.len() as int)
        =~= a.pending_partial_withdrawals);
}

proof fn lemma_withdrawal_request_appends(s: StateView, r: WithdrawalRequestView, c: ChainSpec)
    requires
        withdrawal_request_step(s, r, c) is Ok,
    ensures
        withdrawal_queue_appended(s, withdrawal_request_step(s, r, c)->Ok_0, c.pending_partial_withdrawals_limit),
{
    let s2 = withdrawal_request_step(s, r, c)->Ok_0;
    lemma_withdrawal_queue_appended_refl(s, c.pending_partial_withdrawals_limit);
    if s2 != s {
        assert(s2.pending_partial_withdrawals.subrange(0, s.pending_partial_withdrawals.len() as int)
            =~= s.pending_partial_withdrawals);
    }
}

/// Withdrawal requests never change a balance; they only append to the
/// partial-withdrawal queue, keeping what it held in order and staying
/// within its limit.
pub proof fn lemma_withdrawal_requests_only_append(s: StateView, rs: Seq<WithdrawalRequestView>, c: ChainSpec)
    requires
        withdrawal_requests_result(s, rs, c) is Ok,
    ensures
        withdrawal_queue_appended(s, withdrawal_requests_result(s, rs, c)->Ok_0, c.pending_partial_withdrawals_limit),
    decreases rs.len(),
{
    if rs.len() == 0 {
        lemma_withdrawal_queue_appended_refl(s, c.pending_partial_withdrawals_limit);
    } else {
        lemma_withdrawal_requests_only_append(s, rs.drop_last(), c);
        let s1 = withdrawal_requests_result(s, rs.drop_last(), c)->Ok_0;
        lemma_withdrawal_request_appends(s1, rs.last(), c);
        lemma_withdrawal_queue_appended_trans(
            s,
            s1,
            withdrawal_requests_result(s, rs, c)->Ok_0,
            c.pending_partial_withdrawals_limit,
        );
    }
}

/// Processing the consolidation requests `xs` followed by `ys` is processing
/// `xs`, then `ys` on the state that `xs` leave.
pub proof fn lemma_consolidation_requests_concat(
    s: StateView,
    xs: Seq<ConsolidationRequestView>,
    ys: Seq<ConsolidationRequestView>,
    c: ChainSpec,
)
    ensures
        consolidation_requests_result(s, xs + ys, c) == match consolidation_requests_result(s, xs, c) {
            Err(e) => Err(e),
            Ok(s1) => consolidation_requests_result(s1, ys, c),
        },
    decreases ys.len(),
{
    if ys.len() == 0 {
        assert(xs + ys =~= xs);
    } else {
        lemma_consolidation_requests_concat(s, xs, ys.drop_last(), c);
        assert((xs + ys).drop_last() =~= xs + ys.drop_last());
        assert((xs + ys).last() == ys.last());
    }
}

proof fn lemma_or_keeps_other_bit(p: u8, m: u8, n: u8)
    requires
        m == 1u8 || m == 2u8 || m == 4u8,
        n == 1u8 || n == 2u8 || n == 4u8,
        m != n,
    ensures
        ((p | m) & n == n) == (p & n == n),
{
    assert(((p | m) & n == n) == (p & n == n)) by (bit_vector)
        requires
            m == 1u8 || m == 2u8 || m == 4u8,
            n == 1u8 || n == 2u8 || n == 4u8,
            m != n,
    ;
}

proof fn lemma_or_sets_bit(p: u8, m: u8)
    ensures
        (p | m) & m == m,
{
    assert((p | m) & m == m) by (bit_vector);
}

proof fn lemma_bit_kept(x: u8, y: u8, m: u8)
    requires
        y & x == x,
        x & m == m,
    ensures
        y & m == m,
{
    assert(y & m == m) by (bit_vector)
        requires
            y & x == x,
            x & m == m,
    ;
}

/// The state differs from `before` at most in its participation flags and
/// balances.
pub open spec fn only_flags_and_balances(before: StateView, after: StateView) -> bool {
    after == StateView {
        current_epoch_participation: after.current_epoch_participation,
        previous_epoch_participation: after.previous_epoch_participation,
        balances: after.balances,
        ..before
    }
}

/// Flag `f`'s share of the proposer's numerator: the weighted base reward,
/// where the flag is earned and not yet set in `p`.
pub open spec fn flag_reward(p: u8, f: nat, earned: bool, br: u64, weight: u64) -> int {
    if earned && p & flag_mask(f) != flag_mask(f) {
        br * weight
    } else {
        0
    }
}

/// One attester's share of the proposer's numerator: the weighted base
/// rewards of the flags it newly earns.
pub open spec fn index_reward(
    s: StateView,
    i: u64,
    flags: (bool, bool, bool),
    on_current: bool,
    per_increment: Result<u64, BlockProcessingError>,
    c: ChainSpec,
) -> int {
    let p = participation_of(s, on_current)[i as int];
    let br = base_reward(s, i, per_increment, c)->Ok_0;
    flag_reward(p, 0, flags.0, br, TIMELY_SOURCE_WEIGHT) + flag_reward(p, 1, flags.1, br, TIMELY_TARGET_WEIGHT)
        + flag_reward(p, 2, flags.2, br, TIMELY_HEAD_WEIGHT)
}

/// The proposer's numerator for the attesters `ix`: the sum over them of the
/// weighted base rewards of the flags they newly earn.
pub open spec fn attestation_reward_numerator(
    s: StateView,
    ix: Seq<u64>,
    flags: (bool, bool, bool),
    on_current: bool,
    per_increment: Result<u64, BlockProcessingError>,
    c: ChainSpec,
) -> int
    decreases ix.len(),
{
    if ix.len() == 0 {
        0
    } else {
        attestation_reward_numerator(s, ix.drop_last(), flags, on_current, per_increment, c) + index_reward(
            s,
            ix.last(),
            flags,
            on_current,
            per_increment,
            c,
        )
    }
}

proof fn lemma_flag_update_effect(
    s: StateView,
    i: u64,
    f: nat,
    weight: u64,
    earned: bool,
    on_current: bool,
    num: u64,
    per_increment: Result<u64, BlockProcessingError>,
    c: ChainSpec,
)
    requires
        f <= 2,
        flag_update(s, i, f, weight, earned, on_current, num, per_increment, c) is Ok,
    ensures
        ({
            let (s2, n2) = flag_update(s, i, f, weight, earned, on_current, num, per_increment, c)->Ok_0;
            let p = participation_of(s, on_current);
            let p2 = participation_of(s2, on_current);
            &&& only_flags_and_balances(s, s2)
            &&& s2.balances == s.balances
            &&& participation_of(s2, !on_current) == participation_of(s, !on_current)
            &&& p2.len() == p.len()
            &&& forall|j: int| 0 <= j < p.len() && j != i ==> p2[j] == p[j]
            &&& earned ==> i < p.len() && p2[i as int] & flag_mask(f) == flag_mask(f)
            &&& (i < p.len() ==> p2[i as int] == (if earned { p[i as int] | flag_mask(f) } else { p[i as int] }))
            &&& n2 == num + flag_reward(p[i as int], f, earned, base_reward(s, i, per_increment, c)->Ok_0, weight)
        }),
{
    let p = participation_of(s, on_current);
    if earned && i < p.len() {
        lemma_or_sets_bit(p[i as int], flag_mask(f));
        if p[i as int] & flag_mask(f) == flag_mask(f) {
            let x = p[i as int];
            let m = flag_mask(f);
            assert((x | m) == x) by (bit_vector)
                requires
                    x & m == m,
            ;
        }
    }
}

proof fn lemma_index_update_effect(
    s: StateView,
    i: u64,
    flags: (bool, bool, bool),
    on_current: bool,
    num: u64,
    per_increment: Result<u64, BlockProcessingError>,
    c: ChainSpec,
)
    requires
        index_update(s, i, flags, on_current, num, per_increment, c) is Ok,
    ensures
        ({
            let (s2, n2) = index_update(s, i, flags, on_current, num, per_increment, c)->Ok_0;
            let p = participation_of(s, on_current);
            let p2 = participation_of(s2, on_current);
            &&& only_flags_and_balances(s, s2)
            &&& s2.balances == s.balances
            &&& participation_of(s2, !on_current) == participation_of(s, !on_current)
            &&& i < s.validators.len()
            &&& p2.len() == p.len()
            &&& forall|j: int| 0 <= j < p.len() && j != i ==> p2[j] == p[j]
            &&& (flags.0 || flags.1 || flags.2) ==> i < p.len()
            &&& flags.0 ==> p2[i as int] & 1u8 == 1u8
            &&& flags.1 ==> p2[i as int] & 2u8 == 2u8
            &&& flags.2 ==> p2[i as int] & 4u8 == 4u8
            &&& n2 == num + index_reward(s, i, flags, on_current, per_increment, c)
        }),
{
    let p = participation_of(s, on_current);
    let (s1, n1) = flag_update(s, i, 0, TIMELY_SOURCE_WEIGHT, flags.0, on_current, num, per_increment, c)->Ok_0;
    lemma_flag_update_effect(s, i, 0, TIMELY_SOURCE_WEIGHT, flags.0, on_current, num, per_increment, c);
    let (s2, n2) = flag_update(s1, i, 1, TIMELY_TARGET_WEIGHT, flags.1, on_current, n1, per_increment, c)->Ok_0;
    lemma_flag_update_effect(s1, i, 1, TIMELY_TARGET_WEIGHT, flags.1, on_current, n1, per_increment, c);
    let (s3, n3) = flag_update(s2, i, 2, TIMELY_HEAD_WEIGHT, flags.2, on_current, n2, per_increment, c)->Ok_0;
    lemma_flag_update_effect(s2, i, 2, TIMELY_HEAD_WEIGHT, flags.2, on_current, n2, per_increment, c);
    let p1 = participation_of(s1, on_current);
    let p2 = participation_of(s2, on_current);
    let p3 = participation_of(s3, on_current);
    if i < p.len() {
        let x = p[i as int];
        lemma_or_keeps_other_bit(x, 1u8, 2u8);
        lemma_or_keeps_other_bit(x, 1u8, 4u8);
        lemma_or_keeps_other_bit(p1[i as int], 2u8, 4u8);
        lemma_or_keeps_other_bit(p1[i as int], 2u8, 1u8);
        lemma_or_keeps_other_bit(p2[i as int], 4u8, 1u8);
        lemma_or_keeps_other_bit(p2[i as int], 4u8, 2u8);
        assert(base_reward(s1, i, per_increment, c) == base_reward(s, i, per_increment, c));
        assert(base_reward(s2, i, per_increment, c) == base_reward(s, i, per_increment, c));
    }
}

proof fn lemma_participation_updates_effect(
    s: StateView,
    ix: Seq<u64>,
    flags: (bool, bool, bool),
    on_current: bool,
    per_increment: Result<u64, BlockProcessingError>,
    c: ChainSpec,
)
    requires
        ix.no_duplicates(),
        participation_updates(s, ix, flags, on_current, per_increment, c) is Ok,
    ensures
        ({
            let (s2, n2) = participation_updates(s, ix, flags, on_current, per_increment, c)->Ok_0;
            let p = participation_of(s, on_current);
            let p2 = participation_of(s2, on_current);
            &&& only_flags_and_balances(s, s2)
            &&& s2.balances == s.balances
            &&& p2.len() == p.len()
            &&& forall|j: int| 0 <= j < p.len() && !ix.contains(j as u64) ==> p2[j] == p[j]
            &&& n2 == attestation_reward_numerator(s, ix, flags, on_current, per_increment, c)
        }),
    decreases ix.len(),
{
    if ix.len() > 0 {
        let init = ix.drop_last();
        let i = ix.last();
        assert(init.no_duplicates());
        lemma_participation_updates_effect(s, init, flags, on_current, per_increment, c);
        let (s1, n1) = participation_updates(s, init, flags, on_current, per_increment, c)->Ok_0;
        lemma_index_update_effect(s1, i, flags, on_current, n1, per_increment, c);
        let p = participation_of(s, on_current);
        let p1 = participation_of(s1, on_current);
        assert(!init.contains(i)) by {
            if init.contains(i) {
                let j = choose|j: int| 0 <= j < init.len() && init[j] == i;
                assert(ix[j] == ix[ix.len() - 1]);
            }
        }
        if i < p.len() {
            assert(p1[i as int] == p[i as int]);
        }
        assert(base_reward(s1, i, per_increment, c) == base_reward(s, i, per_increment, c));
        assert(index_reward(s1, i, flags, on_current, per_increment, c) == index_reward(
            s,
            i,
            flags,
            on_current,
            per_increment,
            c,
        ));
        let (s2, n2) = index_update(s1, i, flags, on_current, n1, per_increment, c)->Ok_0;
        let p2 = participation_of(s2, on_current);
        assert forall|j: int| 0 <= j < p.len() && !ix.contains(j as u64) implies p2[j] == p[j] by {
            assert(!init.contains(j as u64)) by {
                if init.contains(j as u64) {
                    let t = choose|t: int| 0 <= t < init.len() && init[t] == j as u64;
                    assert(ix[t] == j as u64);
                }
            }
            assert(j as u64 != i) by {
                if j as u64 == i {
                    assert(ix[ix.len() - 1] == j as u64);
                }
            }
        }
    }
}

/// An attestation (since Altair) pays its proposer, and no one else, the
/// sum over its attesters of the base reward times the weight of each flag
/// it newly sets, divided by the proposer reward denominator (448).
pub proof fn lemma_attestation_pays_proposer(
    s: StateView,
    a: AttestationView,
    k: nat,
    verify: bool,
    proposer: u64,
    c: ChainSpec,
)
    requires
        attestation_outcome(s, a, k, verify, proposer, c) is Ok,
    ensures
        PROPOSER_REWARD_DENOMINATOR == 448,
        ({
            let ix = attestation_for_block(s, a, k, verify, c)->Ok_0;
            let flags = participation_flags(s, a.data, (s.slot - a.data.slot) as u64, c)->Ok_0;
            let on_current = a.data.target.epoch == crate::beacon_state::current_epoch(s, c);
            let num = attestation_reward_numerator(s, ix, flags, on_current, state_reward_per_increment(s, c), c);
            &&& proposer < s.balances.len()
            &&& attestation_outcome(s, a, k, verify, proposer, c)->Ok_0.balances == s.balances.update(
                proposer as int,
                (s.balances[proposer as int] + num / PROPOSER_REWARD_DENOMINATOR as int) as u64,
            )
        }),
{
    let ix = attestation_for_block(s, a, k, verify, c)->Ok_0;
    let flags = participation_flags(s, a.data, (s.slot - a.data.slot) as u64, c)->Ok_0;
    let on_current = a.data.target.epoch == crate::beacon_state::current_epoch(s, c);
    let per = state_reward_per_increment(s, c);
    assert(first_unordered(ix) is None);
    lemma_increasing_distinct(ix);
    lemma_participation_updates_effect(s, ix, flags, on_current, per, c);
}

/// An increasing list holds no index twice.
proof fn lemma_increasing_distinct(a: Seq<u64>)
    requires
        first_unordered(a) is None,
    ensures
        a.no_duplicates(),
    decreases a.len(),
{
    if a.len() > 1 {
        lemma_first_unordered_prefix(a);
        lemma_increasing_distinct(a.drop_last());
        assert forall|i: int, j: int| 0 <= i < a.len() && 0 <= j < a.len() && i != j implies a[i] != a[j] by {
            if i < a.len() - 1 && j < a.len() - 1 {
                assert(a.drop_last()[i] == a[i] && a.drop_last()[j] == a[j]);
            } else if i < a.len() - 1 {
                lemma_increasing_below_last(a, i);
            } else {
                lemma_increasing_below_last(a, j);
            }
        }
    }
}

/// Attester `i` holds every flag of `flags` in `s`, and can be updated.
pub open spec fn attester_settled(s: StateView, i: u64, flags: (bool, bool, bool), on_current: bool) -> bool {
    let p = participation_of(s, on_current);
    &&& i < s.validators.len()
    &&& (flags.0 || flags.1 || flags.2) ==> i < p.len()
    &&& flags.0 ==> p[i as int] & 1u8 == 1u8
    &&& flags.1 ==> p[i as int] & 2u8 == 2u8
    &&& flags.2 ==> p[i as int] & 4u8 == 4u8
}

proof fn lemma_participation_updates_settle(
    s: StateView,
    ix: Seq<u64>,
    flags: (bool, bool, bool),
    on_current: bool,
    per_increment: Result<u64, BlockProcessingError>,
    c: ChainSpec,
)
    requires
        participation_updates(s, ix, flags, on_current, per_increment, c) is Ok,
    ensures
        ({
            let s2 = participation_updates(s, ix, flags, on_current, per_increment, c)->Ok_0.0;
            &&& only_flags_and_balances(s, s2)
            &&& s2.balances == s.balances
            &&& forall|j: int| 0 <= j < ix.len() ==> attester_settled(s2, #[trigger] ix[j], flags, on_current)
        }),
    decreases ix.len(),
{
    if ix.len() > 0 {
        let init = ix.drop_last();
        lemma_participation_updates_settle(s, init, flags, on_current, per_increment, c);
        let (s1, n1) = participation_updates(s, init, flags, on_current, per_increment, c)->Ok_0;
        let i = ix.last();
        lemma_index_update_effect(s1, i, flags, on_current, n1, per_increment, c);
        let s2 = index_update(s1, i, flags, on_current, n1, per_increment, c)->Ok_0.0;
        assert forall|j: int| 0 <= j < ix.len() implies attester_settled(s2, #[trigger] ix[j], flags, on_current) by {
            if j < init.len() {
                assert(init[j] == ix[j]);
                assert(attester_settled(s1, init[j], flags, on_current));
            }
        }
    }
}

proof fn lemma_settled_updates_change_nothing(
    s: StateView,
    ix: Seq<u64>,
    flags: (bool, bool, bool),
    on_current: bool,
    per_increment: Result<u64, BlockProcessingError>,
    c: ChainSpec,
)
    requires
        forall|j: int| 0 <= j < ix.len() ==> attester_settled(s, #[trigger] ix[j], flags, on_current),
    ensures
        participation_updates(s, ix, flags, on_current, per_increment, c) == Ok::<
            (StateView, u64),
            BlockProcessingError,
        >((s, 0)),
    decreases ix.len(),
{
    if ix.len() > 0 {
        let init = ix.drop_last();
        assert forall|j: int| 0 <= j < init.len() implies attester_settled(s, #[trigger] init[j], flags, on_current) by {
            assert(init[j] == ix[j]);
        }
        lemma_settled_updates_change_nothing(s, init, flags, on_current, per_increment, c);
        assert(attester_settled(s, ix[ix.len() - 1], flags, on_current));
    }
}

/// Including the same attestation a second time (since Altair), where it
/// still passes the checks for inclusion, has no further effect: its
/// attesters hold every flag it could set, so nothing changes and its
/// proposer earns nothing more.
pub proof fn lemma_attestation_twice_is_once(
    s: StateView,
    a: AttestationView,
    k: nat,
    k2: nat,
    verify: bool,
    proposer: u64,
    c: ChainSpec,
)
    requires
        attestation_outcome(s, a, k, verify, proposer, c) is Ok,
        attestation_for_block(attestation_outcome(s, a, k, verify, proposer, c)->Ok_0, a, k2, verify, c) is Ok,
    ensures
        attestation_outcome(attestation_outcome(s, a, k, verify, proposer, c)->Ok_0, a, k2, verify, proposer, c)
            == attestation_outcome(s, a, k, verify, proposer, c),
{
    let ix = attestation_for_block(s, a, k, verify, c)->Ok_0;
    let flags = participation_flags(s, a.data, (s.slot - a.data.slot) as u64, c)->Ok_0;
    let on_current = a.data.target.epoch == crate::beacon_state::current_epoch(s, c);
    let per = state_reward_per_increment(s, c);
    lemma_participation_updates_settle(s, ix, flags, on_current, per, c);
    let (s1, num) = participation_updates(s, ix, flags, on_current, per, c)->Ok_0;
    let s2 = attestation_outcome(s, a, k, verify, proposer, c)->Ok_0;
    assert(only_flags_and_balances(s, s2));
    assert(participation_of(s2, on_current) == participation_of(s1, on_current));
    assert forall|j: int| 0 <= j < ix.len() implies attester_settled(s2, #[trigger] ix[j], flags, on_current) by {
        assert(attester_settled(s1, ix[j], flags, on_current));
    }
    assert(attesting_indices(s2, a, c) == attesting_indices(s, a, c));
    assert(attestation_for_block(s2, a, k2, verify, c)->Ok_0 == ix);
    assert(participation_flags(s2, a.data, (s2.slot - a.data.slot) as u64, c) == participation_flags(
        s,
        a.data,
        (s.slot - a.data.slot) as u64,
        c,
    ));
    assert(crate::beacon_state::current_epoch(s2, c) == crate::beacon_state::current_epoch(s, c));
    let per2 = state_reward_per_increment(s2, c);
    lemma_settled_updates_change_nothing(s2, ix, flags, on_current, per2, c);
    assert(s2.balances.update(proposer as int, (s2.balances[proposer as int] + 0) as u64) =~= s2.balances);
}

/// Every processed batch leads to a sync-state update once its sync is done
/// with it: a range batch at once, a backfill batch when backfill reports it
/// completed or failed, and only then.
pub proof fn lemma_processed_batches_update_sync_state(ctx: SearchContext, outcome: BackfillOutcome)
    ensures
        message_actions(SyncEvent::BatchProcessed { sync_type: ChainSegmentKind::RangeBatch }, ctx).contains(
            SyncAction::UpdateSyncState,
        ),
        message_actions(SyncEvent::BatchProcessed { sync_type: ChainSegmentKind::BackSyncBatch }, ctx)
            == seq![SyncAction::BackfillBatchProcessed],
        message_actions(SyncEvent::BackfillBatchResult { outcome }, ctx).contains(SyncAction::UpdateSyncState)
            <==> !(outcome is Successful),
{
    let r = message_actions(SyncEvent::BatchProcessed { sync_type: ChainSegmentKind::RangeBatch }, ctx);
    assert(r[1] == SyncAction::UpdateSyncState);
    let b = message_actions(SyncEvent::BackfillBatchResult { outcome }, ctx);
    if !(outcome is Successful) {
        assert(b[0] == SyncAction::UpdateSyncState);
    }
}

/// A partial withdrawal request (not a full exit) whose validator cannot
/// withdraw an excess, because it is unknown, lacks compounding credentials,
/// or holds no balance above the activation balance, queues nothing: the
/// state stays as it was.
pub proof fn lemma_withdrawal_request_without_excess_queues_nothing(
    s: StateView,
    r: WithdrawalRequestView,
    c: ChainSpec,
)
    requires
        withdrawal_request_step(s, r, c) is Ok,
        r.amount != c.full_exit_request_amount,
        match pubkey_index(s.validators, r.validator_pubkey) {
            None => true,
            Some(i) => !crate::beacon_state::has_compounding_withdrawal_credential(s.validators[i as int])
                || s.validators[i as int].effective_balance < c.min_activation_balance
                || s.balances[i as int] <= c.min_activation_balance,
        },
    ensures
        withdrawal_request_step(s, r, c) == Ok::<StateView, BlockProcessingError>(s),
{
}

/// A withdrawal request queues at most one partial withdrawal, for the
/// requesting validator, and its amount is never more than the requested
/// amount nor more than the validator's balance above the activation balance
/// and what it already has pending to withdraw.
pub proof fn lemma_partial_withdrawal_within_excess(s: StateView, r: WithdrawalRequestView, c: ChainSpec)
    requires
        s.validators.len() <= u64::MAX,
        withdrawal_request_step(s, r, c) is Ok,
    ensures
        ({
            let s2 = withdrawal_request_step(s, r, c)->Ok_0;
            s2.pending_partial_withdrawals.len() > s.pending_partial_withdrawals.len() ==> {
                let w = s2.pending_partial_withdrawals.last();
                &&& s2.pending_partial_withdrawals.len() == s.pending_partial_withdrawals.len() + 1
                &&& s2.pending_partial_withdrawals.drop_last() == s.pending_partial_withdrawals
                &&& pubkey_index(s.validators, r.validator_pubkey) matches Some(i)
                &&& w.validator_index == i
                &&& w.amount <= r.amount
                &&& pending_balance_to_withdraw(s, i) matches Ok(pending)
                &&& w.amount + c.min_activation_balance + pending <= s.balances[i as int]
            }
        }),
{
    let s2 = withdrawal_request_step(s, r, c)->Ok_0;
    let full = r.amount == c.full_exit_request_amount;
    if s2.pending_partial_withdrawals.len() > s.pending_partial_withdrawals.len() {
        assert(s.electra_enabled());
        let i = pubkey_index(s.validators, r.validator_pubkey)->0;
        let pending = pending_balance_to_withdraw(s, i)->Ok_0;
        if full {
            if pending == 0 {
                let v = s.validators[i as int];
                if v.exit_epoch == c.far_future_epoch {
                    let (s3, q) = compute_exit_epoch_and_update_churn(s, v.effective_balance, c)->Ok_0;
                    assert(s3.pending_partial_withdrawals == s.pending_partial_withdrawals);
                }
                assert(s2.pending_partial_withdrawals == s.pending_partial_withdrawals);
            }
            assert(false);
        } else {
            let balance = s.balances[i as int];
            let excess = (balance - c.min_activation_balance - pending) as u64;
            let to_withdraw = if excess <= r.amount {
                excess
            } else {
                r.amount
            };
            let (s3, q) = compute_exit_epoch_and_update_churn(s, to_withdraw, c)->Ok_0;
            assert(s3.pending_partial_withdrawals == s.pending_partial_withdrawals);
            assert(s2.pending_partial_withdrawals.last().amount == to_withdraw);
            assert(s2.pending_partial_withdrawals.drop_last() =~= s.pending_partial_withdrawals);
        }
    }
}

/// A consolidation of one validator into another whose withdrawal
/// credentials are not compounding (0x02) is ignored: where the request does
/// not fail, the state stays as it was.
pub proof fn lemma_consolidation_needs_compounding_target(
    s: StateView,
    r: crate::operations::ConsolidationRequestView,
    c: ChainSpec,
)
    requires
        r.source_pubkey != r.target_pubkey,
        pubkey_index(s.validators, r.target_pubkey) matches Some(ti)
            && s.validators[ti as int].withdrawal_credentials[0] != COMPOUNDING_WITHDRAWAL_PREFIX,
        consolidation_request_step(s, r, c) is Ok,
    ensures
        consolidation_request_step(s, r, c) == Ok::<StateView, BlockProcessingError>(s),
{
}

/// A valid change of BLS withdrawal credentials gives the validator eth1
/// address credentials: the 0x01 prefix, eleven zero bytes, then the
/// requested execution address; every other validator, and every other field
/// of this one, stays.
pub proof fn lemma_bls_change_gives_eth1_credentials(
    s: StateView,
    sc: SignedBlsToExecutionChangeView,
    k: nat,
    verify: bool,
    c: ChainSpec,
)
    requires
        bls_to_execution_change_step(s, sc, k, verify, c) is Ok,
    ensures
        ({
            let s2 = bls_to_execution_change_step(s, sc, k, verify, c)->Ok_0;
            let i = sc.message.validator_index as int;
            let w = s2.validators[i].withdrawal_credentials;
            let a = sc.message.to_execution_address;
            &&& 0 <= i < s.validators.len()
            &&& s2.validators.len() == s.validators.len()
            &&& w.len() == 12 + a.len()
            &&& w[0] == ETH1_ADDRESS_WITHDRAWAL_PREFIX
            &&& forall|j: int| 1 <= j < 12 ==> w[j] == 0u8
            &&& w.subrange(12, w.len() as int) == a
            &&& s2.validators[i].pubkey == s.validators[i].pubkey
            &&& s2.validators[i].effective_balance == s.validators[i].effective_balance
            &&& forall|j: int| 0 <= j < s.validators.len() && j != i ==> s2.validators[j] == s.validators[j]
            &&& s2.balances == s.balances
        }),
{
    let s2 = bls_to_execution_change_step(s, sc, k, verify, c)->Ok_0;
    let i = sc.message.validator_index as int;
    let w = s2.validators[i].withdrawal_credentials;
    let a = sc.message.to_execution_address;
    assert(w.subrange(12, w.len() as int) =~= a);
}

/// A response is handed to the handler of the request that asked for it,
/// whatever the node's state: a block to the single-block or blocks-by-range
/// handler, a blob to the single-blob or blobs-by-range handler, a column to
/// the columns-by-root or columns-by-range handler; a response to a request
/// that did not ask for it is dropped as a bad request id.
pub proof fn lemma_responses_reach_their_handlers(ctx: SearchContext, request: SyncRequestKind)
    ensures
        message_actions(SyncEvent::RpcBlock { request }, ctx) == match request {
            SyncRequestKind::SingleBlock => seq![SyncAction::SingleBlockResponse],
            SyncRequestKind::BlocksByRange => seq![SyncAction::BlocksByRangeResponse],
            _ => seq![SyncAction::BadRequestId],
        },
        message_actions(SyncEvent::RpcBlob { request }, ctx) == match request {
            SyncRequestKind::SingleBlob => seq![SyncAction::SingleBlobResponse],
            SyncRequestKind::BlobsByRange => seq![SyncAction::BlobsByRangeResponse],
            _ => seq![SyncAction::BadRequestId],
        },
        message_actions(SyncEvent::RpcDataColumn { request }, ctx) == match request {
            SyncRequestKind::DataColumnsByRoot => seq![SyncAction::DataColumnsByRootResponse],
            SyncRequestKind::DataColumnsByRange => seq![SyncAction::DataColumnsByRangeResponse],
            _ => seq![SyncAction::BadRequestId],
        },
{
}

/// A stored ENR is reused only where it announces what the local one does:
/// the same TCP and QUIC ports, fork id, subnet bitfields and custody group
/// count, and the same addresses and UDP ports wherever the local one sets
/// them.
pub proof fn lemma_reused_enr_announces_the_same(local: EnrFields, disk: EnrFields)
    requires
        enr_matches(local, disk),
    ensures
        local.cgc == disk.cgc,
        local.tcp4 == disk.tcp4,
        local.tcp6 == disk.tcp6,
        local.quic4 == disk.quic4,
        local.quic6 == disk.quic6,
        opt_bytes(local.eth2) == opt_bytes(disk.eth2),
        opt_bytes(local.attnets) == opt_bytes(disk.attnets),
        opt_bytes(local.syncnets) == opt_bytes(disk.syncnets),
        local.ip4 is Some ==> local.ip4 == disk.ip4,
        local.ip6 is Some ==> local.ip6 == disk.ip6,
        local.udp4 is Some ==> local.udp4 == disk.udp4,
        local.udp6 is Some ==> local.udp6 == disk.udp6,
{
}

/// A consolidation that is queued names the requested source and target,
/// two distinct validators, the target holding compounding credentials and
/// the source withdrawing to the requesting address; the source's exit is
/// then set, and the queue keeps its earlier entries.
pub proof fn lemma_queued_consolidation_is_the_requested_one(
    s: StateView,
    r: crate::operations::ConsolidationRequestView,
    c: ChainSpec,
)
    requires
        s.validators.len() <= u64::MAX,
        consolidation_request_step(s, r, c) is Ok,
        consolidation_request_step(s, r, c)->Ok_0.pending_consolidations.len() > s.pending_consolidations.len(),
    ensures
        ({
            let s2 = consolidation_request_step(s, r, c)->Ok_0;
            let q = s2.pending_consolidations.last();
            &&& s2.pending_consolidations.drop_last() == s.pending_consolidations
            &&& r.source_pubkey != r.target_pubkey
            &&& pubkey_index(s.validators, r.source_pubkey) == Some(q.source_index as nat)
            &&& pubkey_index(s.validators, r.target_pubkey) == Some(q.target_index as nat)
            &&& s.validators[q.target_index as int].withdrawal_credentials[0] == COMPOUNDING_WITHDRAWAL_PREFIX
            &&& s.validators[q.source_index as int].withdrawal_credentials.subrange(12, 32) == r.source_address
            &&& s.validators[q.source_index as int].exit_epoch == c.far_future_epoch
            &&& s2.validators[q.source_index as int].withdrawable_epoch == s2.validators[q.source_index as int].exit_epoch
                + c.min_validator_withdrawability_delay
        }),
{
    let s2 = consolidation_request_step(s, r, c)->Ok_0;
    if crate::process_operations::valid_switch_to_compounding(s, r, c) {
        let i = pubkey_index(s.validators, r.source_pubkey)->0;
        assert(s2.pending_consolidations == s.pending_consolidations);
    } else {
        let si = pubkey_index(s.validators, r.source_pubkey)->0;
        let ti = pubkey_index(s.validators, r.target_pubkey)->0;
        let sv = s.validators[si as int];
        let (s3, e) = compute_consolidation_epoch_and_update_churn(s, sv.effective_balance, c)->Ok_0;
        assert(s3.validators == s.validators);
        assert(s3.pending_consolidations == s.pending_consolidations);
        assert(s2.pending_consolidations.last() == crate::beacon_state::PendingConsolidation {
            source_index: si as u64,
            target_index: ti as u64,
        });
        assert(s2.validators[si as int].exit_epoch == e);
    }
    assert(s2.pending_consolidations.drop_last() =~= s.pending_consolidations);
}

/// Every ENR matches itself, and the fields that the local ENR leaves unset
/// (addresses and UDP ports) do not matter.
pub proof fn lemma_enr_matches_itself(local: EnrFields, disk: EnrFields)
    ensures
        enr_matches(local, local),
        local.ip4 is None && local.ip6 is None && local.udp4 is None && local.udp6 is None ==> (enr_matches(
            local,
            disk,
        ) == enr_matches(local, EnrFields { ip4: None, ip6: None, udp4: None, udp6: None, ..disk })),
{
}

} // verus!
