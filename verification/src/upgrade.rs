//! The upgrade of an Electra state to Fulu.
use vstd::prelude::*;
use crate::spec::{ChainSpec, ForkName};
use crate::errors::BeaconStateError;
use crate::beacon_state::{
    BeaconState, CACHED_EPOCHS, CommitteeCache, CommitteeCacheView, Eth1Data, Fork, PendingAttestation, PendingDeposit, StateView, Validator,
    copy_bytes, current_epoch,
};
use crate::operations::Checkpoint;

verus! {

/// A copy of a vector of plain values.
pub fn copy_vec<T: Copy>(v: &Vec<T>) -> (r: Vec<T>)
    ensures
        r@ == v@,
{
    let mut r: Vec<T> = Vec::new();
    let mut i: usize = 0;
    while i < v.len()
        invariant
            i <= v.len(),
            r@ == v@.take(i as int),
        decreases v.len() - i,
    {
        r.push(v[i]);
        i = i + 1;
        assert(r@ =~= v@.take(i as int));
    }
    assert(v@.take(i as int) =~= v@);
    r
}

/// A copy of a list of byte strings.
pub fn copy_byte_vecs(v: &Vec<Vec<u8>>) -> (r: Vec<Vec<u8>>)
    ensures
        r@.map_values(|b: Vec<u8>| b@) == v@.map_values(|b: Vec<u8>| b@),
{
    let mut r: Vec<Vec<u8>> = Vec::new();
    let mut i: usize = 0;
    while i < v.len()
        invariant
            i <= v.len(),
            r@.map_values(|b: Vec<u8>| b@) == v@.take(i as int).map_values(|b: Vec<u8>| b@),
        decreases v.len() - i,
    {
        let ghost before = r@;
        let nb = copy_bytes(&v[i]);
        r.push(nb);
        assert(r@.map_values(|b: Vec<u8>| b@) =~= before.map_values(|b: Vec<u8>| b@).push(nb@));
        assert(v@.take(i + 1).map_values(|b: Vec<u8>| b@) =~= v@.take(i as int).map_values(|b: Vec<u8>| b@).push(
            v@[i as int]@,
        ));
        i = i + 1;
    }
    assert(v@.take(i as int) =~= v@);
    r
}

pub(crate) fn copy_pending_deposits(v: &Vec<PendingDeposit>) -> (r: Vec<PendingDeposit>)
    ensures
        r@.map_values(|d: PendingDeposit| d@) == v@.map_values(|d: PendingDeposit| d@),
{
    let mut r: Vec<PendingDeposit> = Vec::new();
    let mut i: usize = 0;
    while i < v.len()
        invariant
            i <= v.len(),
            r@.map_values(|d: PendingDeposit| d@) == v@.take(i as int).map_values(|d: PendingDeposit| d@),
        decreases v.len() - i,
    {
        let d = &v[i];
        let ghost before = r@;
        let nd = PendingDeposit {
            pubkey: copy_bytes(&d.pubkey),
            withdrawal_credentials: copy_bytes(&d.withdrawal_credentials),
            amount: d.amount,
            signature: copy_bytes(&d.signature),
            slot: d.slot,
        };
        assert(nd@ == d@);
        r.push(nd);
        assert(r@ == before.push(nd));
        assert(r@.map_values(|d: PendingDeposit| d@) =~= before.map_values(|d: PendingDeposit| d@).push(nd@));
        assert(v@.take(i + 1).map_values(|d: PendingDeposit| d@) =~= v@.take(i as int).map_values(
            |d: PendingDeposit| d@,
        ).push(v@[i as int]@));
        i = i + 1;
    }
    assert(v@.take(i as int) =~= v@);
    r
}

/// The Fulu state that an Electra state becomes: the same state, its fork
/// record moved on to the Fulu version at the current epoch.
pub open spec fn fulu_state(pre: StateView, c: ChainSpec) -> StateView {
    StateView {
        fork_name: ForkName::Fulu,
        fork: Fork {
            previous_version: pre.fork.current_version,
            current_version: c.fulu_fork_version,
            epoch: current_epoch(pre, c),
        },
        ..pre
    }
}

/// A committee cache that was never built.
pub open spec fn unbuilt_committee_cache() -> CommitteeCacheView {
    CommitteeCacheView { initialized_epoch: None, committees_per_slot: 0, shuffling: Seq::empty() }
}

/// What an upgrade leaves of the Electra state: the registry, balances,
/// participation, inactivity scores and pending attestations have been moved
/// out, and its committee caches replaced by unbuilt ones.
pub open spec fn emptied_state(pre: StateView) -> StateView {
    StateView {
        validators: Seq::empty(),
        balances: Seq::empty(),
        previous_epoch_participation: Seq::empty(),
        current_epoch_participation: Seq::empty(),
        inactivity_scores: Seq::empty(),
        committee_caches: Seq::new(CACHED_EPOCHS as nat, |i: int| unbuilt_committee_cache()),
        previous_epoch_attestations: Seq::empty(),
        current_epoch_attestations: Seq::empty(),
        ..pre
    }
}

/// As many unbuilt committee caches as a state holds.
fn unbuilt_committee_caches() -> (r: Vec<CommitteeCache>)
    ensures
        r@.map_values(|k: CommitteeCache| k@) == Seq::new(CACHED_EPOCHS as nat, |i: int| unbuilt_committee_cache()),
{
    let mut r: Vec<CommitteeCache> = Vec::new();
    let mut i: usize = 0;
    while i < CACHED_EPOCHS
        invariant
            i <= CACHED_EPOCHS,
            r.len() == i,
            forall|j: int| 0 <= j < r.len() ==> (#[trigger] r@[j])@ == unbuilt_committee_cache(),
        decreases CACHED_EPOCHS - i,
    {
        let k = CommitteeCache { initialized_epoch: None, committees_per_slot: 0, shuffling: Vec::new() };
        assert(k.shuffling@ =~= Seq::<u64>::empty());
        r.push(k);
        i = i + 1;
    }
    assert(r@.map_values(|k: CommitteeCache| k@) =~= Seq::new(CACHED_EPOCHS as nat, |i: int| unbuilt_committee_cache()));
    r
}

/// Builds the Fulu state from an Electra state, moving out its largest
/// lists; any other state is refused.
pub fn upgrade_state_to_fulu(pre_state: &mut BeaconState, c: &ChainSpec) -> (r: Result<BeaconState, BeaconStateError>)
    requires
        c.valid(),
    ensures
        old(pre_state).fork_name != ForkName::Electra ==> r == Err::<BeaconState, BeaconStateError>(
            BeaconStateError::IncorrectStateVariant,
        ) && final(pre_state)@ == old(pre_state)@,
        old(pre_state).fork_name == ForkName::Electra ==> (r matches Ok(post) && post@ == fulu_state(
            old(pre_state)@,
            *c,
        ) && final(pre_state)@ == emptied_state(old(pre_state)@)),
{
    if pre_state.fork_name != ForkName::Electra {
        return Err(BeaconStateError::IncorrectStateVariant);
    }
    let epoch = pre_state.current_epoch(c);
    let ghost pre = pre_state@;
    let mut validators: Vec<Validator> = Vec::new();
    core::mem::swap(&mut validators, &mut pre_state.validators);
    let mut balances: Vec<u64> = Vec::new();
    core::mem::swap(&mut balances, &mut pre_state.balances);
    let mut previous_epoch_participation: Vec<u8> = Vec::new();
    core::mem::swap(&mut previous_epoch_participation, &mut pre_state.previous_epoch_participation);
    let mut current_epoch_participation: Vec<u8> = Vec::new();
    core::mem::swap(&mut current_epoch_participation, &mut pre_state.current_epoch_participation);
    let mut inactivity_scores: Vec<u64> = Vec::new();
    core::mem::swap(&mut inactivity_scores, &mut pre_state.inactivity_scores);
    let mut committee_caches: Vec<CommitteeCache> = unbuilt_committee_caches();
    core::mem::swap(&mut committee_caches, &mut pre_state.committee_caches);
    let mut previous_epoch_attestations: Vec<PendingAttestation> = Vec::new();
    core::mem::swap(&mut previous_epoch_attestations, &mut pre_state.previous_epoch_attestations);
    let mut current_epoch_attestations: Vec<PendingAttestation> = Vec::new();
    core::mem::swap(&mut current_epoch_attestations, &mut pre_state.current_epoch_attestations);
    let post = BeaconState {
        fork_name: ForkName::Fulu,
        genesis_validators_root: copy_bytes(&pre_state.genesis_validators_root),
        slot: pre_state.slot,
        fork: Fork {
            previous_version: pre_state.fork.current_version,
            current_version: c.fulu_fork_version,
            epoch,
        },
        block_roots: copy_byte_vecs(&pre_state.block_roots),
        validators,
        balances,
        slashings: copy_vec(&pre_state.slashings),
        previous_epoch_participation,
        current_epoch_participation,
        inactivity_scores,
        current_sync_committee: copy_byte_vecs(&pre_state.current_sync_committee),
        previous_justified_checkpoint: Checkpoint {
            epoch: pre_state.previous_justified_checkpoint.epoch,
            root: copy_bytes(&pre_state.previous_justified_checkpoint.root),
        },
        current_justified_checkpoint: Checkpoint {
            epoch: pre_state.current_justified_checkpoint.epoch,
            root: copy_bytes(&pre_state.current_justified_checkpoint.root),
        },
        committee_caches,
        previous_epoch_attestations,
        current_epoch_attestations,
        eth1_data: Eth1Data {
            deposit_root: copy_bytes(&pre_state.eth1_data.deposit_root),
            deposit_count: pre_state.eth1_data.deposit_count,
            block_hash: copy_bytes(&pre_state.eth1_data.block_hash),
        },
        eth1_deposit_index: pre_state.eth1_deposit_index,
        deposit_requests_start_index: pre_state.deposit_requests_start_index,
        exit_balance_to_consume: pre_state.exit_balance_to_consume,
        earliest_exit_epoch: pre_state.earliest_exit_epoch,
        consolidation_balance_to_consume: pre_state.consolidation_balance_to_consume,
        earliest_consolidation_epoch: pre_state.earliest_consolidation_epoch,
        pending_deposits: copy_pending_deposits(&pre_state.pending_deposits),
        pending_partial_withdrawals: copy_vec(&pre_state.pending_partial_withdrawals),
        pending_consolidations: copy_vec(&pre_state.pending_consolidations),
    };
    assert(post@.validators == pre.validators);
    assert(post@ =~= fulu_state(pre, *c));
    assert(pre_state.validators@.map_values(|v: Validator| v@) =~= Seq::<crate::beacon_state::ValidatorView>::empty());
    assert(pre_state.committee_caches@.map_values(|k: CommitteeCache| k@) =~= Seq::new(
        CACHED_EPOCHS as nat,
        |i: int| unbuilt_committee_cache(),
    ));
    assert(pre_state.previous_epoch_attestations@.map_values(|a: PendingAttestation| a@) =~= Seq::<
        crate::beacon_state::PendingAttestationView,
    >::empty());
    assert(pre_state.current_epoch_attestations@.map_values(|a: PendingAttestation| a@) =~= Seq::<
        crate::beacon_state::PendingAttestationView,
    >::empty());
    assert(pre_state@ =~= emptied_state(pre));
    Ok(post)
}

/// Upgrades an Electra state to Fulu in place; any other state is refused
/// and left as it is.
pub fn upgrade_to_fulu(pre_state: &mut BeaconState, c: &ChainSpec) -> (r: Result<(), BeaconStateError>)
    requires
        c.valid(),
    ensures
        old(pre_state).fork_name != ForkName::Electra ==> r == Err::<(), BeaconStateError>(
            BeaconStateError::IncorrectStateVariant,
        ) && final(pre_state)@ == old(pre_state)@,
        old(pre_state).fork_name == ForkName::Electra ==> r is Ok && final(pre_state)@ == fulu_state(
            old(pre_state)@,
            *c,
        ),
{
    let post = upgrade_state_to_fulu(pre_state, c)?;
    *pre_state = post;
    Ok(())
}

} // verus!
