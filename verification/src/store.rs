//! How a full beacon state is kept in the database: with the committee
//! caches it was using, so that they need not be computed again.
use vstd::prelude::*;
use crate::beacon_state::{
    BeaconState, CACHED_EPOCHS, CommitteeCache, CommitteeCacheView, Eth1Data, PendingAttestation,
    PendingAttestationView, StateView, Validator, ValidatorView, copy_bytes,
};
use crate::attestations::{copy_bits, copy_data};
use crate::operations::Checkpoint;
use crate::upgrade::{copy_byte_vecs, copy_vec};

verus! {

fn copy_validators(v: &Vec<Validator>) -> (r: Vec<Validator>)
    ensures
        r@.map_values(|x: Validator| x@) == v@.map_values(|x: Validator| x@),
{
    let mut r: Vec<Validator> = Vec::new();
    let mut i: usize = 0;
    while i < v.len()
        invariant
            i <= v.len(),
            r@.map_values(|x: Validator| x@) == v@.take(i as int).map_values(|x: Validator| x@),
        decreases v.len() - i,
    {
        let x = &v[i];
        let ghost before = r@;
        let y = Validator {
            pubkey: copy_bytes(&x.pubkey),
            withdrawal_credentials: copy_bytes(&x.withdrawal_credentials),
            effective_balance: x.effective_balance,
            slashed: x.slashed,
            activation_eligibility_epoch: x.activation_eligibility_epoch,
            activation_epoch: x.activation_epoch,
            exit_epoch: x.exit_epoch,
            withdrawable_epoch: x.withdrawable_epoch,
        };
        assert(y@ == x@);
        r.push(y);
        assert(r@.map_values(|x: Validator| x@) =~= before.map_values(|x: Validator| x@).push(y@));
        assert(v@.take(i + 1).map_values(|x: Validator| x@) =~= v@.take(i as int).map_values(|x: Validator| x@).push(
            v@[i as int]@,
        ));
        i = i + 1;
    }
    assert(v@.take(i as int) =~= v@);
    r
}

fn copy_committee_caches(v: &Vec<CommitteeCache>) -> (r: Vec<CommitteeCache>)
    ensures
        r@.map_values(|x: CommitteeCache| x@) == v@.map_values(|x: CommitteeCache| x@),
{
    let mut r: Vec<CommitteeCache> = Vec::new();
    let mut i: usize = 0;
    while i < v.len()
        invariant
            i <= v.len(),
            r@.map_values(|x: CommitteeCache| x@) == v@.take(i as int).map_values(|x: CommitteeCache| x@),
        decreases v.len() - i,
    {
        let x = &v[i];
        let ghost before = r@;
        let y = CommitteeCache {
            initialized_epoch: x.initialized_epoch,
            committees_per_slot: x.committees_per_slot,
            shuffling: copy_vec(&x.shuffling),
        };
        assert(y@ == x@);
        r.push(y);
        assert(r@.map_values(|x: CommitteeCache| x@) =~= before.map_values(|x: CommitteeCache| x@).push(y@));
        assert(v@.take(i + 1).map_values(|x: CommitteeCache| x@) =~= v@.take(i as int).map_values(
            |x: CommitteeCache| x@,
        ).push(v@[i as int]@));
        i = i + 1;
    }
    assert(v@.take(i as int) =~= v@);
    r
}

fn copy_pending_attestations(v: &Vec<PendingAttestation>) -> (r: Vec<PendingAttestation>)
    ensures
        r@.map_values(|x: PendingAttestation| x@) == v@.map_values(|x: PendingAttestation| x@),
{
    let mut r: Vec<PendingAttestation> = Vec::new();
    let mut i: usize = 0;
    while i < v.len()
        invariant
            i <= v.len(),
            r@.map_values(|x: PendingAttestation| x@) == v@.take(i as int).map_values(|x: PendingAttestation| x@),
        decreases v.len() - i,
    {
        let x = &v[i];
        let ghost before = r@;
        let y = PendingAttestation {
            aggregation_bits: copy_bits(&x.aggregation_bits),
            data: copy_data(&x.data),
            inclusion_delay: x.inclusion_delay,
            proposer_index: x.proposer_index,
        };
        assert(y@ == x@);
        r.push(y);
        assert(r@.map_values(|x: PendingAttestation| x@) =~= before.map_values(|x: PendingAttestation| x@).push(
            y@,
        ));
        assert(v@.take(i + 1).map_values(|x: PendingAttestation| x@) =~= v@.take(i as int).map_values(
            |x: PendingAttestation| x@,
        ).push(v@[i as int]@));
        i = i + 1;
    }
    assert(v@.take(i as int) =~= v@);
    r
}

impl BeaconState {
    /// A copy of the state.
    pub fn duplicate(&self) -> (r: BeaconState)
        ensures
            r@ == self@,
    {
        let r = BeaconState {
            fork_name: self.fork_name,
            genesis_validators_root: copy_bytes(&self.genesis_validators_root),
            slot: self.slot,
            fork: self.fork,
            block_roots: copy_byte_vecs(&self.block_roots),
            validators: copy_validators(&self.validators),
            balances: copy_vec(&self.balances),
            slashings: copy_vec(&self.slashings),
            previous_epoch_participation: copy_vec(&self.previous_epoch_participation),
            current_epoch_participation: copy_vec(&self.current_epoch_participation),
            inactivity_scores: copy_vec(&self.inactivity_scores),
            current_sync_committee: copy_byte_vecs(&self.current_sync_committee),
            previous_justified_checkpoint: Checkpoint {
                epoch: self.previous_justified_checkpoint.epoch,
                root: copy_bytes(&self.previous_justified_checkpoint.root),
            },
            current_justified_checkpoint: Checkpoint {
                epoch: self.current_justified_checkpoint.epoch,
                root: copy_bytes(&self.current_justified_checkpoint.root),
            },
            committee_caches: copy_committee_caches(&self.committee_caches),
            previous_epoch_attestations: copy_pending_attestations(&self.previous_epoch_attestations),
            current_epoch_attestations: copy_pending_attestations(&self.current_epoch_attestations),
            eth1_data: Eth1Data {
                deposit_root: copy_bytes(&self.eth1_data.deposit_root),
                deposit_count: self.eth1_data.deposit_count,
                block_hash: copy_bytes(&self.eth1_data.block_hash),
            },
            eth1_deposit_index: self.eth1_deposit_index,
            deposit_requests_start_index: self.deposit_requests_start_index,
            exit_balance_to_consume: self.exit_balance_to_consume,
            earliest_exit_epoch: self.earliest_exit_epoch,
            consolidation_balance_to_consume: self.consolidation_balance_to_consume,
            earliest_consolidation_epoch: self.earliest_consolidation_epoch,
            pending_deposits: crate::upgrade::copy_pending_deposits(&self.pending_deposits),
            pending_partial_withdrawals: copy_vec(&self.pending_partial_withdrawals),
            pending_consolidations: copy_vec(&self.pending_consolidations),
        };
        assert(r@ =~= self@);
        r
    }
}

/// The state with its committee caches replaced.
pub open spec fn with_caches(s: StateView, caches: Seq<CommitteeCacheView>) -> StateView {
    StateView { committee_caches: caches, ..s }
}

/// The stored state with the first stored caches in place.
pub open spec fn restored_state(s: StateView, caches: Seq<CommitteeCacheView>) -> StateView {
    with_caches(s, caches.take(CACHED_EPOCHS as int))
}

/// A container for storing a beacon state with its committee caches.
pub struct StorageContainer {
    state: BeaconState,
    committee_caches: Vec<CommitteeCache>,
}

impl StorageContainer {
    pub closed spec fn spec_state(&self) -> StateView {
        self.state@
    }

    pub closed spec fn spec_committee_caches(&self) -> Seq<CommitteeCacheView> {
        self.committee_caches@.map_values(|x: CommitteeCache| x@)
    }

    /// Create a new instance for storing a `BeaconState`.
    pub fn new(state: &BeaconState) -> (r: Self)
        ensures
            r.spec_state() == state@,
            r.spec_committee_caches() == state@.committee_caches,
    {
        StorageContainer {
            state: state.duplicate(),
            committee_caches: copy_committee_caches(&state.committee_caches),
        }
    }

    /// A container as it was read back: a state and the caches stored with
    /// it.
    pub fn from_parts(state: BeaconState, committee_caches: Vec<CommitteeCache>) -> (r: Self)
        ensures
            r.spec_state() == state@,
            r.spec_committee_caches() == committee_caches@.map_values(|x: CommitteeCache| x@),
    {
        StorageContainer { state, committee_caches }
    }

    /// The stored state with the stored caches back in place; refused where
    /// fewer caches than the state keeps were stored.
    pub fn try_into(self) -> (r: Result<BeaconState, StoreError>)
        requires
            self.spec_state().committee_caches.len() == CACHED_EPOCHS,
        ensures
            self.spec_committee_caches().len() < CACHED_EPOCHS ==> (r matches Err(StoreError::SszDecodeError(m))
                && m@ == "Insufficient committees for BeaconState"@),
            self.spec_committee_caches().len() >= CACHED_EPOCHS ==> (r matches Ok(s) && s@ == restored_state(
                self.spec_state(),
                self.spec_committee_caches(),
            )),
    {
        let mut state = self.state;
        let mut caches = self.committee_caches;
        let ghost all = caches@.map_values(|x: CommitteeCache| x@);
        let ghost s0 = state@;
        if caches.len() < CACHED_EPOCHS {
            return Err(StoreError::SszDecodeError(String::from_str("Insufficient committees for BeaconState")));
        }
        let mut i: usize = CACHED_EPOCHS;
        while i > 0
            invariant
                i <= CACHED_EPOCHS,
                all.len() >= CACHED_EPOCHS,
                caches.len() >= i,
                caches@.map_values(|x: CommitteeCache| x@).take(i as int) == all.take(i as int),
                state.committee_caches.len() == CACHED_EPOCHS,
                forall|j: int| i <= j < CACHED_EPOCHS ==> state@.committee_caches[j] == all[j],
                state@ == with_caches(s0, state@.committee_caches),
            decreases i,
        {
            i = i - 1;
            let ghost before = caches@;
            assert(before.map_values(|x: CommitteeCache| x@).take(i + 1)[i as int] == all.take(i + 1)[i as int]);
            let cache = caches.remove(i);
            assert(caches@ =~= before.subrange(0, i as int) + before.subrange(i + 1, before.len() as int));
            assert(cache@ == all[i as int]);
            assert forall|j: int| 0 <= j < i implies caches@.map_values(|x: CommitteeCache| x@).take(i as int)[j]
                == all.take(i as int)[j] by {
                assert(before.map_values(|x: CommitteeCache| x@).take(i + 1)[j] == all.take(i + 1)[j]);
            }
            assert(caches@.map_values(|x: CommitteeCache| x@).take(i as int) =~= all.take(i as int));
            state.committee_caches.set(i, cache);
        }
        assert(state@.committee_caches =~= all.take(CACHED_EPOCHS as int));
        assert(state@ == restored_state(s0, all));
        Ok(state)
    }
}

/// Why the store could not give back a state.
pub enum StoreError {
    SszDecodeError(String),
}

/// The columns of the key-value store.
#[derive(Clone, Copy, Debug, PartialEq, Eq, Structural)]
pub enum DBColumn {
    BeaconState,
}

/// A write to the key-value store.
pub enum KeyValueStoreOp {
    PutKeyValue(DBColumn, Vec<u8>, Vec<u8>),
}

/// Queues the write of an encoded full state under its root.
pub fn store_full_state(state_root: &Vec<u8>, bytes: Vec<u8>, ops: &mut Vec<KeyValueStoreOp>) -> (r: Result<
    (),
    StoreError,
>)
    ensures
        r is Ok,
        final(ops)@.len() == old(ops)@.len() + 1,
        forall|j: int| 0 <= j < old(ops)@.len() ==> final(ops)@[j] == old(ops)@[j],
        (final(ops)@.last() matches KeyValueStoreOp::PutKeyValue(column, key, value) && column
            == DBColumn::BeaconState && key@ == state_root@ && value@ == bytes@),
{
    let ghost before = ops@;
    ops.push(KeyValueStoreOp::PutKeyValue(DBColumn::BeaconState, copy_bytes(state_root), bytes));
    Ok(())
}

/// The state kept under a root: none where nothing is kept there, the
/// decoding error where the bytes do not decode, else the stored state with
/// its caches restored.
pub fn get_full_state(read: Option<Result<StorageContainer, StoreError>>) -> (r: Result<Option<BeaconState>, StoreError>)
    requires
        read matches Some(Ok(container)) ==> container.spec_state().committee_caches.len() == CACHED_EPOCHS,
    ensures
        read is None ==> r matches Ok(None),
        read matches Some(Err(StoreError::SszDecodeError(m))) ==> (r matches Err(StoreError::SszDecodeError(n))
            && n@ == m@),
        read matches Some(Ok(container)) ==> (container.spec_committee_caches().len() < CACHED_EPOCHS ==> (r matches Err(
            StoreError::SszDecodeError(m),
        ) && m@ == "Insufficient committees for BeaconState"@)),
        read matches Some(Ok(container)) ==> (container.spec_committee_caches().len() >= CACHED_EPOCHS ==> (r matches Ok(
            Some(s),
        ) && s@ == restored_state(container.spec_state(), container.spec_committee_caches()))),
{
    match read {
        None => Ok(None),
        Some(Err(e)) => Err(e),
        Some(Ok(container)) => {
            let state = container.try_into()?;
            Ok(Some(state))
        },
    }
}

} // verus!
