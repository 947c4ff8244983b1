//! The part of the beacon state that block processing reads and writes, with
//! its mathematical model.
use vstd::prelude::*;
use crate::spec::{ChainSpec, ForkName};
use crate::errors::{ArithError, BlockProcessingError};
use crate::operations::{AttestationData, AttestationDataView, Checkpoint, CheckpointView};

verus! {

/// Compares two byte strings.
pub fn bytes_eq(a: &Vec<u8>, b: &Vec<u8>) -> (r: bool)
    ensures
        r == (a@ == b@),
{
    if a.len() != b.len() {
        return false;
    }
    let mut i: usize = 0;
    while i < a.len()
        invariant
            a.len() == b.len(),
            i <= a.len(),
            forall|j: int| 0 <= j < i ==> a@[j] == b@[j],
        decreases a.len() - i,
    {
        if a[i] != b[i] {
            return false;
        }
        i = i + 1;
    }
    assert(a@ =~= b@);
    true
}

/// Copies a byte string.
pub fn copy_bytes(a: &Vec<u8>) -> (r: Vec<u8>)
    ensures
        r@ == a@,
{
    let r = a.clone();
    assert(r@ =~= a@);
    r
}

/// A validator record.
pub struct Validator {
    pub pubkey: Vec<u8>,
    pub withdrawal_credentials: Vec<u8>,
    pub effective_balance: u64,
    pub slashed: bool,
    pub activation_eligibility_epoch: u64,
    pub activation_epoch: u64,
    pub exit_epoch: u64,
    pub withdrawable_epoch: u64,
}

pub struct ValidatorView {
    pub pubkey: Seq<u8>,
    pub withdrawal_credentials: Seq<u8>,
    pub effective_balance: u64,
    pub slashed: bool,
    pub activation_eligibility_epoch: u64,
    pub activation_epoch: u64,
    pub exit_epoch: u64,
    pub withdrawable_epoch: u64,
}

impl View for Validator {
    type V = ValidatorView;

    open spec fn view(&self) -> ValidatorView {
        ValidatorView {
            pubkey: self.pubkey@,
            withdrawal_credentials: self.withdrawal_credentials@,
            effective_balance: self.effective_balance,
            slashed: self.slashed,
            activation_eligibility_epoch: self.activation_eligibility_epoch,
            activation_epoch: self.activation_epoch,
            exit_epoch: self.exit_epoch,
            withdrawable_epoch: self.withdrawable_epoch,
        }
    }
}

impl Validator {
    pub fn clone_validator(&self) -> (r: Validator)
        ensures
            r@ == self@,
    {
        Validator {
            pubkey: copy_bytes(&self.pubkey),
            withdrawal_credentials: copy_bytes(&self.withdrawal_credentials),
            effective_balance: self.effective_balance,
            slashed: self.slashed,
            activation_eligibility_epoch: self.activation_eligibility_epoch,
            activation_epoch: self.activation_epoch,
            exit_epoch: self.exit_epoch,
            withdrawable_epoch: self.withdrawable_epoch,
        }
    }

    /// The validator is active in `epoch`.
    pub fn is_active_at(&self, epoch: u64) -> (r: bool)
        ensures
            r == is_active_at(self@, epoch),
    {
        self.activation_epoch <= epoch && epoch < self.exit_epoch
    }

    pub fn has_eth1_withdrawal_credential(&self) -> (r: bool)
        requires
            self@.wf(),
        ensures
            r == has_eth1_withdrawal_credential(self@),
    {
        self.withdrawal_credentials[0] == ETH1_ADDRESS_WITHDRAWAL_PREFIX
    }

    pub fn has_compounding_withdrawal_credential(&self) -> (r: bool)
        requires
            self@.wf(),
        ensures
            r == has_compounding_withdrawal_credential(self@),
    {
        self.withdrawal_credentials[0] == COMPOUNDING_WITHDRAWAL_PREFIX
    }

    pub fn has_execution_withdrawal_credential(&self) -> (r: bool)
        requires
            self@.wf(),
        ensures
            r == has_execution_withdrawal_credential(self@),
    {
        self.has_eth1_withdrawal_credential() || self.has_compounding_withdrawal_credential()
    }

    /// Whether the validator's execution withdrawal address is `address`; `false`
    /// where it has none.
    pub fn execution_address_is(&self, address: &Vec<u8>) -> (r: bool)
        requires
            self@.wf(),
        ensures
            r == (execution_withdrawal_address(self@) == Some(address@)),
    {
        if !self.has_execution_withdrawal_credential() {
            return false;
        }
        if address.len() != 20 {
            assert(self@.withdrawal_credentials.subrange(12, 32).len() == 20);
            return false;
        }
        let mut k: usize = 0;
        while k < 20
            invariant
                self@.wf(),
                address@.len() == 20,
                k <= 20,
                forall|j: int| 0 <= j < k ==> self@.withdrawal_credentials[12 + j] == address@[j],
            decreases 20 - k,
        {
            if self.withdrawal_credentials[12 + k] != address[k] {
                assert(self@.withdrawal_credentials.subrange(12, 32)[k as int]
                    != address@[k as int]);
                return false;
            }
            k = k + 1;
        }
        assert(self@.withdrawal_credentials.subrange(12, 32) =~= address@);
        true
    }
}

pub const BLS_WITHDRAWAL_PREFIX: u8 = 0;

pub const ETH1_ADDRESS_WITHDRAWAL_PREFIX: u8 = 1;

pub const COMPOUNDING_WITHDRAWAL_PREFIX: u8 = 2;

impl ValidatorView {
    /// Keys and credentials have their fixed sizes.
    pub open spec fn wf(self) -> bool {
        &&& self.pubkey.len() == 48
        &&& self.withdrawal_credentials.len() == 32
    }
}

pub open spec fn is_active_at(v: ValidatorView, epoch: u64) -> bool {
    v.activation_epoch <= epoch && epoch < v.exit_epoch
}

pub open spec fn has_eth1_withdrawal_credential(v: ValidatorView) -> bool {
    v.withdrawal_credentials[0] == ETH1_ADDRESS_WITHDRAWAL_PREFIX
}

pub open spec fn has_compounding_withdrawal_credential(v: ValidatorView) -> bool {
    v.withdrawal_credentials[0] == COMPOUNDING_WITHDRAWAL_PREFIX
}

pub open spec fn has_execution_withdrawal_credential(v: ValidatorView) -> bool {
    has_eth1_withdrawal_credential(v) || has_compounding_withdrawal_credential(v)
}

/// The execution address of the credentials: their last 20 bytes.
pub open spec fn execution_withdrawal_address(v: ValidatorView) -> Option<Seq<u8>> {
    if has_execution_withdrawal_credential(v) {
        Some(v.withdrawal_credentials.subrange(12, 32))
    } else {
        None
    }
}

/// A deposit waiting in the state's queue.
pub struct PendingDeposit {
    pub pubkey: Vec<u8>,
    pub withdrawal_credentials: Vec<u8>,
    pub amount: u64,
    pub signature: Vec<u8>,
    pub slot: u64,
}

pub struct PendingDepositView {
    pub pubkey: Seq<u8>,
    pub withdrawal_credentials: Seq<u8>,
    pub amount: u64,
    pub signature: Seq<u8>,
    pub slot: u64,
}

impl View for PendingDeposit {
    type V = PendingDepositView;

    open spec fn view(&self) -> PendingDepositView {
        PendingDepositView {
            pubkey: self.pubkey@,
            withdrawal_credentials: self.withdrawal_credentials@,
            amount: self.amount,
            signature: self.signature@,
            slot: self.slot,
        }
    }
}

/// A partial withdrawal waiting in the state's queue.
#[derive(Clone, Copy, Debug, PartialEq, Eq, Structural)]
pub struct PendingPartialWithdrawal {
    pub validator_index: u64,
    pub amount: u64,
    pub withdrawable_epoch: u64,
}

/// A consolidation waiting in the state's queue.
#[derive(Clone, Copy, Debug, PartialEq, Eq, Structural)]
pub struct PendingConsolidation {
    pub source_index: u64,
    pub target_index: u64,
}

/// The eth1 chain data that the state votes on.
pub struct Eth1Data {
    pub deposit_root: Vec<u8>,
    pub deposit_count: u64,
    pub block_hash: Vec<u8>,
}

pub struct Eth1DataView {
    pub deposit_root: Seq<u8>,
    pub deposit_count: u64,
    pub block_hash: Seq<u8>,
}

impl View for Eth1Data {
    type V = Eth1DataView;

    open spec fn view(&self) -> Eth1DataView {
        Eth1DataView {
            deposit_root: self.deposit_root@,
            deposit_count: self.deposit_count,
            block_hash: self.block_hash@,
        }
    }
}

/// The fork versions of a state.
#[derive(Clone, Copy, Debug)]
pub struct Fork {
    pub previous_version: [u8; 4],
    pub current_version: [u8; 4],
    pub epoch: u64,
}

/// The committees of one epoch: the shuffled active validators, split into
/// `committees_per_slot` committees at each slot.
pub struct CommitteeCache {
    /// The epoch the cache was built for, if it was.
    pub initialized_epoch: Option<u64>,
    pub committees_per_slot: u64,
    pub shuffling: Vec<u64>,
}

pub struct CommitteeCacheView {
    pub initialized_epoch: Option<u64>,
    pub committees_per_slot: u64,
    pub shuffling: Seq<u64>,
}

impl CommitteeCacheView {
    /// The committees fit the machine's words, and the shuffling names each
    /// validator at most once.
    pub open spec fn wf(self, c: ChainSpec) -> bool {
        &&& self.committees_per_slot * c.slots_per_epoch <= u32::MAX
        &&& self.shuffling.len() <= u32::MAX
        &&& self.shuffling.no_duplicates()
    }
}

impl View for CommitteeCache {
    type V = CommitteeCacheView;

    open spec fn view(&self) -> CommitteeCacheView {
        CommitteeCacheView {
            initialized_epoch: self.initialized_epoch,
            committees_per_slot: self.committees_per_slot,
            shuffling: self.shuffling@,
        }
    }
}

/// An attestation waiting in a base state for the epoch to be processed.
pub struct PendingAttestation {
    pub aggregation_bits: Vec<bool>,
    pub data: AttestationData,
    pub inclusion_delay: u64,
    pub proposer_index: u64,
}

pub struct PendingAttestationView {
    pub aggregation_bits: Seq<bool>,
    pub data: AttestationDataView,
    pub inclusion_delay: u64,
    pub proposer_index: u64,
}

impl View for PendingAttestation {
    type V = PendingAttestationView;

    open spec fn view(&self) -> PendingAttestationView {
        PendingAttestationView {
            aggregation_bits: self.aggregation_bits@,
            data: self.data@,
            inclusion_delay: self.inclusion_delay,
            proposer_index: self.proposer_index,
        }
    }
}

/// The number of epochs whose committees the state caches: the previous,
/// the current and the next.
pub const CACHED_EPOCHS: usize = 3;

/// The beacon state, as far as block processing reads and writes it.
///
/// The fields of later forks are present in every state; they count only from
/// the fork that introduced them on (`fork_name`).
pub struct BeaconState {
    pub fork_name: ForkName,
    pub genesis_validators_root: Vec<u8>,
    pub slot: u64,
    pub fork: Fork,
    pub block_roots: Vec<Vec<u8>>,
    pub validators: Vec<Validator>,
    pub balances: Vec<u64>,
    pub slashings: Vec<u64>,
    pub previous_epoch_participation: Vec<u8>,
    pub current_epoch_participation: Vec<u8>,
    pub inactivity_scores: Vec<u64>,
    pub current_sync_committee: Vec<Vec<u8>>,
    pub previous_justified_checkpoint: Checkpoint,
    pub current_justified_checkpoint: Checkpoint,
    pub committee_caches: Vec<CommitteeCache>,
    pub previous_epoch_attestations: Vec<PendingAttestation>,
    pub current_epoch_attestations: Vec<PendingAttestation>,
    pub eth1_data: Eth1Data,
    pub eth1_deposit_index: u64,
    pub deposit_requests_start_index: u64,
    pub exit_balance_to_consume: u64,
    pub earliest_exit_epoch: u64,
    pub consolidation_balance_to_consume: u64,
    pub earliest_consolidation_epoch: u64,
    pub pending_deposits: Vec<PendingDeposit>,
    pub pending_partial_withdrawals: Vec<PendingPartialWithdrawal>,
    pub pending_consolidations: Vec<PendingConsolidation>,
}

pub struct StateView {
    pub fork_name: ForkName,
    pub genesis_validators_root: Seq<u8>,
    pub slot: u64,
    pub fork: Fork,
    pub block_roots: Seq<Seq<u8>>,
    pub validators: Seq<ValidatorView>,
    pub balances: Seq<u64>,
    pub slashings: Seq<u64>,
    pub previous_epoch_participation: Seq<u8>,
    pub current_epoch_participation: Seq<u8>,
    pub inactivity_scores: Seq<u64>,
    pub current_sync_committee: Seq<Seq<u8>>,
    pub previous_justified_checkpoint: CheckpointView,
    pub current_justified_checkpoint: CheckpointView,
    pub committee_caches: Seq<CommitteeCacheView>,
    pub previous_epoch_attestations: Seq<PendingAttestationView>,
    pub current_epoch_attestations: Seq<PendingAttestationView>,
    pub eth1_data: Eth1DataView,
    pub eth1_deposit_index: u64,
    pub deposit_requests_start_index: u64,
    pub exit_balance_to_consume: u64,
    pub earliest_exit_epoch: u64,
    pub consolidation_balance_to_consume: u64,
    pub earliest_consolidation_epoch: u64,
    pub pending_deposits: Seq<PendingDepositView>,
    pub pending_partial_withdrawals: Seq<PendingPartialWithdrawal>,
    pub pending_consolidations: Seq<PendingConsolidation>,
}

impl View for BeaconState {
    type V = StateView;

    open spec fn view(&self) -> StateView {
        StateView {
            fork_name: self.fork_name,
            genesis_validators_root: self.genesis_validators_root@,
            slot: self.slot,
            fork: self.fork,
            block_roots: self.block_roots@.map_values(|r: Vec<u8>| r@),
            validators: self.validators@.map_values(|v: Validator| v@),
            balances: self.balances@,
            slashings: self.slashings@,
            previous_epoch_participation: self.previous_epoch_participation@,
            current_epoch_participation: self.current_epoch_participation@,
            inactivity_scores: self.inactivity_scores@,
            current_sync_committee: self.current_sync_committee@.map_values(|k: Vec<u8>| k@),
            previous_justified_checkpoint: self.previous_justified_checkpoint@,
            current_justified_checkpoint: self.current_justified_checkpoint@,
            committee_caches: self.committee_caches@.map_values(|k: CommitteeCache| k@),
            previous_epoch_attestations: self.previous_epoch_attestations@.map_values(|a: PendingAttestation| a@),
            current_epoch_attestations: self.current_epoch_attestations@.map_values(|a: PendingAttestation| a@),
            eth1_data: self.eth1_data@,
            eth1_deposit_index: self.eth1_deposit_index,
            deposit_requests_start_index: self.deposit_requests_start_index,
            exit_balance_to_consume: self.exit_balance_to_consume,
            earliest_exit_epoch: self.earliest_exit_epoch,
            consolidation_balance_to_consume: self.consolidation_balance_to_consume,
            earliest_consolidation_epoch: self.earliest_consolidation_epoch,
            pending_deposits: self.pending_deposits@.map_values(|d: PendingDeposit| d@),
            pending_partial_withdrawals: self.pending_partial_withdrawals@,
            pending_consolidations: self.pending_consolidations@,
        }
    }
}

impl StateView {
    /// One balance per validator, every record with its fixed sizes, and the
    /// queues within their limits.
    pub open spec fn wf(self, c: ChainSpec) -> bool {
        &&& self.balances.len() == self.validators.len()
        &&& self.validators.len() <= c.validator_registry_limit
        &&& self.slashings.len() == c.epochs_per_slashings_vector
        &&& self.block_roots.len() == c.slots_per_historical_root
        &&& self.committee_caches.len() == CACHED_EPOCHS
        &&& forall|k: int|
            0 <= k < self.committee_caches.len() ==> (#[trigger] self.committee_caches[k]).wf(c)
        &&& self.previous_epoch_attestations.len() <= c.max_pending_attestations
        &&& self.current_epoch_attestations.len() <= c.max_pending_attestations
        &&& self.altair_enabled() ==> {
            &&& self.previous_epoch_participation.len() == self.validators.len()
            &&& self.current_epoch_participation.len() == self.validators.len()
            &&& self.inactivity_scores.len() == self.validators.len()
            &&& self.current_sync_committee.len() == c.sync_committee_size
        }
        &&& forall|i: int| 0 <= i < self.validators.len() ==> (#[trigger] self.validators[i]).wf()
        &&& self.pending_deposits.len() <= c.pending_deposits_limit
        &&& self.pending_partial_withdrawals.len() <= c.pending_partial_withdrawals_limit
        &&& self.pending_consolidations.len() <= c.pending_consolidations_limit
    }

    pub open spec fn altair_enabled(self) -> bool {
        self.fork_name.index() >= 1
    }

    pub open spec fn electra_enabled(self) -> bool {
        self.fork_name.index() >= 5
    }
}

pub open spec fn current_epoch(s: StateView, c: ChainSpec) -> u64 {
    (s.slot / c.slots_per_epoch) as u64
}

/// The first validator whose key is `pubkey`.
pub open spec fn pubkey_index(vals: Seq<ValidatorView>, pubkey: Seq<u8>) -> Option<nat> {
    if exists|i: int|
        0 <= i < vals.len() && vals[i].pubkey == pubkey && forall|j: int|
            0 <= j < i ==> vals[j].pubkey != pubkey {
        Some(
            (choose|i: int|
                0 <= i < vals.len() && vals[i].pubkey == pubkey && forall|j: int|
                    0 <= j < i ==> vals[j].pubkey != pubkey) as nat,
        )
    } else {
        None
    }
}

/// The sum of the effective balances of the validators active in `epoch`.
pub open spec fn active_balance_sum(vals: Seq<ValidatorView>, epoch: u64) -> int
    decreases vals.len(),
{
    if vals.len() == 0 {
        0
    } else {
        active_balance_sum(vals.drop_last(), epoch) + if is_active_at(vals.last(), epoch) {
            vals.last().effective_balance as int
        } else {
            0int
        }
    }
}

pub proof fn lemma_active_balance_sum_nonneg(vals: Seq<ValidatorView>, epoch: u64)
    ensures
        active_balance_sum(vals, epoch) >= 0,
    decreases vals.len(),
{
    if vals.len() > 0 {
        lemma_active_balance_sum_nonneg(vals.drop_last(), epoch);
    }
}

pub proof fn lemma_active_balance_sum_prefix(vals: Seq<ValidatorView>, epoch: u64, n: int)
    requires
        0 <= n <= vals.len(),
    ensures
        active_balance_sum(vals.take(n), epoch) <= active_balance_sum(vals, epoch),
    decreases vals.len() - n,
{
    if n < vals.len() {
        lemma_active_balance_sum_prefix(vals, epoch, n + 1);
        assert(vals.take(n + 1).drop_last() =~= vals.take(n));
    } else {
        assert(vals.take(n) =~= vals);
    }
}

/// The total effective balance of the active validators, at least one
/// increment.
pub open spec fn total_active_balance(s: StateView, c: ChainSpec) -> Result<u64, BlockProcessingError> {
    let sum = active_balance_sum(s.validators, current_epoch(s, c));
    if sum > u64::MAX {
        Err(BlockProcessingError::ArithError(ArithError::Overflow))
    } else if sum < c.effective_balance_increment {
        Ok(c.effective_balance_increment)
    } else {
        Ok(sum as u64)
    }
}

impl BeaconState {
    pub fn current_epoch(&self, c: &ChainSpec) -> (e: u64)
        requires
            c.valid(),
        ensures
            e == current_epoch(self@, *c),
    {
        self.slot / c.slots_per_epoch
    }

    /// The index of the first validator whose key is `pubkey`.
    pub fn find_validator_index(&self, pubkey: &Vec<u8>) -> (r: Option<usize>)
        ensures
            match r {
                Some(i) => pubkey_index(self@.validators, pubkey@) == Some(i as nat),
                None => pubkey_index(self@.validators, pubkey@) is None,
            },
    {
        let ghost vals = self@.validators;
        let mut i: usize = 0;
        while i < self.validators.len()
            invariant
                vals == self@.validators,
                i <= self.validators.len(),
                forall|j: int| 0 <= j < i ==> vals[j].pubkey != pubkey@,
            decreases self.validators.len() - i,
        {
            if bytes_eq(&self.validators[i].pubkey, pubkey) {
                assert(vals[i as int].pubkey == pubkey@);
                let ghost w = choose|k: int|
                    0 <= k < vals.len() && vals[k].pubkey == pubkey@ && forall|j: int|
                        0 <= j < k ==> vals[j].pubkey != pubkey@;
                assert(w == i) by {
                    if w < i {
                        assert(vals[w].pubkey != pubkey@);
                    } else if w > i {
                        assert(vals[i as int].pubkey != pubkey@);
                    }
                }
                return Some(i);
            }
            i = i + 1;
        }
        None
    }

    /// The total effective balance of the active validators.
    pub fn get_total_active_balance(&self, c: &ChainSpec) -> (r: Result<u64, BlockProcessingError>)
        requires
            c.valid(),
        ensures
            r == total_active_balance(self@, *c),
    {
        let epoch = self.current_epoch(c);
        let ghost vals = self@.validators;
        let mut sum: u64 = 0;
        let mut i: usize = 0;
        while i < self.validators.len()
            invariant
                vals == self@.validators,
                epoch == current_epoch(self@, *c),
                i <= self.validators.len(),
                sum == active_balance_sum(vals.take(i as int), epoch),
            decreases self.validators.len() - i,
        {
            assert(vals.take(i + 1).drop_last() =~= vals.take(i as int));
            if self.validators[i].is_active_at(epoch) {
                let b = self.validators[i].effective_balance;
                if sum > u64::MAX - b {
                    proof {
                        lemma_active_balance_sum_prefix(vals, epoch, i + 1);
                    }
                    return Err(BlockProcessingError::ArithError(ArithError::Overflow));
                }
                sum = sum + b;
            }
            i = i + 1;
        }
        assert(vals.take(i as int) =~= vals);
        if sum < c.effective_balance_increment {
            Ok(c.effective_balance_increment)
        } else {
            Ok(sum)
        }
    }
}

} // verus!
