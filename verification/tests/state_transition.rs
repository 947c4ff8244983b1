use lighthouse::attestations::{process_attestations, sort_indices, Attestation};
use lighthouse::attester_slashing::{process_attester_slashings, AttesterSlashing, IndexedAttestation};
use lighthouse::beacon_state::{
    BeaconState, CommitteeCache, Eth1Data, Fork, PendingConsolidation, PendingDeposit,
    PendingPartialWithdrawal, Validator,
};
use lighthouse::block::{process_operations, BeaconBlockBody, ExecutionRequests};
use lighthouse::common::initiate_validator_exit;
use lighthouse::deposits::{apply_deposit, process_deposits};
use lighthouse::errors::{
    ArithError, AttestationInvalid, AttesterSlashingInvalid, BeaconStateError, BlockProcessingError,
    CommitteeError, DepositInvalid, ExitInvalid, ProposerSlashingInvalid,
};
use lighthouse::operations::{
    AttestationData, BeaconBlockHeader, Checkpoint, ConsensusContext, ConsolidationRequest, Deposit,
    DepositData, DepositRequest, ProposerSlashing, SignedBeaconBlockHeader, SignedVoluntaryExit,
    VerifySignatures, VoluntaryExit, WithdrawalRequest,
};
use lighthouse::process_operations::{
    process_consolidation_requests, process_deposit_requests, process_exits, process_proposer_slashings,
    process_withdrawal_requests,
};
use lighthouse::spec::{ChainSpec, ForkName};
use lighthouse::store::{get_full_state, store_full_state, KeyValueStoreOp, StorageContainer};
use lighthouse::sync_committee::{compute_sync_aggregate_rewards, isqrt, process_sync_aggregate, SyncAggregate};
use lighthouse::upgrade::{upgrade_state_to_fulu, upgrade_to_fulu};

const GWEI_32: u64 = 32_000_000_000;

fn pubkey(i: usize) -> Vec<u8> {
    let mut k = vec![0u8; 48];
    k[0] = 0xa0;
    k[1] = (i % 256) as u8;
    k[2] = (i / 256) as u8;
    k
}

fn eth1_credentials(address_byte: u8) -> Vec<u8> {
    let mut c = vec![0u8; 32];
    c[0] = 1;
    for b in c.iter_mut().skip(12) {
        *b = address_byte;
    }
    c
}

fn validator(i: usize) -> Validator {
    Validator {
        pubkey: pubkey(i),
        withdrawal_credentials: eth1_credentials(i as u8),
        effective_balance: GWEI_32,
        slashed: false,
        activation_eligibility_epoch: 0,
        activation_epoch: 0,
        exit_epoch: u64::MAX,
        withdrawable_epoch: u64::MAX,
    }
}

fn checkpoint(epoch: u64) -> Checkpoint {
    Checkpoint { epoch, root: vec![0u8; 32] }
}

fn cache(epoch: u64, n: usize) -> CommitteeCache {
    CommitteeCache { initialized_epoch: Some(epoch), committees_per_slot: 1, shuffling: (0..n as u64).collect() }
}

/// A state of `n` validators at `slot`, with every committee cache built.
fn state(fork_name: ForkName, n: usize, slot: u64) -> BeaconState {
    let c = ChainSpec::mainnet();
    let epoch = slot / 32;
    BeaconState {
        fork_name,
        genesis_validators_root: vec![0u8; 32],
        slot,
        fork: Fork { previous_version: [0, 0, 0, 0], current_version: [0, 0, 0, 0], epoch: 0 },
        block_roots: vec![vec![0u8; 32]; c.slots_per_historical_root as usize],
        validators: (0..n).map(validator).collect(),
        balances: vec![GWEI_32; n],
        slashings: vec![0; c.epochs_per_slashings_vector as usize],
        previous_epoch_participation: vec![0; n],
        current_epoch_participation: vec![0; n],
        inactivity_scores: vec![0; n],
        current_sync_committee: (0..c.sync_committee_size as usize).map(|i| pubkey(i % n)).collect(),
        previous_justified_checkpoint: checkpoint(0),
        current_justified_checkpoint: checkpoint(0),
        committee_caches: vec![cache(epoch.saturating_sub(1), n), cache(epoch, n), cache(epoch + 1, n)],
        previous_epoch_attestations: vec![],
        current_epoch_attestations: vec![],
        eth1_data: Eth1Data { deposit_root: vec![0u8; 32], deposit_count: 0, block_hash: vec![0u8; 32] },
        eth1_deposit_index: 0,
        deposit_requests_start_index: u64::MAX,
        exit_balance_to_consume: 0,
        earliest_exit_epoch: 0,
        consolidation_balance_to_consume: 0,
        earliest_consolidation_epoch: 0,
        pending_deposits: vec![],
        pending_partial_withdrawals: vec![],
        pending_consolidations: vec![],
    }
}

fn exit(index: u64, epoch: u64) -> SignedVoluntaryExit {
    SignedVoluntaryExit { message: VoluntaryExit { epoch, validator_index: index }, signature: vec![0u8; 96] }
}

#[test]
fn exit_is_queued_after_delay() {
    let c = ChainSpec::mainnet();
    let mut s = state(ForkName::Deneb, 8, 300 * 32);
    let r = process_exits(&mut s, &vec![exit(3, 300)], VerifySignatures::False, &c);
    assert_eq!(r, Ok(()));
    assert_eq!(s.validators[3].exit_epoch, 305);
    assert_eq!(s.validators[3].withdrawable_epoch, 305 + 256);
    assert_eq!(s.validators[2].exit_epoch, u64::MAX);
}

#[test]
fn second_exit_of_a_validator_is_refused() {
    let c = ChainSpec::mainnet();
    let mut s = state(ForkName::Deneb, 8, 300 * 32);
    let r = process_exits(&mut s, &vec![exit(3, 300), exit(3, 300)], VerifySignatures::False, &c);
    assert_eq!(r, Err(BlockProcessingError::ExitInvalid { index: 1, reason: ExitInvalid::AlreadyExited(3) }));
}

#[test]
fn exit_errors() {
    let c = ChainSpec::mainnet();
    let mut s = state(ForkName::Deneb, 8, 300 * 32);
    assert_eq!(
        process_exits(&mut s, &vec![exit(9, 300)], VerifySignatures::False, &c),
        Err(BlockProcessingError::ExitInvalid { index: 0, reason: ExitInvalid::ValidatorUnknown(9) })
    );
    let mut s = state(ForkName::Deneb, 8, 300 * 32);
    assert_eq!(
        process_exits(&mut s, &vec![exit(1, 301)], VerifySignatures::False, &c),
        Err(BlockProcessingError::ExitInvalid { index: 0, reason: ExitInvalid::FutureEpoch { state: 300, exit: 301 } })
    );
    let mut s = state(ForkName::Deneb, 8, 100 * 32);
    assert_eq!(
        process_exits(&mut s, &vec![exit(1, 100)], VerifySignatures::False, &c),
        Err(BlockProcessingError::ExitInvalid {
            index: 0,
            reason: ExitInvalid::TooYoungToExit { current_epoch: 100, earliest_exit_epoch: 256 }
        })
    );
    let mut s = state(ForkName::Deneb, 8, 300 * 32);
    assert_eq!(
        process_exits(&mut s, &vec![exit(1, 300)], VerifySignatures::True, &c),
        Err(BlockProcessingError::ExitInvalid { index: 0, reason: ExitInvalid::BadSignature })
    );
}

#[test]
fn initiating_an_exit_twice_changes_nothing() {
    let c = ChainSpec::mainnet();
    let mut s = state(ForkName::Deneb, 8, 300 * 32);
    assert_eq!(initiate_validator_exit(&mut s, 2, &c), Ok(()));
    let first = (s.validators[2].exit_epoch, s.validators[2].withdrawable_epoch);
    assert_eq!(initiate_validator_exit(&mut s, 2, &c), Ok(()));
    assert_eq!((s.validators[2].exit_epoch, s.validators[2].withdrawable_epoch), first);
    assert_eq!(initiate_validator_exit(&mut s, 8, &c), Err(BlockProcessingError::UnknownValidator(8)));
}

fn header(slot: u64, proposer_index: u64, body: u8) -> SignedBeaconBlockHeader {
    SignedBeaconBlockHeader {
        message: BeaconBlockHeader {
            slot,
            proposer_index,
            parent_root: vec![0u8; 32],
            state_root: vec![0u8; 32],
            body_root: vec![body; 32],
        },
        signature: vec![0u8; 96],
    }
}

fn proposer_slashing(index: u64) -> ProposerSlashing {
    ProposerSlashing { signed_header_1: header(10, index, 1), signed_header_2: header(10, index, 2) }
}

#[test]
fn proposer_slashing_slashes_and_rewards() {
    let c = ChainSpec::mainnet();
    let mut s = state(ForkName::Deneb, 8, 10 * 32);
    let ctxt = ConsensusContext { proposer_index: 0 };
    let r = process_proposer_slashings(&mut s, &vec![proposer_slashing(5)], VerifySignatures::False, &ctxt, &c);
    assert_eq!(r, Ok(()));
    assert!(s.validators[5].slashed);
    assert_eq!(s.validators[5].exit_epoch, 15);
    assert_eq!(s.validators[5].withdrawable_epoch, 10 + 8192);
    assert_eq!(s.slashings[10], GWEI_32);
    // penalty: 32 ETH / 32 (Bellatrix quotient)
    assert_eq!(s.balances[5], GWEI_32 - GWEI_32 / 32);
    // whistleblower reward 32 ETH / 512, of which the proposer (here the whistleblower) takes all
    assert_eq!(s.balances[0], GWEI_32 + GWEI_32 / 512);
}

#[test]
fn repeated_proposer_slashing_is_refused() {
    let c = ChainSpec::mainnet();
    let mut s = state(ForkName::Deneb, 8, 10 * 32);
    let ctxt = ConsensusContext { proposer_index: 0 };
    let r = process_proposer_slashings(
        &mut s,
        &vec![proposer_slashing(5), proposer_slashing(5)],
        VerifySignatures::False,
        &ctxt,
        &c,
    );
    assert_eq!(
        r,
        Err(BlockProcessingError::ProposerSlashingInvalid {
            index: 1,
            reason: ProposerSlashingInvalid::ProposerNotSlashable(5)
        })
    );
}

#[test]
fn proposer_slashing_errors() {
    let c = ChainSpec::mainnet();
    let ctxt = ConsensusContext { proposer_index: 0 };
    let mut s = state(ForkName::Deneb, 8, 10 * 32);
    let same = ProposerSlashing { signed_header_1: header(10, 5, 1), signed_header_2: header(10, 5, 1) };
    assert_eq!(
        process_proposer_slashings(&mut s, &vec![same], VerifySignatures::False, &ctxt, &c),
        Err(BlockProcessingError::ProposerSlashingInvalid { index: 0, reason: ProposerSlashingInvalid::ProposalsIdentical })
    );
    let slots = ProposerSlashing { signed_header_1: header(10, 5, 1), signed_header_2: header(11, 5, 2) };
    assert_eq!(
        process_proposer_slashings(&mut s, &vec![slots], VerifySignatures::False, &ctxt, &c),
        Err(BlockProcessingError::ProposerSlashingInvalid {
            index: 0,
            reason: ProposerSlashingInvalid::ProposalSlotMismatch(10, 11)
        })
    );
    let unknown = proposer_slashing(20);
    assert_eq!(
        process_proposer_slashings(&mut s, &vec![unknown], VerifySignatures::False, &ctxt, &c),
        Err(BlockProcessingError::ProposerSlashingInvalid { index: 0, reason: ProposerSlashingInvalid::ProposerUnknown(20) })
    );
    assert_eq!(
        process_proposer_slashings(&mut s, &vec![proposer_slashing(5)], VerifySignatures::True, &ctxt, &c),
        Err(BlockProcessingError::ProposerSlashingInvalid {
            index: 0,
            reason: ProposerSlashingInvalid::BadProposal1Signature
        })
    );
}

fn data(slot: u64, target_epoch: u64, source: Checkpoint) -> AttestationData {
    AttestationData {
        slot,
        index: 0,
        beacon_block_root: vec![0u8; 32],
        source,
        target: Checkpoint { epoch: target_epoch, root: vec![0u8; 32] },
    }
}

#[test]
fn attester_slashing_double_vote() {
    let c = ChainSpec::mainnet();
    let mut s = state(ForkName::Deneb, 8, 10 * 32);
    let ctxt = ConsensusContext { proposer_index: 0 };
    let mut d2 = data(5, 0, checkpoint(0));
    d2.beacon_block_root = vec![1u8; 32];
    let slashing = AttesterSlashing {
        attestation_1: IndexedAttestation { attesting_indices: vec![1, 2, 3], data: data(5, 0, checkpoint(0)), signature: vec![0u8; 96] },
        attestation_2: IndexedAttestation { attesting_indices: vec![2, 3, 4], data: d2, signature: vec![0u8; 96] },
    };
    assert_eq!(process_attester_slashings(&mut s, &vec![slashing], VerifySignatures::False, &ctxt, &c), Ok(()));
    assert!(!s.validators[1].slashed);
    assert!(s.validators[2].slashed);
    assert!(s.validators[3].slashed);
    assert!(!s.validators[4].slashed);
}

#[test]
fn attester_slashing_errors() {
    let c = ChainSpec::mainnet();
    let ctxt = ConsensusContext { proposer_index: 0 };
    let mut s = state(ForkName::Deneb, 8, 10 * 32);
    let same = AttesterSlashing {
        attestation_1: IndexedAttestation { attesting_indices: vec![1], data: data(5, 0, checkpoint(0)), signature: vec![] },
        attestation_2: IndexedAttestation { attesting_indices: vec![1], data: data(5, 0, checkpoint(0)), signature: vec![] },
    };
    assert_eq!(
        process_attester_slashings(&mut s, &vec![same], VerifySignatures::False, &ctxt, &c),
        Err(BlockProcessingError::AttesterSlashingInvalid { index: 0, reason: AttesterSlashingInvalid::NotSlashable })
    );
    let mut d2 = data(5, 0, checkpoint(0));
    d2.beacon_block_root = vec![1u8; 32];
    let disjoint = AttesterSlashing {
        attestation_1: IndexedAttestation { attesting_indices: vec![1], data: data(5, 0, checkpoint(0)), signature: vec![] },
        attestation_2: IndexedAttestation { attesting_indices: vec![2], data: d2, signature: vec![] },
    };
    assert_eq!(
        process_attester_slashings(&mut s, &vec![disjoint], VerifySignatures::False, &ctxt, &c),
        Err(BlockProcessingError::AttesterSlashingInvalid { index: 0, reason: AttesterSlashingInvalid::NoSlashableIndices })
    );
}

fn deposit_data(i: usize, amount: u64) -> DepositData {
    DepositData { pubkey: pubkey(i), withdrawal_credentials: eth1_credentials(9), amount, signature: vec![0u8; 96] }
}

#[test]
fn deposit_for_a_known_key_tops_up() {
    let c = ChainSpec::mainnet();
    let mut s = state(ForkName::Deneb, 8, 10 * 32);
    assert_eq!(apply_deposit(&mut s, &deposit_data(3, 1_000_000_000), None, true, &c), Ok(()));
    assert_eq!(s.balances[3], GWEI_32 + 1_000_000_000);
    assert_eq!(s.eth1_deposit_index, 1);
    // since Electra the amount waits in the deposit queue
    let mut e = state(ForkName::Electra, 8, 10 * 32);
    assert_eq!(apply_deposit(&mut e, &deposit_data(3, 1_000_000_000), None, true, &c), Ok(()));
    assert_eq!(e.balances[3], GWEI_32);
    assert_eq!(e.pending_deposits.len(), 1);
    assert_eq!(e.pending_deposits[0].amount, 1_000_000_000);
    assert_eq!(e.pending_deposits[0].slot, 0);
}

#[test]
fn deposit_with_bad_signature_only_counts() {
    let c = ChainSpec::mainnet();
    let mut s = state(ForkName::Deneb, 8, 10 * 32);
    assert_eq!(apply_deposit(&mut s, &deposit_data(100, GWEI_32), None, true, &c), Ok(()));
    assert_eq!(s.validators.len(), 8);
    assert_eq!(s.eth1_deposit_index, 1);
}

#[test]
fn deposit_with_valid_signature_adds_validator() {
    let c = ChainSpec::mainnet();
    let sk = blst::min_pk::SecretKey::key_gen(&[7u8; 32], &[]).unwrap();
    let pk = sk.sk_to_pk().to_bytes().to_vec();
    let mut d = DepositData { pubkey: pk, withdrawal_credentials: eth1_credentials(9), amount: GWEI_32, signature: vec![] };
    let domain = lighthouse::signing::compute_domain_bytes(3, &c.genesis_fork_version, &vec![0u8; 32]);
    let message =
        lighthouse::signing::compute_signing_root(&lighthouse::verify_operations::deposit_message_root_bytes(&d), &domain);
    d.signature = sk.sign(&message, b"BLS_SIG_BLS12381G2_XMD:SHA-256_SSWU_RO_POP_", &[]).to_bytes().to_vec();
    assert!(lighthouse::verify_operations::is_valid_deposit_signature(&d, &c));
    let mut s = state(ForkName::Deneb, 8, 10 * 32);
    assert_eq!(apply_deposit(&mut s, &d, None, true, &c), Ok(()));
    assert_eq!(s.validators.len(), 9);
    assert_eq!(s.balances[8], GWEI_32);
    assert_eq!(s.validators[8].effective_balance, GWEI_32);
    assert_eq!(s.validators[8].activation_epoch, u64::MAX);
}

#[test]
fn deposit_count_and_proof_are_checked() {
    let c = ChainSpec::mainnet();
    let mut s = state(ForkName::Deneb, 8, 10 * 32);
    s.eth1_data.deposit_count = 2;
    let deposit = Deposit { proof: vec![vec![0u8; 32]; 33], data: deposit_data(1, GWEI_32) };
    assert_eq!(
        process_deposits(&mut s, &vec![deposit], &c),
        Err(BlockProcessingError::DepositCountInvalid { expected: 2, found: 1 })
    );
    let mut s = state(ForkName::Deneb, 8, 10 * 32);
    s.eth1_data.deposit_count = 1;
    let deposit = Deposit { proof: vec![vec![0u8; 32]; 33], data: deposit_data(1, GWEI_32) };
    assert_eq!(
        process_deposits(&mut s, &vec![deposit], &c),
        Err(BlockProcessingError::DepositInvalid { index: 0, reason: DepositInvalid::BadMerkleProof })
    );
    let mut s = state(ForkName::Deneb, 8, 10 * 32);
    assert_eq!(process_deposits(&mut s, &vec![], &c), Ok(()));
    assert_eq!(s.eth1_deposit_index, 0);
}

#[test]
fn deposit_requests_queue_deposits() {
    let c = ChainSpec::mainnet();
    let request = DepositRequest {
        pubkey: pubkey(50),
        withdrawal_credentials: eth1_credentials(1),
        amount: GWEI_32,
        signature: vec![0u8; 96],
        index: 7,
    };
    let mut s = state(ForkName::Electra, 8, 10 * 32);
    assert_eq!(process_deposit_requests(&mut s, &vec![request], &c), Ok(()));
    assert_eq!(s.deposit_requests_start_index, 7);
    assert_eq!(s.pending_deposits.len(), 1);
    assert_eq!(s.pending_deposits[0].slot, 10 * 32);
    let mut d = state(ForkName::Deneb, 8, 10 * 32);
    let request = DepositRequest { pubkey: pubkey(50), withdrawal_credentials: eth1_credentials(1), amount: 1, signature: vec![], index: 0 };
    assert_eq!(process_deposit_requests(&mut d, &vec![request], &c), Err(BlockProcessingError::IncorrectStateVariant));
}

#[test]
fn withdrawal_request_full_exit() {
    let c = ChainSpec::mainnet();
    let mut s = state(ForkName::Electra, 8, 300 * 32);
    let request = WithdrawalRequest { source_address: vec![4u8; 20], validator_pubkey: pubkey(4), amount: 0 };
    assert_eq!(process_withdrawal_requests(&mut s, &vec![request], &c), Ok(()));
    assert!(s.validators[4].exit_epoch != u64::MAX);
    // a request from the wrong address is ignored
    let mut s = state(ForkName::Electra, 8, 300 * 32);
    let request = WithdrawalRequest { source_address: vec![5u8; 20], validator_pubkey: pubkey(4), amount: 0 };
    assert_eq!(process_withdrawal_requests(&mut s, &vec![request], &c), Ok(()));
    assert_eq!(s.validators[4].exit_epoch, u64::MAX);
}

#[test]
fn consolidation_request_to_self_switches_to_compounding() {
    let c = ChainSpec::mainnet();
    let mut s = state(ForkName::Electra, 8, 300 * 32);
    let request = ConsolidationRequest { source_address: vec![2u8; 20], source_pubkey: pubkey(2), target_pubkey: pubkey(2) };
    assert_eq!(process_consolidation_requests(&mut s, &vec![request], &c), Ok(()));
    assert_eq!(s.validators[2].withdrawal_credentials[0], 2);
    assert!(s.pending_consolidations.is_empty());
}

#[test]
fn consolidation_request_queues_consolidation() {
    let c = ChainSpec::mainnet();
    let mut s = state(ForkName::Electra, 64, 300 * 32);
    // enough stake for the consolidation churn to exceed one activation balance
    for v in s.validators.iter_mut() {
        v.effective_balance = 300_000_000_000_000;
    }
    s.validators[3].withdrawal_credentials[0] = 2;
    let request = ConsolidationRequest { source_address: vec![2u8; 20], source_pubkey: pubkey(2), target_pubkey: pubkey(3) };
    assert_eq!(process_consolidation_requests(&mut s, &vec![request], &c), Ok(()));
    assert_eq!(s.pending_consolidations.len(), 1);
    assert_eq!(s.pending_consolidations[0].source_index, 2);
    assert_eq!(s.pending_consolidations[0].target_index, 3);
    assert!(s.validators[2].exit_epoch != u64::MAX);
}

#[test]
fn integer_square_roots() {
    assert_eq!(isqrt(0), 0);
    assert_eq!(isqrt(15), 3);
    assert_eq!(isqrt(16), 4);
    assert_eq!(isqrt(2_048_000_000_000), 1_431_083);
    assert_eq!(isqrt(u64::MAX), 4_294_967_295);
}

#[test]
fn sync_aggregate_rewards_values() {
    let c = ChainSpec::mainnet();
    let s = state(ForkName::Altair, 64, 10 * 32);
    assert_eq!(compute_sync_aggregate_rewards(&s, &c), Ok((174, 24)));
}

#[test]
fn sync_aggregate_full_participation() {
    let c = ChainSpec::mainnet();
    let mut s = state(ForkName::Altair, 64, 10 * 32);
    let aggregate = SyncAggregate { sync_committee_bits: vec![true; 512], sync_committee_signature: vec![0u8; 96] };
    assert_eq!(process_sync_aggregate(&mut s, &aggregate, 0, VerifySignatures::False, &c), Ok(()));
    assert_eq!(s.balances[1], GWEI_32 + 8 * 174);
    assert_eq!(s.balances[0], GWEI_32 + 8 * 174 + 512 * 24);
    assert!(s.balances.iter().all(|b| *b >= GWEI_32));
}

#[test]
fn sync_aggregate_no_participation() {
    let c = ChainSpec::mainnet();
    let mut s = state(ForkName::Altair, 64, 10 * 32);
    let aggregate = SyncAggregate { sync_committee_bits: vec![false; 512], sync_committee_signature: vec![0u8; 96] };
    assert_eq!(process_sync_aggregate(&mut s, &aggregate, 0, VerifySignatures::False, &c), Ok(()));
    assert_eq!(s.balances[1], GWEI_32 - 8 * 174);
    assert_eq!(s.balances[0], GWEI_32 - 8 * 174);
    let mut b = state(ForkName::Base, 64, 10 * 32);
    assert_eq!(
        process_sync_aggregate(&mut b, &aggregate, 0, VerifySignatures::False, &c),
        Err(BlockProcessingError::IncorrectStateVariant)
    );
    let mut v = state(ForkName::Altair, 64, 10 * 32);
    assert_eq!(
        process_sync_aggregate(&mut v, &aggregate, 0, VerifySignatures::True, &c),
        Err(BlockProcessingError::SyncAggregateSignatureInvalid)
    );
}

fn attestation(slot: u64, target_epoch: u64, bits: Vec<bool>) -> Attestation {
    Attestation { aggregation_bits: bits, data: data(slot, target_epoch, checkpoint(0)), signature: vec![0u8; 96], committee_bits: None }
}

#[test]
fn attestation_sets_participation_flags() {
    let c = ChainSpec::mainnet();
    let mut s = state(ForkName::Deneb, 64, 10 * 32 + 5);
    s.current_justified_checkpoint = checkpoint(0);
    let ctxt = ConsensusContext { proposer_index: 7 };
    let mut bits = vec![false; 2];
    bits[0] = true;
    let a = attestation(10 * 32 + 4, 10, bits);
    assert_eq!(process_attestations(&mut s, &vec![a], VerifySignatures::False, &ctxt, &c), Ok(()));
    let set: usize = s.current_epoch_participation.iter().filter(|p| **p != 0).count();
    assert_eq!(set, 1);
    assert!(s.balances[7] > GWEI_32);
}

#[test]
fn attestation_twice_keeps_flags() {
    let c = ChainSpec::mainnet();
    let mut s = state(ForkName::Deneb, 64, 10 * 32 + 5);
    let ctxt = ConsensusContext { proposer_index: 7 };
    let a = attestation(10 * 32 + 4, 10, vec![true, true]);
    assert_eq!(process_attestations(&mut s, &vec![a], VerifySignatures::False, &ctxt, &c), Ok(()));
    let flags = s.current_epoch_participation.clone();
    let proposer_balance = s.balances[7];
    let again = attestation(10 * 32 + 4, 10, vec![true, true]);
    assert_eq!(process_attestations(&mut s, &vec![again], VerifySignatures::False, &ctxt, &c), Ok(()));
    // no flag is cleared, none is new, so the proposer earns nothing more
    assert_eq!(s.current_epoch_participation, flags);
    assert_eq!(s.balances[7], proposer_balance);
}

#[test]
fn attestation_errors() {
    let c = ChainSpec::mainnet();
    let ctxt = ConsensusContext { proposer_index: 7 };
    let mut s = state(ForkName::Deneb, 64, 10 * 32 + 5);
    let early = attestation(10 * 32 + 5, 10, vec![true, false]);
    assert_eq!(
        process_attestations(&mut s, &vec![early], VerifySignatures::False, &ctxt, &c),
        Err(BlockProcessingError::AttestationInvalid {
            index: 0,
            reason: AttestationInvalid::IncludedTooEarly { state: 10 * 32 + 5, delay: 1, attestation: 10 * 32 + 5 }
        })
    );
    let wrong_target = attestation(10 * 32 + 4, 9, vec![true, false]);
    assert_eq!(
        process_attestations(&mut s, &vec![wrong_target], VerifySignatures::False, &ctxt, &c),
        Err(BlockProcessingError::AttestationInvalid {
            index: 0,
            reason: AttestationInvalid::TargetEpochSlotMismatch { target_epoch: 9, slot_epoch: 10 }
        })
    );
    let bad_bits = attestation(10 * 32 + 4, 10, vec![true]);
    assert_eq!(
        process_attestations(&mut s, &vec![bad_bits], VerifySignatures::False, &ctxt, &c),
        Err(BlockProcessingError::CommitteeError(CommitteeError::InvalidBitfield))
    );
}

#[test]
fn electra_attestation_names_committees() {
    let c = ChainSpec::mainnet();
    let ctxt = ConsensusContext { proposer_index: 7 };
    let mut s = state(ForkName::Electra, 64, 10 * 32 + 5);
    let mut a = attestation(10 * 32 + 4, 10, vec![true, true]);
    a.committee_bits = Some(vec![true]);
    assert_eq!(process_attestations(&mut s, &vec![a], VerifySignatures::False, &ctxt, &c), Ok(()));
    let set: usize = s.current_epoch_participation.iter().filter(|p| **p != 0).count();
    assert_eq!(set, 2);

    let mut s = state(ForkName::Electra, 64, 10 * 32 + 5);
    let mut beyond = attestation(10 * 32 + 4, 10, vec![true, true]);
    beyond.committee_bits = Some(vec![false, true]);
    assert_eq!(
        process_attestations(&mut s, &vec![beyond], VerifySignatures::False, &ctxt, &c),
        Err(BlockProcessingError::CommitteeError(CommitteeError::NoCommitteeFound(1)))
    );
    let mut long = attestation(10 * 32 + 4, 10, vec![true, true, true]);
    long.committee_bits = Some(vec![true]);
    assert_eq!(
        process_attestations(&mut s, &vec![long], VerifySignatures::False, &ctxt, &c),
        Err(BlockProcessingError::CommitteeError(CommitteeError::InvalidBitfield))
    );
    let mut nobody = attestation(10 * 32 + 4, 10, vec![false, false]);
    nobody.committee_bits = Some(vec![true]);
    assert_eq!(
        process_attestations(&mut s, &vec![nobody], VerifySignatures::False, &ctxt, &c),
        Err(BlockProcessingError::CommitteeError(CommitteeError::EmptyCommittee))
    );
    let mut indexed = attestation(10 * 32 + 4, 10, vec![true, true]);
    indexed.committee_bits = Some(vec![true]);
    indexed.data.index = 1;
    assert_eq!(
        process_attestations(&mut s, &vec![indexed], VerifySignatures::False, &ctxt, &c),
        Err(BlockProcessingError::AttestationInvalid { index: 0, reason: AttestationInvalid::BadCommitteeIndex })
    );
}

#[test]
fn base_attestation_waits_in_state() {
    let c = ChainSpec::mainnet();
    let mut s = state(ForkName::Base, 64, 10 * 32 + 5);
    let ctxt = ConsensusContext { proposer_index: 7 };
    let a = attestation(10 * 32 + 4, 10, vec![true, false]);
    assert_eq!(process_attestations(&mut s, &vec![a], VerifySignatures::False, &ctxt, &c), Ok(()));
    assert_eq!(s.current_epoch_attestations.len(), 1);
    assert_eq!(s.current_epoch_attestations[0].inclusion_delay, 1);
    assert_eq!(s.current_epoch_attestations[0].proposer_index, 7);
}

#[test]
fn sorting_indices() {
    let mut v = vec![5, 1, 4, 1, 9];
    sort_indices(&mut v);
    assert_eq!(v, vec![1, 1, 4, 5, 9]);
}

#[test]
fn operations_of_an_empty_block() {
    let c = ChainSpec::mainnet();
    let ctxt = ConsensusContext { proposer_index: 0 };
    let body = |requests: Option<ExecutionRequests>| BeaconBlockBody {
        proposer_slashings: vec![],
        attester_slashings: vec![],
        attestations: vec![],
        deposits: vec![],
        voluntary_exits: vec![exit(3, 300)],
        bls_to_execution_changes: Some(vec![]),
        execution_requests: requests,
    };
    let mut s = state(ForkName::Deneb, 8, 300 * 32);
    assert_eq!(process_operations(&mut s, &body(None), VerifySignatures::False, &ctxt, &c), Ok(()));
    assert_eq!(s.validators[3].exit_epoch, 305);
    let mut e = state(ForkName::Electra, 8, 300 * 32);
    assert_eq!(
        process_operations(&mut e, &body(None), VerifySignatures::False, &ctxt, &c),
        Err(BlockProcessingError::IncorrectStateVariant)
    );
    let mut e = state(ForkName::Electra, 8, 300 * 32);
    let requests = ExecutionRequests { deposits: vec![], withdrawals: vec![], consolidations: vec![] };
    assert_eq!(process_operations(&mut e, &body(Some(requests)), VerifySignatures::False, &ctxt, &c), Ok(()));
}

#[test]
fn fulu_upgrade_moves_fork_forward() {
    let c = ChainSpec::mainnet();
    let mut s = state(ForkName::Electra, 8, 300 * 32);
    s.fork.current_version = [5, 0, 0, 0];
    assert_eq!(upgrade_to_fulu(&mut s, &c), Ok(()));
    assert_eq!(s.fork_name, ForkName::Fulu);
    assert_eq!(s.fork.previous_version, [5, 0, 0, 0]);
    assert_eq!(s.fork.current_version, [6, 0, 0, 0]);
    assert_eq!(s.fork.epoch, 300);
    assert_eq!(s.validators.len(), 8);
    let mut d = state(ForkName::Deneb, 8, 300 * 32);
    assert_eq!(upgrade_to_fulu(&mut d, &c), Err(BeaconStateError::IncorrectStateVariant));
}

#[test]
fn stored_state_comes_back() {
    let s = state(ForkName::Deneb, 8, 300 * 32);
    let container = StorageContainer::new(&s);
    let back = get_full_state(Some(Ok(container))).ok().unwrap().unwrap();
    assert_eq!(back.slot, s.slot);
    assert_eq!(back.committee_caches.len(), 3);
    assert_eq!(back.committee_caches[1].initialized_epoch, Some(300));
    assert_eq!(back.validators.len(), 8);
    let short = StorageContainer::from_parts(state(ForkName::Deneb, 8, 300 * 32), vec![cache(1, 8)]);
    assert!(short.try_into().is_err());
    assert!(matches!(get_full_state(None), Ok(None)));
    let mut ops: Vec<KeyValueStoreOp> = vec![];
    assert!(store_full_state(&vec![1u8; 32], vec![1, 2, 3], &mut ops).is_ok());
    assert_eq!(ops.len(), 1);
}

#[test]
fn arithmetic_error_is_reported() {
    let c = ChainSpec::mainnet();
    let mut s = state(ForkName::Deneb, 8, 10 * 32);
    s.balances[3] = u64::MAX;
    assert_eq!(
        apply_deposit(&mut s, &deposit_data(3, 1), None, true, &c),
        Err(BlockProcessingError::ArithError(ArithError::Overflow))
    );
    let _ = (PendingDeposit { pubkey: vec![], withdrawal_credentials: vec![], amount: 0, signature: vec![], slot: 0 },
        PendingPartialWithdrawal { validator_index: 0, amount: 0, withdrawable_epoch: 0 },
        PendingConsolidation { source_index: 0, target_index: 0 });
}

#[test]
fn churn_queue_accounting() {
    // 10 left in epoch 5; 250 needs three more epochs of 100, leaving 60
    assert_eq!(lighthouse::churn::consume_churn_exec(5, 10, 3, 100, 250), Ok((60, 8)));
    // a queue behind the floor starts afresh at the floor with a full epoch
    assert_eq!(lighthouse::churn::consume_churn_exec(2, 10, 5, 100, 40), Ok((60, 5)));
    assert_eq!(
        lighthouse::churn::consume_churn_exec(2, 10, 5, 0, 40),
        Err(BlockProcessingError::ArithError(ArithError::DivisionByZero))
    );
}

#[test]
fn refused_operations_leave_the_state() {
    let c = ChainSpec::mainnet();
    // a deposit whose proof fails changes nothing
    let mut s = state(ForkName::Deneb, 8, 10 * 32);
    let proof = vec![vec![0u8; 32]; 33];
    assert!(apply_deposit(&mut s, &deposit_data(1, GWEI_32), Some(&proof), true, &c).is_err());
    assert_eq!(s.eth1_deposit_index, 0);
    assert_eq!(s.balances, vec![GWEI_32; 8]);
    // deposits of the wrong number change nothing
    let mut s = state(ForkName::Deneb, 8, 10 * 32);
    s.eth1_data.deposit_count = 2;
    let deposit = Deposit { proof: vec![vec![0u8; 32]; 33], data: deposit_data(1, GWEI_32) };
    assert!(process_deposits(&mut s, &vec![deposit], &c).is_err());
    assert_eq!(s.eth1_deposit_index, 0);
    assert_eq!(s.balances, vec![GWEI_32; 8]);
    // deposit requests before Electra change nothing
    let mut d = state(ForkName::Deneb, 8, 10 * 32);
    let request = DepositRequest { pubkey: pubkey(50), withdrawal_credentials: eth1_credentials(1), amount: 1, signature: vec![], index: 3 };
    assert!(process_deposit_requests(&mut d, &vec![request], &c).is_err());
    assert_eq!(d.deposit_requests_start_index, u64::MAX);
    assert!(d.pending_deposits.is_empty());
    // a sync aggregate with a bad signature changes nothing
    let mut v = state(ForkName::Altair, 64, 10 * 32);
    let aggregate = SyncAggregate { sync_committee_bits: vec![true; 512], sync_committee_signature: vec![0u8; 96] };
    assert!(process_sync_aggregate(&mut v, &aggregate, 0, VerifySignatures::True, &c).is_err());
    assert_eq!(v.balances, vec![GWEI_32; 64]);
}

#[test]
fn attestations_stop_at_the_refused_one() {
    let c = ChainSpec::mainnet();
    let ctxt = ConsensusContext { proposer_index: 7 };
    let mut s = state(ForkName::Deneb, 64, 10 * 32 + 5);
    let good = attestation(10 * 32 + 4, 10, vec![true, true]);
    let early = attestation(10 * 32 + 5, 10, vec![true, false]);
    let later = attestation(10 * 32 + 3, 10, vec![true, true]);
    assert!(process_attestations(&mut s, &vec![good, early, later], VerifySignatures::False, &ctxt, &c).is_err());
    // the first attestation's two attesters hold flags, the third's none
    let set: usize = s.current_epoch_participation.iter().filter(|p| **p != 0).count();
    assert_eq!(set, 2);
    // on a base state the refused attestation leaves the list as the first left it
    let mut b = state(ForkName::Base, 64, 10 * 32 + 5);
    let good = attestation(10 * 32 + 4, 10, vec![true, false]);
    let early = attestation(10 * 32 + 5, 10, vec![true, false]);
    assert!(process_attestations(&mut b, &vec![good, early], VerifySignatures::False, &ctxt, &c).is_err());
    assert_eq!(b.current_epoch_attestations.len(), 1);
}

#[test]
fn withdrawal_requests_keep_balances() {
    let c = ChainSpec::mainnet();
    let mut s = state(ForkName::Electra, 8, 300 * 32);
    s.validators[4].withdrawal_credentials[0] = 2;
    s.balances[4] = GWEI_32 + 5_000_000_000;
    let request = WithdrawalRequest { source_address: vec![4u8; 20], validator_pubkey: pubkey(4), amount: 1_000_000_000 };
    assert_eq!(process_withdrawal_requests(&mut s, &vec![request], &c), Ok(()));
    assert_eq!(s.balances[4], GWEI_32 + 5_000_000_000);
    assert_eq!(s.pending_partial_withdrawals.len(), 1);
    assert_eq!(s.pending_partial_withdrawals[0].amount, 1_000_000_000);
    // without compounding credentials no partial withdrawal is queued
    let mut t = state(ForkName::Electra, 8, 300 * 32);
    t.balances[4] = GWEI_32 + 5_000_000_000;
    let request = WithdrawalRequest { source_address: vec![4u8; 20], validator_pubkey: pubkey(4), amount: 1_000_000_000 };
    assert_eq!(process_withdrawal_requests(&mut t, &vec![request], &c), Ok(()));
    assert!(t.pending_partial_withdrawals.is_empty());
}

#[test]
fn consolidation_requests_in_two_parts() {
    let c = ChainSpec::mainnet();
    let switch = |i: usize| ConsolidationRequest {
        source_address: vec![i as u8; 20],
        source_pubkey: pubkey(i),
        target_pubkey: pubkey(i),
    };
    let mut whole = state(ForkName::Electra, 8, 300 * 32);
    assert_eq!(process_consolidation_requests(&mut whole, &vec![switch(2), switch(3)], &c), Ok(()));
    let mut parts = state(ForkName::Electra, 8, 300 * 32);
    assert_eq!(process_consolidation_requests(&mut parts, &vec![switch(2)], &c), Ok(()));
    assert_eq!(process_consolidation_requests(&mut parts, &vec![switch(3)], &c), Ok(()));
    assert_eq!(whole.validators[2].withdrawal_credentials, parts.validators[2].withdrawal_credentials);
    assert_eq!(whole.validators[3].withdrawal_credentials, parts.validators[3].withdrawal_credentials);
    assert_eq!(parts.validators[3].withdrawal_credentials[0], 2);
}

#[test]
fn attestation_proposer_reward_value() {
    let c = ChainSpec::mainnet();
    let mut s = state(ForkName::Deneb, 64, 10 * 32 + 5);
    let ctxt = ConsensusContext { proposer_index: 7 };
    let a = attestation(10 * 32 + 4, 10, vec![true, true]);
    assert_eq!(process_attestations(&mut s, &vec![a], VerifySignatures::False, &ctxt, &c), Ok(()));
    // base reward 32 * (64e9 / isqrt(2048e9)) = 32 * 44721; both attesters
    // newly earn all three flags (weights 14 + 26 + 14)
    let numerator: u64 = 2 * 32 * 44_721 * 54;
    assert_eq!(s.balances[7], GWEI_32 + numerator / 448);
    let others = s.balances.iter().enumerate().filter(|(i, b)| *i != 7 && **b != GWEI_32).count();
    assert_eq!(others, 0);
}

#[test]
fn fulu_upgrade_leaves_unbuilt_caches() {
    let c = ChainSpec::mainnet();
    let mut pre = state(ForkName::Electra, 8, 300 * 32);
    let post = upgrade_state_to_fulu(&mut pre, &c).unwrap();
    assert_eq!(post.committee_caches.len(), 3);
    assert_eq!(post.committee_caches[1].initialized_epoch, Some(300));
    assert!(pre.validators.is_empty());
    assert_eq!(pre.committee_caches.len(), 3);
    assert!(pre.committee_caches.iter().all(|k| k.initialized_epoch.is_none() && k.shuffling.is_empty()));
}

#[test]
fn failed_deposit_keeps_the_advanced_index() {
    let c = ChainSpec::mainnet();
    // a top-up on Electra with a full deposit queue fails after the index advanced
    let mut e = state(ForkName::Electra, 8, 10 * 32);
    let mut full = c.clone();
    full.pending_deposits_limit = 0;
    assert!(apply_deposit(&mut e, &deposit_data(3, 1_000_000_000), None, true, &full).is_err());
    assert_eq!(e.eth1_deposit_index, 1);
    assert_eq!(e.balances[3], GWEI_32);
}

#[test]
fn withdrawal_request_failing_on_a_full_queue_keeps_the_churn() {
    let mut c = ChainSpec::mainnet();
    c.pending_partial_withdrawals_limit = 0;
    let mut s = state(ForkName::Electra, 8, 300 * 32);
    s.pending_partial_withdrawals.push(PendingPartialWithdrawal { validator_index: 0, amount: 1, withdrawable_epoch: 0 });
    s.validators[4].withdrawal_credentials[0] = 2;
    s.balances[4] = GWEI_32 + 5_000_000_000;
    let request = WithdrawalRequest { source_address: vec![4u8; 20], validator_pubkey: pubkey(4), amount: 1_000_000_000 };
    assert_eq!(process_withdrawal_requests(&mut s, &vec![request], &c), Err(BlockProcessingError::ListFull));
    // the exit churn was consumed before the queue was found full
    assert!(s.earliest_exit_epoch > 0);
    assert_eq!(s.pending_partial_withdrawals.len(), 1);
    assert_eq!(s.balances[4], GWEI_32 + 5_000_000_000);
}
