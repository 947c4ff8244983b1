//! The operations of a block body, processed together.
use vstd::prelude::*;
use crate::spec::ChainSpec;
use crate::errors::BlockProcessingError;
use crate::beacon_state::{BeaconState, StateView};
use crate::churn::outcome_matches;
use crate::operations::{
    ConsensusContext, ConsolidationRequest, ConsolidationRequestView, Deposit, DepositRequest,
    DepositRequestView, DepositView, ProposerSlashing, ProposerSlashingView, SignedBlsToExecutionChange,
    SignedBlsToExecutionChangeView, SignedVoluntaryExit, SignedVoluntaryExitView, VerifySignatures,
    WithdrawalRequest, WithdrawalRequestView,
};
use crate::attester_slashing::{AttesterSlashing, AttesterSlashingView, attester_slashing_step, process_attester_slashings};
use crate::attestations::{Attestation, AttestationView, attestations_outcome, process_attestations};
use crate::deposits::{deposits_outcome, process_deposits};
use crate::process_operations::{
    apply_ops, bls_to_execution_change_step, consolidation_requests_result, deposit_requests_result, exit_step,
    process_bls_to_execution_changes, process_consolidation_requests, process_deposit_requests, process_exits,
    process_proposer_slashings, process_withdrawal_requests, proposer_slashing_step, withdrawal_requests_result,
};

verus! {

/// The requests of the execution layer carried by a block (since Electra).
pub struct ExecutionRequests {
    pub deposits: Vec<DepositRequest>,
    pub withdrawals: Vec<WithdrawalRequest>,
    pub consolidations: Vec<ConsolidationRequest>,
}

pub struct ExecutionRequestsView {
    pub deposits: Seq<DepositRequestView>,
    pub withdrawals: Seq<WithdrawalRequestView>,
    pub consolidations: Seq<ConsolidationRequestView>,
}

impl View for ExecutionRequests {
    type V = ExecutionRequestsView;

    open spec fn view(&self) -> ExecutionRequestsView {
        ExecutionRequestsView {
            deposits: self.deposits@.map_values(|q: DepositRequest| q@),
            withdrawals: self.withdrawals@.map_values(|q: WithdrawalRequest| q@),
            consolidations: self.consolidations@.map_values(|q: ConsolidationRequest| q@),
        }
    }
}

/// The operations of a block body. Credential changes exist from Capella
/// on, execution requests from Electra on.
pub struct BeaconBlockBody {
    pub proposer_slashings: Vec<ProposerSlashing>,
    pub attester_slashings: Vec<AttesterSlashing>,
    pub attestations: Vec<Attestation>,
    pub deposits: Vec<Deposit>,
    pub voluntary_exits: Vec<SignedVoluntaryExit>,
    pub bls_to_execution_changes: Option<Vec<SignedBlsToExecutionChange>>,
    pub execution_requests: Option<ExecutionRequests>,
}

pub struct BeaconBlockBodyView {
    pub proposer_slashings: Seq<ProposerSlashingView>,
    pub attester_slashings: Seq<AttesterSlashingView>,
    pub attestations: Seq<AttestationView>,
    pub deposits: Seq<DepositView>,
    pub voluntary_exits: Seq<SignedVoluntaryExitView>,
    pub bls_to_execution_changes: Option<Seq<SignedBlsToExecutionChangeView>>,
    pub execution_requests: Option<ExecutionRequestsView>,
}

impl View for BeaconBlockBody {
    type V = BeaconBlockBodyView;

    open spec fn view(&self) -> BeaconBlockBodyView {
        BeaconBlockBodyView {
            proposer_slashings: self.proposer_slashings@.map_values(|p: ProposerSlashing| p@),
            attester_slashings: self.attester_slashings@.map_values(|a: AttesterSlashing| a@),
            attestations: self.attestations@.map_values(|a: Attestation| a@),
            deposits: self.deposits@.map_values(|d: Deposit| d@),
            voluntary_exits: self.voluntary_exits@.map_values(|e: SignedVoluntaryExit| e@),
            bls_to_execution_changes: match &self.bls_to_execution_changes {
                Some(v) => Some(v@.map_values(|e: SignedBlsToExecutionChange| e@)),
                None => None,
            },
            execution_requests: match &self.execution_requests {
                Some(r) => Some(r@),
                None => None,
            },
        }
    }
}

impl BeaconBlockBody {
    /// The byte strings of the body have their fixed sizes.
    pub open spec fn wf(&self) -> bool {
        &&& forall|j: int|
            0 <= j < self.deposits.len() ==> (#[trigger] self.deposits@[j]).data.pubkey@.len() == 48
                && self.deposits@[j].data.withdrawal_credentials@.len() == 32
        &&& match &self.bls_to_execution_changes {
            Some(v) => forall|j: int|
                0 <= j < v.len() ==> (#[trigger] v@[j]).message.to_execution_address@.len() == 20,
            None => true,
        }
    }
}

/// The execution requests of an Electra block: deposits, then withdrawals,
/// then consolidations.
pub open spec fn requests_outcome(s: StateView, r: ExecutionRequestsView, c: ChainSpec) -> Result<
    StateView,
    BlockProcessingError,
> {
    match deposit_requests_result(s, r.deposits, c) {
        Err(e) => Err(e),
        Ok(s1) => match withdrawal_requests_result(s1, r.withdrawals, c) {
            Err(e) => Err(e),
            Ok(s2) => consolidation_requests_result(s2, r.consolidations, c),
        },
    }
}

/// The effect of the operations of a block, each kind in turn: proposer
/// slashings, attester slashings, attestations, deposits, exits, credential
/// changes where the body has them, and since Electra the execution
/// requests.
pub open spec fn operations_outcome(
    s: StateView,
    b: BeaconBlockBodyView,
    verify: bool,
    proposer: u64,
    c: ChainSpec,
) -> Result<StateView, BlockProcessingError> {
    match apply_ops(
        s,
        b.proposer_slashings,
        |s0: StateView, p: ProposerSlashingView, k: nat| proposer_slashing_step(s0, p, k, verify, proposer, c),
    ) {
        Err(e) => Err(e),
        Ok(s1) => match apply_ops(
            s1,
            b.attester_slashings,
            |s0: StateView, a: AttesterSlashingView, k: nat| attester_slashing_step(s0, a, k, verify, proposer, c),
        ) {
            Err(e) => Err(e),
            Ok(s2) => match attestations_outcome(s2, b.attestations, verify, proposer, c) {
                Err(e) => Err(e),
                Ok(s3) => match deposits_outcome(s3, b.deposits, c) {
                    Err(e) => Err(e),
                    Ok(s4) => match apply_ops(
                        s4,
                        b.voluntary_exits,
                        |s0: StateView, e: SignedVoluntaryExitView, k: nat| exit_step(s0, e, k, verify, c),
                    ) {
                        Err(e) => Err(e),
                        Ok(s5) => {
                            let changed = match b.bls_to_execution_changes {
                                Some(ch) => apply_ops(
                                    s5,
                                    ch,
                                    |s0: StateView, e: SignedBlsToExecutionChangeView, k: nat|
                                        bls_to_execution_change_step(s0, e, k, verify, c),
                                ),
                                None => Ok(s5),
                            };
                            match changed {
                                Err(e) => Err(e),
                                Ok(s6) => if s6.electra_enabled() {
                                    match b.execution_requests {
                                        None => Err(BlockProcessingError::IncorrectStateVariant),
                                        Some(r) => requests_outcome(s6, r, c),
                                    }
                                } else {
                                    Ok(s6)
                                },
                            }
                        },
                    },
                },
            },
        },
    }
}

/// Processes the operations of a block body.
pub fn process_operations(
    state: &mut BeaconState,
    block_body: &BeaconBlockBody,
    verify_signatures: VerifySignatures,
    ctxt: &ConsensusContext,
    c: &ChainSpec,
) -> (r: Result<(), BlockProcessingError>)
    requires
        c.valid(),
        old(state)@.wf(*c),
        block_body.wf(),
    ensures
        outcome_matches(
            r,
            final(state)@,
            operations_outcome(
                old(state)@,
                block_body@,
                verify_signatures == VerifySignatures::True,
                ctxt.proposer_index,
                *c,
            ),
        ),
        final(state)@.wf(*c),
{
    process_proposer_slashings(state, &block_body.proposer_slashings, verify_signatures, ctxt, c)?;
    process_attester_slashings(state, &block_body.attester_slashings, verify_signatures, ctxt, c)?;
    process_attestations(state, &block_body.attestations, verify_signatures, ctxt, c)?;
    process_deposits(state, &block_body.deposits, c)?;
    process_exits(state, &block_body.voluntary_exits, verify_signatures, c)?;
    match &block_body.bls_to_execution_changes {
        Some(changes) => {
            process_bls_to_execution_changes(state, changes, verify_signatures, c)?;
        },
        None => {},
    }
    if state.fork_name.electra_enabled() {
        match &block_body.execution_requests {
            None => {
                return Err(BlockProcessingError::IncorrectStateVariant);
            },
            Some(requests) => {
                process_deposit_requests(state, &requests.deposits, c)?;
                process_withdrawal_requests(state, &requests.withdrawals, c)?;
                process_consolidation_requests(state, &requests.consolidations, c)?;
            },
        }
    }
    Ok(())
}

} // verus!
