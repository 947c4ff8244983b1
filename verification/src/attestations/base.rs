//! Attestations on base states: they wait in the state for the epoch's
//! processing.
use vstd::prelude::*;
use crate::spec::ChainSpec;
use crate::errors::BlockProcessingError;
use crate::beacon_state::{BeaconState, PendingAttestation, StateView};
use crate::churn::outcome_matches;
use crate::operations::{ConsensusContext, VerifySignatures};
use crate::process_operations::{apply_ops, first_failure, lemma_apply_ops_stop, lemma_first_failure_at};
use crate::attestations::{
    Attestation, AttestationView, base_attestation_outcome, copy_bits, copy_data,
    verify_attestation_for_block_inclusion,
};

verus! {

/// Processes the attestations of a block on a base state: each valid one
/// waits for the epoch's processing.
pub fn process_attestations(
    state: &mut BeaconState,
    attestations: &Vec<Attestation>,
    verify_signatures: VerifySignatures,
    ctxt: &ConsensusContext,
    c: &ChainSpec,
) -> (r: Result<(), BlockProcessingError>)
    requires
        c.valid(),
        old(state)@.wf(*c),
    ensures
        outcome_matches(
            r,
            final(state)@,
            apply_ops(
                old(state)@,
                attestations@.map_values(|a: Attestation| a@),
                |s: StateView, a: AttestationView, k: nat|
                    base_attestation_outcome(
                        s,
                        a,
                        k,
                        verify_signatures == VerifySignatures::True,
                        ctxt.proposer_index,
                        *c,
                    ),
            ),
        ),
        final(state)@.wf(*c),
        r is Err ==> final(state)@ == first_failure(
            old(state)@,
            attestations@.map_values(|a: Attestation| a@),
            |s: StateView, a: AttestationView, k: nat|
                base_attestation_outcome(
                    s,
                    a,
                    k,
                    verify_signatures == VerifySignatures::True,
                    ctxt.proposer_index,
                    *c,
                ),
        ).1,
{
    let ghost s0 = state@;
    let ghost ops = attestations@.map_values(|a: Attestation| a@);
    let ghost step = |s: StateView, a: AttestationView, k: nat|
        base_attestation_outcome(s, a, k, verify_signatures == VerifySignatures::True, ctxt.proposer_index, *c);
    let mut k: usize = 0;
    while k < attestations.len()
        invariant
            c.valid(),
            state@.wf(*c),
            s0 == old(state)@,
            k <= attestations.len(),
            ops == attestations@.map_values(|a: Attestation| a@),
            step == (|s: StateView, a: AttestationView, k: nat|
                base_attestation_outcome(
                    s,
                    a,
                    k,
                    verify_signatures == VerifySignatures::True,
                    ctxt.proposer_index,
                    *c,
                )),
            apply_ops(s0, ops.take(k as int), step) == Ok::<StateView, BlockProcessingError>(state@),
        decreases attestations.len() - k,
    {
        assert(ops.take(k + 1).drop_last() =~= ops.take(k as int));
        assert(ops.take(k + 1).last() == attestations@[k as int]@);
        let ghost pre = state@;
        assert(apply_ops(s0, ops.take(k + 1), step) == step(pre, ops[k as int], k as nat));
        let a = &attestations[k];
        match verify_attestation_for_block_inclusion(state, a, k, verify_signatures, c) {
            Err(e) => {
                proof {
                    lemma_apply_ops_stop(s0, ops, step, k + 1);
                    lemma_first_failure_at(s0, ops, step, k as int, pre);
                }
                return Err(e);
            },
            Ok(_) => {},
        }
        if a.committee_bits.is_some() {
            proof {
                lemma_apply_ops_stop(s0, ops, step, k + 1);
                lemma_first_failure_at(s0, ops, step, k as int, pre);
            }
            return Err(BlockProcessingError::PendingAttestationInElectra);
        }
        let pending = PendingAttestation {
            aggregation_bits: copy_bits(&a.aggregation_bits),
            data: copy_data(&a.data),
            inclusion_delay: state.slot - a.data.slot,
            proposer_index: ctxt.proposer_index,
        };
        if a.data.target.epoch == state.current_epoch(c) {
            if state.current_epoch_attestations.len() as u64 >= c.max_pending_attestations {
                proof {
                    lemma_apply_ops_stop(s0, ops, step, k + 1);
                    lemma_first_failure_at(s0, ops, step, k as int, pre);
                }
                return Err(BlockProcessingError::ListFull);
            }
            let ghost before = state.current_epoch_attestations@;
            state.current_epoch_attestations.push(pending);
            assert(state.current_epoch_attestations@.map_values(|a: PendingAttestation| a@) =~= before.map_values(
                |a: PendingAttestation| a@,
            ).push(pending@));
        } else {
            if state.previous_epoch_attestations.len() as u64 >= c.max_pending_attestations {
                proof {
                    lemma_apply_ops_stop(s0, ops, step, k + 1);
                    lemma_first_failure_at(s0, ops, step, k as int, pre);
                }
                return Err(BlockProcessingError::ListFull);
            }
            let ghost before = state.previous_epoch_attestations@;
            state.previous_epoch_attestations.push(pending);
            assert(state.previous_epoch_attestations@.map_values(|a: PendingAttestation| a@) =~= before.map_values(
                |a: PendingAttestation| a@,
            ).push(pending@));
        }
        k = k + 1;
    }
    assert(ops.take(k as int) =~= ops);
    Ok(())
}

} // verus!
