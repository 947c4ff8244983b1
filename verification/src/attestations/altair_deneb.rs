//! Attestations on states since Altair: they set participation flags.
use vstd::prelude::*;
use crate::spec::ChainSpec;
use crate::errors::BlockProcessingError;
use crate::beacon_state::{BeaconState, StateView};
use crate::churn::outcome_matches;
use crate::operations::{ConsensusContext, VerifySignatures};
use crate::process_operations::{apply_ops, first_failure, lemma_apply_ops_stop, lemma_first_failure_at};
use crate::attestations::{Attestation, AttestationView, attestation_outcome, attestation_refused, process_attestation};

verus! {

/// Processes the attestations of a block in order (since Altair), stopping
/// at the first that fails.
pub fn process_attestations(
    state: &mut BeaconState,
    attestations: &Vec<Attestation>,
    verify_signatures: VerifySignatures,
    ctxt: &ConsensusContext,
    c: &ChainSpec,
) -> (r: Result<(), BlockProcessingError>)
    requires
        c.valid(),
        old(state)@.wf(*c),
    ensures
        outcome_matches(
            r,
            final(state)@,
            apply_ops(
                old(state)@,
                attestations@.map_values(|a: Attestation| a@),
                |s: StateView, a: AttestationView, k: nat|
                    attestation_outcome(s, a, k, verify_signatures == VerifySignatures::True, ctxt.proposer_index, *c),
            ),
        ),
        final(state)@.wf(*c),
        r is Err ==> ({
            let (k, p) = first_failure(
                old(state)@,
                attestations@.map_values(|a: Attestation| a@),
                |s: StateView, a: AttestationView, k: nat|
                    attestation_outcome(s, a, k, verify_signatures == VerifySignatures::True, ctxt.proposer_index, *c),
            );
            attestation_refused(p, attestations@[k as int]@, k, verify_signatures == VerifySignatures::True, *c)
                ==> final(state)@ == p
        }),
{
    let ghost s0 = state@;
    let ghost ops = attestations@.map_values(|a: Attestation| a@);
    let ghost step = |s: StateView, a: AttestationView, k: nat|
        attestation_outcome(s, a, k, verify_signatures == VerifySignatures::True, ctxt.proposer_index, *c);
    let mut k: usize = 0;
    while k < attestations.len()
        invariant
            c.valid(),
            state@.wf(*c),
            s0 == old(state)@,
            k <= attestations.len(),
            ops == attestations@.map_values(|a: Attestation| a@),
            step == (|s: StateView, a: AttestationView, k: nat|
                attestation_outcome(s, a, k, verify_signatures == VerifySignatures::True, ctxt.proposer_index, *c)),
            apply_ops(s0, ops.take(k as int), step) == Ok::<StateView, BlockProcessingError>(state@),
        decreases attestations.len() - k,
    {
        assert(ops.take(k + 1).drop_last() =~= ops.take(k as int));
        assert(ops.take(k + 1).last() == attestations@[k as int]@);
        let ghost pre = state@;
        assert(apply_ops(s0, ops.take(k + 1), step) == step(pre, ops[k as int], k as nat));
        match process_attestation(state, &attestations[k], k, ctxt, verify_signatures, c) {
            Err(e) => {
                proof {
                    lemma_apply_ops_stop(s0, ops, step, k + 1);
                    lemma_first_failure_at(s0, ops, step, k as int, pre);
                }
                return Err(e);
            },
            Ok(()) => {},
        }
        k = k + 1;
    }
    assert(ops.take(k as int) =~= ops);
    Ok(())
}

} // verus!
