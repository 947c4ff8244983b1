//! Attestations by index, and the slashing of validators that signed two
//! conflicting ones.
use vstd::prelude::*;
use crate::spec::ChainSpec;
use crate::errors::{AttesterSlashingInvalid, BlockProcessingError, IndexedAttestationInvalid};
use crate::beacon_state::{BeaconState, StateView, ValidatorView, bytes_eq, copy_bytes, current_epoch};
use crate::churn::outcome_matches;
use crate::common::{slash_validator, slash_validator_exec};
use crate::operations::{
    AttestationData, AttestationDataView, Checkpoint, CheckpointView, ConsensusContext, VerifySignatures,
};
use crate::process_operations::{apply_ops, first_failure, lemma_apply_ops_stop, lemma_first_failure_at};
use crate::signing::{
    bls_aggregate_signature_valid, bls_fast_aggregate_verify, compute_domain, compute_domain_bytes,
    compute_signing_root, concat, merkle_root, signing_root, tree_hash_merkle_root, u64_root,
    u64_root_bytes,
};
use crate::verify_operations::{fork_version_at, is_slashable_at};

verus! {

/// The domain of attestations.
pub const DOMAIN_BEACON_ATTESTER: u8 = 1;

/// An attestation with the indices of the validators that signed it.
pub struct IndexedAttestation {
    pub attesting_indices: Vec<u64>,
    pub data: AttestationData,
    pub signature: Vec<u8>,
}

pub struct IndexedAttestationView {
    pub attesting_indices: Seq<u64>,
    pub data: AttestationDataView,
    pub signature: Seq<u8>,
}

impl View for IndexedAttestation {
    type V = IndexedAttestationView;

    open spec fn view(&self) -> IndexedAttestationView {
        IndexedAttestationView {
            attesting_indices: self.attesting_indices@,
            data: self.data@,
            signature: self.signature@,
        }
    }
}

/// Two attestations that together prove misbehaviour.
pub struct AttesterSlashing {
    pub attestation_1: IndexedAttestation,
    pub attestation_2: IndexedAttestation,
}

pub struct AttesterSlashingView {
    pub attestation_1: IndexedAttestationView,
    pub attestation_2: IndexedAttestationView,
}

impl View for AttesterSlashing {
    type V = AttesterSlashingView;

    open spec fn view(&self) -> AttesterSlashingView {
        AttesterSlashingView { attestation_1: self.attestation_1@, attestation_2: self.attestation_2@ }
    }
}

pub open spec fn checkpoint_root(c: CheckpointView) -> Seq<u8> {
    merkle_root(u64_root(c.epoch) + c.root, 0)
}

pub open spec fn attestation_data_root(d: AttestationDataView) -> Seq<u8> {
    merkle_root(
        u64_root(d.slot) + u64_root(d.index) + d.beacon_block_root + checkpoint_root(d.source) + checkpoint_root(
            d.target,
        ),
        0,
    )
}

fn checkpoint_root_bytes(c: &Checkpoint) -> (r: Vec<u8>)
    ensures
        r@ == checkpoint_root(c@),
{
    tree_hash_merkle_root(&concat(&u64_root_bytes(c.epoch), &c.root), 0)
}

pub fn attestation_data_root_bytes(d: &AttestationData) -> (r: Vec<u8>)
    ensures
        r@ == attestation_data_root(d@),
{
    let a = concat(&u64_root_bytes(d.slot), &u64_root_bytes(d.index));
    let b = concat(&a, &d.beacon_block_root);
    let e = concat(&b, &checkpoint_root_bytes(&d.source));
    let f = concat(&e, &checkpoint_root_bytes(&d.target));
    tree_hash_merkle_root(&f, 0)
}

/// Two votes for the same target epoch that differ.
pub open spec fn is_double_vote(a: AttestationDataView, b: AttestationDataView) -> bool {
    a.target.epoch == b.target.epoch && a != b
}

/// The first vote surrounds the second.
pub open spec fn is_surround_vote(a: AttestationDataView, b: AttestationDataView) -> bool {
    a.source.epoch < b.source.epoch && b.target.epoch < a.target.epoch
}

fn attestation_data_equal(a: &AttestationData, b: &AttestationData) -> (r: bool)
    ensures
        r == (a@ == b@),
{
    a.slot == b.slot && a.index == b.index && bytes_eq(&a.beacon_block_root, &b.beacon_block_root)
        && a.source.epoch == b.source.epoch && bytes_eq(&a.source.root, &b.source.root) && a.target.epoch
        == b.target.epoch && bytes_eq(&a.target.root, &b.target.root)
}

/// The first position of `indices` that is not followed by a larger index.
pub open spec fn first_unordered(indices: Seq<u64>) -> Option<nat>
    decreases indices.len(),
{
    if indices.len() < 2 {
        None
    } else {
        match first_unordered(indices.drop_last()) {
            Some(i) => Some(i),
            None => if indices[indices.len() - 2] < indices.last() {
                None
            } else {
                Some((indices.len() - 2) as nat)
            },
        }
    }
}

/// The first attesting index that is not a validator.
pub open spec fn first_unknown(indices: Seq<u64>, n: nat) -> Option<u64>
    decreases indices.len(),
{
    if indices.len() == 0 {
        None
    } else {
        match first_unknown(indices.drop_last(), n) {
            Some(i) => Some(i),
            None => if indices.last() >= n {
                Some(indices.last())
            } else {
                None
            },
        }
    }
}

/// The keys of the attesting validators, in order.
pub open spec fn attesting_pubkeys(vals: Seq<ValidatorView>, indices: Seq<u64>) -> Seq<Seq<u8>> {
    indices.map_values(|i: u64| vals[i as int].pubkey)
}

/// Why an indexed attestation is invalid in `s`, if it is: its indices must
/// be present and strictly increasing, and, where signatures are checked,
/// name validators whose aggregate signs the attestation in the attester
/// domain of its target epoch.
pub open spec fn indexed_attestation_validity(
    s: StateView,
    a: IndexedAttestationView,
    verify: bool,
) -> Option<IndexedAttestationInvalid> {
    if a.attesting_indices.len() == 0 {
        Some(IndexedAttestationInvalid::IndicesEmpty)
    } else if first_unordered(a.attesting_indices) is Some {
        Some(IndexedAttestationInvalid::BadValidatorIndicesOrdering(first_unordered(a.attesting_indices)->0 as u64))
    } else if !verify {
        None
    } else if first_unknown(a.attesting_indices, s.validators.len()) is Some {
        Some(IndexedAttestationInvalid::UnknownValidator(first_unknown(a.attesting_indices, s.validators.len())->0))
    } else if !bls_aggregate_signature_valid(
        attesting_pubkeys(s.validators, a.attesting_indices),
        signing_root(
            attestation_data_root(a.data),
            compute_domain(
                DOMAIN_BEACON_ATTESTER,
                fork_version_at(s.fork, a.data.target.epoch),
                s.genesis_validators_root,
            ),
        ),
        a.signature,
    ) {
        Some(IndexedAttestationInvalid::BadSignature)
    } else {
        None
    }
}

fn check_sorted(indices: &Vec<u64>) -> (r: Option<u64>)
    ensures
        match first_unordered(indices@) {
            Some(i) => r == Some(i as u64),
            None => r is None,
        },
{
    let mut k: usize = 1;
    if indices.len() < 2 {
        return None;
    }
    while k < indices.len()
        invariant
            1 <= k <= indices.len(),
            indices.len() >= 2,
            first_unordered(indices@.take(k as int)) is None,
        decreases indices.len() - k,
    {
        assert(indices@.take(k + 1).drop_last() =~= indices@.take(k as int));
        assert(indices@.take(k + 1)[k - 1] == indices@[k - 1]);
        if !(indices[k - 1] < indices[k]) {
            proof {
                lemma_first_unordered_stop(indices@, k + 1);
            }
            return Some((k - 1) as u64);
        }
        k = k + 1;
    }
    assert(indices@.take(k as int) =~= indices@);
    None
}

proof fn lemma_first_unordered_stop(s: Seq<u64>, n: int)
    requires
        0 <= n <= s.len(),
        first_unordered(s.take(n)) is Some,
    ensures
        first_unordered(s) == first_unordered(s.take(n)),
    decreases s.len() - n,
{
    if n < s.len() {
        assert(s.take(n + 1).drop_last() =~= s.take(n));
        lemma_first_unordered_stop(s, n + 1);
    } else {
        assert(s.take(n) =~= s);
    }
}

proof fn lemma_first_unknown_stop(s: Seq<u64>, bound: nat, n: int)
    requires
        0 <= n <= s.len(),
        first_unknown(s.take(n), bound) is Some,
    ensures
        first_unknown(s, bound) == first_unknown(s.take(n), bound),
    decreases s.len() - n,
{
    if n < s.len() {
        assert(s.take(n + 1).drop_last() =~= s.take(n));
        lemma_first_unknown_stop(s, bound, n + 1);
    } else {
        assert(s.take(n) =~= s);
    }
}

/// The keys of the attesting validators, or the first index that is not a
/// validator.
fn gather_pubkeys(state: &BeaconState, indices: &Vec<u64>) -> (r: Result<Vec<Vec<u8>>, u64>)
    ensures
        match first_unknown(indices@, state@.validators.len()) {
            Some(i) => r == Err::<Vec<Vec<u8>>, u64>(i),
            None => r matches Ok(v) && v@.map_values(|k: Vec<u8>| k@) == attesting_pubkeys(
                state@.validators,
                indices@,
            ),
        },
{
    let ghost vals = state@.validators;
    let mut r: Vec<Vec<u8>> = Vec::new();
    let mut k: usize = 0;
    while k < indices.len()
        invariant
            vals == state@.validators,
            k <= indices.len(),
            first_unknown(indices@.take(k as int), vals.len()) is None,
            r@.map_values(|b: Vec<u8>| b@) == attesting_pubkeys(vals, indices@.take(k as int)),
        decreases indices.len() - k,
    {
        assert(indices@.take(k + 1).drop_last() =~= indices@.take(k as int));
        let i = indices[k];
        if i >= state.validators.len() as u64 {
            proof {
                lemma_first_unknown_stop(indices@, vals.len(), k + 1);
            }
            return Err(i);
        }
        let ghost before = r@;
        let key = copy_bytes(&state.validators[i as usize].pubkey);
        assert(key@ == vals[i as int].pubkey);
        r.push(key);
        assert(r@.map_values(|b: Vec<u8>| b@) =~= before.map_values(|b: Vec<u8>| b@).push(key@));
        assert(attesting_pubkeys(vals, indices@.take(k + 1)) =~= attesting_pubkeys(vals, indices@.take(k as int)).push(
            vals[i as int].pubkey,
        ));
        k = k + 1;
    }
    assert(indices@.take(k as int) =~= indices@);
    Ok(r)
}

/// Checks an indexed attestation against the state.
pub fn is_valid_indexed_attestation(
    state: &BeaconState,
    attestation: &IndexedAttestation,
    verify_signatures: VerifySignatures,
    c: &ChainSpec,
) -> (r: Option<IndexedAttestationInvalid>)
    ensures
        r == indexed_attestation_validity(state@, attestation@, verify_signatures == VerifySignatures::True),
{
    if attestation.attesting_indices.len() == 0 {
        return Some(IndexedAttestationInvalid::IndicesEmpty);
    }
    match check_sorted(&attestation.attesting_indices) {
        Some(i) => {
            return Some(IndexedAttestationInvalid::BadValidatorIndicesOrdering(i));
        },
        None => {},
    }
    if !verify_signatures.is_true() {
        return None;
    }
    let pubkeys = match gather_pubkeys(state, &attestation.attesting_indices) {
        Err(i) => {
            return Some(IndexedAttestationInvalid::UnknownValidator(i));
        },
        Ok(v) => v,
    };
    let epoch = attestation.data.target.epoch;
    let domain = if epoch < state.fork.epoch {
        compute_domain_bytes(DOMAIN_BEACON_ATTESTER, &state.fork.previous_version, &state.genesis_validators_root)
    } else {
        compute_domain_bytes(DOMAIN_BEACON_ATTESTER, &state.fork.current_version, &state.genesis_validators_root)
    };
    let message = compute_signing_root(&attestation_data_root_bytes(&attestation.data), &domain);
    if !bls_fast_aggregate_verify(&pubkeys, &message, &attestation.signature) {
        return Some(IndexedAttestationInvalid::BadSignature);
    }
    None
}

/// The indices of `a` that also occur in `b`, in the order of `a`, that name
/// slashable validators; or the first such index that is not a validator.
pub open spec fn slashable_indices(
    vals: Seq<ValidatorView>,
    a: Seq<u64>,
    b: Seq<u64>,
    epoch: u64,
) -> Result<Seq<u64>, AttesterSlashingInvalid>
    decreases a.len(),
{
    if a.len() == 0 {
        Ok(Seq::empty())
    } else {
        match slashable_indices(vals, a.drop_last(), b, epoch) {
            Err(e) => Err(e),
            Ok(rest) => {
                let i = a.last();
                if !b.contains(i) {
                    Ok(rest)
                } else if i >= vals.len() {
                    Err(AttesterSlashingInvalid::UnknownValidator(i))
                } else if is_slashable_at(vals[i as int], epoch) {
                    Ok(rest.push(i))
                } else {
                    Ok(rest)
                }
            },
        }
    }
}

/// What an attester slashing proves, if valid: the validators in both
/// attestations that can be slashed, in increasing order.
pub open spec fn attester_slashing_validity(
    s: StateView,
    a: AttesterSlashingView,
    verify: bool,
    c: ChainSpec,
) -> Result<Seq<u64>, AttesterSlashingInvalid> {
    let d1 = a.attestation_1.data;
    let d2 = a.attestation_2.data;
    if !(is_double_vote(d1, d2) || is_surround_vote(d1, d2)) {
        Err(AttesterSlashingInvalid::NotSlashable)
    } else if indexed_attestation_validity(s, a.attestation_1, verify) is Some {
        Err(AttesterSlashingInvalid::IndexedAttestation1Invalid(indexed_attestation_validity(s, a.attestation_1, verify)->0))
    } else if indexed_attestation_validity(s, a.attestation_2, verify) is Some {
        Err(AttesterSlashingInvalid::IndexedAttestation2Invalid(indexed_attestation_validity(s, a.attestation_2, verify)->0))
    } else {
        match slashable_indices(
            s.validators,
            a.attestation_1.attesting_indices,
            a.attestation_2.attesting_indices,
            current_epoch(s, c),
        ) {
            Err(e) => Err(e),
            Ok(ix) => if ix.len() == 0 {
                Err(AttesterSlashingInvalid::NoSlashableIndices)
            } else {
                Ok(ix)
            },
        }
    }
}

fn contains_index(v: &Vec<u64>, x: u64) -> (r: bool)
    ensures
        r == v@.contains(x),
{
    let mut i: usize = 0;
    while i < v.len()
        invariant
            i <= v.len(),
            forall|j: int| 0 <= j < i ==> v@[j] != x,
        decreases v.len() - i,
    {
        if v[i] == x {
            assert(v@[i as int] == x);
            return true;
        }
        i = i + 1;
    }
    false
}

proof fn lemma_slashable_indices_stop(vals: Seq<ValidatorView>, a: Seq<u64>, b: Seq<u64>, epoch: u64, n: int)
    requires
        0 <= n <= a.len(),
        slashable_indices(vals, a.take(n), b, epoch) is Err,
    ensures
        slashable_indices(vals, a, b, epoch) == slashable_indices(vals, a.take(n), b, epoch),
    decreases a.len() - n,
{
    if n < a.len() {
        assert(a.take(n + 1).drop_last() =~= a.take(n));
        lemma_slashable_indices_stop(vals, a, b, epoch, n + 1);
    } else {
        assert(a.take(n) =~= a);
    }
}

/// Checks an attester slashing; gives the validators that it slashes.
pub fn verify_attester_slashing(
    state: &BeaconState,
    attester_slashing: &AttesterSlashing,
    verify_signatures: VerifySignatures,
    c: &ChainSpec,
) -> (r: Result<Vec<u64>, AttesterSlashingInvalid>)
    requires
        c.valid(),
    ensures
        match attester_slashing_validity(state@, attester_slashing@, verify_signatures == VerifySignatures::True, *c) {
            Ok(ix) => r matches Ok(v) && v@ == ix,
            Err(e) => r == Err::<Vec<u64>, AttesterSlashingInvalid>(e),
        },
{
    let a1 = &attester_slashing.attestation_1;
    let a2 = &attester_slashing.attestation_2;
    let double = a1.data.target.epoch == a2.data.target.epoch && !attestation_data_equal(&a1.data, &a2.data);
    let surround = a1.data.source.epoch < a2.data.source.epoch && a2.data.target.epoch < a1.data.target.epoch;
    if !(double || surround) {
        return Err(AttesterSlashingInvalid::NotSlashable);
    }
    match is_valid_indexed_attestation(state, a1, verify_signatures, c) {
        Some(e) => {
            return Err(AttesterSlashingInvalid::IndexedAttestation1Invalid(e));
        },
        None => {},
    }
    match is_valid_indexed_attestation(state, a2, verify_signatures, c) {
        Some(e) => {
            return Err(AttesterSlashingInvalid::IndexedAttestation2Invalid(e));
        },
        None => {},
    }
    let epoch = state.current_epoch(c);
    let ghost vals = state@.validators;
    let ghost a = a1.attesting_indices@;
    let ghost b = a2.attesting_indices@;
    let ghost expected = attester_slashing_validity(
        state@,
        attester_slashing@,
        verify_signatures == VerifySignatures::True,
        *c,
    );
    assert(expected == match slashable_indices(vals, a, b, epoch) {
        Err(e) => Err(e),
        Ok(ix) => if ix.len() == 0 {
            Err(AttesterSlashingInvalid::NoSlashableIndices)
        } else {
            Ok(ix)
        },
    });
    let mut r: Vec<u64> = Vec::new();
    let mut k: usize = 0;
    while k < a1.attesting_indices.len()
        invariant
            vals == state@.validators,
            a == a1.attesting_indices@,
            b == a2.attesting_indices@,
            epoch == current_epoch(state@, *c),
            expected == attester_slashing_validity(
                state@,
                attester_slashing@,
                verify_signatures == VerifySignatures::True,
                *c,
            ),
            expected == match slashable_indices(vals, a, b, epoch) {
                Err(e) => Err(e),
                Ok(ix) => if ix.len() == 0 {
                    Err(AttesterSlashingInvalid::NoSlashableIndices)
                } else {
                    Ok(ix)
                },
            },
            k <= a1.attesting_indices.len(),
            slashable_indices(vals, a.take(k as int), b, epoch) == Ok::<Seq<u64>, AttesterSlashingInvalid>(r@),
        decreases a1.attesting_indices.len() - k,
    {
        assert(a.take(k + 1).drop_last() =~= a.take(k as int));
        let i = a1.attesting_indices[k];
        if contains_index(&a2.attesting_indices, i) {
            if i >= state.validators.len() as u64 {
                proof {
                    lemma_slashable_indices_stop(vals, a, b, epoch, k + 1);
                }
                return Err(AttesterSlashingInvalid::UnknownValidator(i));
            }
            let v = &state.validators[i as usize];
            if !v.slashed && v.activation_epoch <= epoch && epoch < v.withdrawable_epoch {
                r.push(i);
            }
        }
        k = k + 1;
    }
    assert(a.take(k as int) =~= a);
    if r.len() == 0 {
        return Err(AttesterSlashingInvalid::NoSlashableIndices);
    }
    Ok(r)
}

/// Slashes each of `indices` in turn.
pub open spec fn slash_all(s: StateView, indices: Seq<u64>, proposer: u64, c: ChainSpec) -> Result<
    StateView,
    BlockProcessingError,
>
    decreases indices.len(),
{
    if indices.len() == 0 {
        Ok(s)
    } else {
        match slash_all(s, indices.drop_last(), proposer, c) {
            Err(e) => Err(e),
            Ok(s1) => slash_validator(s1, indices.last() as nat, None, proposer as nat, c),
        }
    }
}

/// The effect of the attester slashing at position `k` of the block's list.
pub open spec fn attester_slashing_step(
    s: StateView,
    a: AttesterSlashingView,
    k: nat,
    verify: bool,
    proposer: u64,
    c: ChainSpec,
) -> Result<StateView, BlockProcessingError> {
    match attester_slashing_validity(s, a, verify, c) {
        Err(reason) => Err(BlockProcessingError::AttesterSlashingInvalid { index: k as u64, reason }),
        Ok(ix) => slash_all(s, ix, proposer, c),
    }
}

proof fn lemma_slash_all_stop(s: StateView, ix: Seq<u64>, proposer: u64, c: ChainSpec, n: int)
    requires
        0 <= n <= ix.len(),
        slash_all(s, ix.take(n), proposer, c) is Err,
    ensures
        slash_all(s, ix, proposer, c) == slash_all(s, ix.take(n), proposer, c),
    decreases ix.len() - n,
{
    if n < ix.len() {
        assert(ix.take(n + 1).drop_last() =~= ix.take(n));
        lemma_slash_all_stop(s, ix, proposer, c, n + 1);
    } else {
        assert(ix.take(n) =~= ix);
    }
}

fn slash_indices(
    state: &mut BeaconState,
    indices: &Vec<u64>,
    ctxt: &ConsensusContext,
    c: &ChainSpec,
) -> (r: Result<(), BlockProcessingError>)
    requires
        c.valid(),
        old(state)@.wf(*c),
    ensures
        outcome_matches(r, final(state)@, slash_all(old(state)@, indices@, ctxt.proposer_index, *c)),
        final(state)@.wf(*c),
{
    let ghost s0 = state@;
    let mut k: usize = 0;
    while k < indices.len()
        invariant
            c.valid(),
            state@.wf(*c),
            s0 == old(state)@,
            k <= indices.len(),
            slash_all(s0, indices@.take(k as int), ctxt.proposer_index, *c) == Ok::<StateView, BlockProcessingError>(
                state@,
            ),
        decreases indices.len() - k,
    {
        assert(indices@.take(k + 1).drop_last() =~= indices@.take(k as int));
        let i = indices[k];
        if i >= state.validators.len() as u64 {
            let ghost pre = state@;
            proof {
                assert(crate::common::spec_initiate_validator_exit(pre, i as nat, *c) is Err);
                lemma_slash_all_stop(s0, indices@, ctxt.proposer_index, *c, k + 1);
            }
            return Err(BlockProcessingError::UnknownValidator(i));
        }
        match slash_validator_exec(state, i as usize, None, ctxt.proposer_index, c) {
            Err(e) => {
                proof {
                    lemma_slash_all_stop(s0, indices@, ctxt.proposer_index, *c, k + 1);
                }
                return Err(e);
            },
            Ok(()) => {},
        }
        k = k + 1;
    }
    assert(indices@.take(k as int) =~= indices@);
    Ok(())
}

/// Validates each attester slashing and slashes the validators it proves
/// guilty, in order, stopping at the first invalid one, which leaves the
/// state that the slashings before it left.
pub fn process_attester_slashings(
    state: &mut BeaconState,
    attester_slashings: &Vec<AttesterSlashing>,
    verify_signatures: VerifySignatures,
    ctxt: &ConsensusContext,
    c: &ChainSpec,
) -> (r: Result<(), BlockProcessingError>)
    requires
        c.valid(),
        old(state)@.wf(*c),
    ensures
        outcome_matches(
            r,
            final(state)@,
            apply_ops(
                old(state)@,
                attester_slashings@.map_values(|a: AttesterSlashing| a@),
                |s: StateView, a: AttesterSlashingView, k: nat|
                    attester_slashing_step(
                        s,
                        a,
                        k,
                        verify_signatures == VerifySignatures::True,
                        ctxt.proposer_index,
                        *c,
                    ),
            ),
        ),
        final(state)@.wf(*c),
        r is Err ==> ({
            let (k, p) = first_failure(
                old(state)@,
                attester_slashings@.map_values(|a: AttesterSlashing| a@),
                |s: StateView, a: AttesterSlashingView, k: nat|
                    attester_slashing_step(
                        s,
                        a,
                        k,
                        verify_signatures == VerifySignatures::True,
                        ctxt.proposer_index,
                        *c,
                    ),
            );
            attester_slashing_validity(p, attester_slashings@[k as int]@, verify_signatures == VerifySignatures::True, *c)
                is Err ==> final(state)@ == p
        }),
{
    let ghost s0 = state@;
    let ghost ops = attester_slashings@.map_values(|a: AttesterSlashing| a@);
    let ghost step = |s: StateView, a: AttesterSlashingView, k: nat|
        attester_slashing_step(s, a, k, verify_signatures == VerifySignatures::True, ctxt.proposer_index, *c);
    let mut k: usize = 0;
    while k < attester_slashings.len()
        invariant
            c.valid(),
            state@.wf(*c),
            s0 == old(state)@,
            k <= attester_slashings.len(),
            ops == attester_slashings@.map_values(|a: AttesterSlashing| a@),
            step == (|s: StateView, a: AttesterSlashingView, k: nat|
                attester_slashing_step(
                    s,
                    a,
                    k,
                    verify_signatures == VerifySignatures::True,
                    ctxt.proposer_index,
                    *c,
                )),
            apply_ops(s0, ops.take(k as int), step) == Ok::<StateView, BlockProcessingError>(state@),
        decreases attester_slashings.len() - k,
    {
        assert(ops.take(k + 1).drop_last() =~= ops.take(k as int));
        assert(ops.take(k + 1).last() == attester_slashings@[k as int]@);
        let ghost pre = state@;
        assert(apply_ops(s0, ops.take(k + 1), step) == step(pre, ops[k as int], k as nat));
        assert(step(pre, ops[k as int], k as nat) == attester_slashing_step(
            pre,
            ops[k as int],
            k as nat,
            verify_signatures == VerifySignatures::True,
            ctxt.proposer_index,
            *c,
        ));
        let indices = match verify_attester_slashing(state, &attester_slashings[k], verify_signatures, c) {
            Err(reason) => {
                proof {
                    lemma_apply_ops_stop(s0, ops, step, k + 1);
                    lemma_first_failure_at(s0, ops, step, k as int, pre);
                }
                return Err(BlockProcessingError::AttesterSlashingInvalid { index: k as u64, reason });
            },
            Ok(v) => v,
        };
        match slash_indices(state, &indices, ctxt, c) {
            Err(e) => {
                proof {
                    lemma_apply_ops_stop(s0, ops, step, k + 1);
                    lemma_first_failure_at(s0, ops, step, k as int, pre);
                }
                return Err(e);
            },
            Ok(()) => {},
        }
        k = k + 1;
    }
    assert(ops.take(k as int) =~= ops);
    Ok(())
}

} // verus!
