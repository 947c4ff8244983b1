//! The sync committee's aggregate in a block: its signature and its rewards.
use vstd::prelude::*;
use crate::spec::ChainSpec;
use crate::errors::{ArithError, BlockProcessingError};
use crate::beacon_state::{BeaconState, StateView, pubkey_index, total_active_balance};
use crate::churn::{outcome_matches, overflow};
use crate::common::{decrease_balance, increase_balance, infinity_signature, infinity_signature_bytes, with_balance};
use crate::operations::VerifySignatures;
use crate::signing::{
    DOMAIN_SYNC_COMMITTEE, bls_aggregate_signature_valid, bls_fast_aggregate_verify, compute_domain,
    compute_domain_bytes, compute_signing_root, signing_root,
};
use crate::verify_operations::fork_version_at;
use crate::common::{PROPOSER_WEIGHT, WEIGHT_DENOMINATOR};

verus! {

/// The share of the rewards that goes to the sync committee.
pub const SYNC_REWARD_WEIGHT: u64 = 2;

/// `r` is the integer square root of `n`.
pub open spec fn is_integer_sqrt(n: nat, r: nat) -> bool {
    r * r <= n && n < (r + 1) * (r + 1)
}

/// The integer square root of `n`.
pub open spec fn integer_sqrt(n: nat) -> nat {
    choose|r: nat| is_integer_sqrt(n, r)
}

proof fn lemma_integer_sqrt_unique(n: nat, a: nat, b: nat)
    requires
        is_integer_sqrt(n, a),
        is_integer_sqrt(n, b),
    ensures
        a == b,
{
    if a < b {
        assert((a + 1) * (a + 1) <= b * b) by (nonlinear_arith)
            requires
                a + 1 <= b,
        ;
    } else if b < a {
        assert((b + 1) * (b + 1) <= a * a) by (nonlinear_arith)
            requires
                b + 1 <= a,
        ;
    }
}

/// The integer square root of `n`.
pub fn isqrt(n: u64) -> (r: u64)
    ensures
        r == integer_sqrt(n as nat),
        is_integer_sqrt(n as nat, r as nat),
{
    let mut lo: u64 = 0;
    let mut hi: u64 = 0x1_0000_0000;
    assert(hi * hi > n) by (nonlinear_arith)
        requires
            hi == 0x1_0000_0000u64,
            n <= u64::MAX,
    ;
    while hi - lo > 1
        invariant
            lo < hi <= 0x1_0000_0000u64,
            lo * lo <= n,
            n < hi * hi,
        decreases hi - lo,
    {
        let mid = lo + (hi - lo) / 2;
        assert(mid * mid <= 0xffff_ffffu64 * 0xffff_ffffu64) by (nonlinear_arith)
            requires
                mid < 0x1_0000_0000u64,
        ;
        if mid * mid <= n {
            lo = mid;
        } else {
            hi = mid;
        }
    }
    proof {
        assert(is_integer_sqrt(n as nat, lo as nat));
        let w = integer_sqrt(n as nat);
        lemma_integer_sqrt_unique(n as nat, w, lo as nat);
    }
    lo
}

/// The base reward of one increment of effective balance.
pub open spec fn base_reward_per_increment(total_active_balance: u64, c: ChainSpec) -> Result<u64, BlockProcessingError> {
    if c.effective_balance_increment * c.base_reward_factor > u64::MAX {
        overflow()
    } else if integer_sqrt(total_active_balance as nat) == 0 {
        Err(BlockProcessingError::ArithError(ArithError::DivisionByZero))
    } else {
        Ok(((c.effective_balance_increment * c.base_reward_factor) as int / integer_sqrt(total_active_balance as nat) as int) as u64)
    }
}

/// The reward of each participating member of the sync committee and the
/// proposer's reward for including each participation.
pub open spec fn sync_aggregate_rewards(s: StateView, c: ChainSpec) -> Result<(u64, u64), BlockProcessingError> {
    match total_active_balance(s, c) {
        Err(e) => Err(e),
        Ok(tab) => {
            let increments = tab / c.effective_balance_increment;
            match base_reward_per_increment(tab, c) {
                Err(e) => Err(e),
                Ok(per_increment) => {
                    if per_increment * increments > u64::MAX {
                        overflow()
                    } else if per_increment * increments * SYNC_REWARD_WEIGHT > u64::MAX {
                        overflow()
                    } else if c.sync_committee_size == 0 {
                        Err(BlockProcessingError::ArithError(ArithError::DivisionByZero))
                    } else {
                        let max_participant_rewards = (per_increment * increments * SYNC_REWARD_WEIGHT
                            / WEIGHT_DENOMINATOR as int) / c.slots_per_epoch as int;
                        let participant = max_participant_rewards / c.sync_committee_size as int;
                        if participant * PROPOSER_WEIGHT > u64::MAX {
                            overflow()
                        } else {
                            Ok(
                                (
                                    participant as u64,
                                    ((participant * PROPOSER_WEIGHT) / (WEIGHT_DENOMINATOR - PROPOSER_WEIGHT) as int) as u64,
                                ),
                            )
                        }
                    }
                },
            }
        },
    }
}

/// Computes `(participant_reward, proposer_reward)` for a sync aggregate, from
/// the pre-state of the block's slot.
pub fn compute_sync_aggregate_rewards(state: &BeaconState, c: &ChainSpec) -> (r: Result<(u64, u64), BlockProcessingError>)
    requires
        c.valid(),
    ensures
        r == sync_aggregate_rewards(state@, *c),
{
    let tab = state.get_total_active_balance(c)?;
    let increments = tab / c.effective_balance_increment;
    if c.base_reward_factor > 0 && c.effective_balance_increment > u64::MAX / c.base_reward_factor {
        proof {
            assert(c.effective_balance_increment * c.base_reward_factor > u64::MAX) by (nonlinear_arith)
                requires
                    c.base_reward_factor > 0,
                    c.effective_balance_increment > u64::MAX / c.base_reward_factor,
            ;
        }
        return Err(BlockProcessingError::ArithError(ArithError::Overflow));
    }
    proof {
        if c.base_reward_factor > 0 {
            assert(c.effective_balance_increment * c.base_reward_factor <= u64::MAX) by (nonlinear_arith)
                requires
                    c.base_reward_factor > 0,
                    c.effective_balance_increment <= u64::MAX / c.base_reward_factor,
            ;
        }
    }
    let root = isqrt(tab);
    if root == 0 {
        return Err(BlockProcessingError::ArithError(ArithError::DivisionByZero));
    }
    let per_increment = c.effective_balance_increment * c.base_reward_factor / root;
    if per_increment > 0 && increments > u64::MAX / per_increment {
        proof {
            assert(per_increment * increments > u64::MAX) by (nonlinear_arith)
                requires
                    per_increment > 0,
                    increments > u64::MAX / per_increment,
            ;
        }
        return Err(BlockProcessingError::ArithError(ArithError::Overflow));
    }
    proof {
        if per_increment > 0 {
            assert(per_increment * increments <= u64::MAX) by (nonlinear_arith)
                requires
                    per_increment > 0,
                    increments <= u64::MAX / per_increment,
            ;
        }
    }
    let total_base_rewards = per_increment * increments;
    if total_base_rewards > u64::MAX / SYNC_REWARD_WEIGHT {
        return Err(BlockProcessingError::ArithError(ArithError::Overflow));
    }
    let max_participant_rewards = total_base_rewards * SYNC_REWARD_WEIGHT / WEIGHT_DENOMINATOR / c.slots_per_epoch;
    if c.sync_committee_size == 0 {
        return Err(BlockProcessingError::ArithError(ArithError::DivisionByZero));
    }
    let participant_reward = max_participant_rewards / c.sync_committee_size;
    if participant_reward > u64::MAX / PROPOSER_WEIGHT {
        return Err(BlockProcessingError::ArithError(ArithError::Overflow));
    }
    let proposer_reward = participant_reward * PROPOSER_WEIGHT / (WEIGHT_DENOMINATOR - PROPOSER_WEIGHT);
    Ok((participant_reward, proposer_reward))
}

/// The bits of the sync committee members that signed, and their signature.
pub struct SyncAggregate {
    pub sync_committee_bits: Vec<bool>,
    pub sync_committee_signature: Vec<u8>,
}

/// The root of the block at `slot`, which must be one of the slots the state
/// remembers.
pub open spec fn block_root_at(s: StateView, slot: u64) -> Result<Seq<u8>, BlockProcessingError> {
    if slot < s.slot && s.slot <= slot + s.block_roots.len() {
        Ok(s.block_roots[(slot as int) % (s.block_roots.len() as int)])
    } else {
        Err(BlockProcessingError::SlotOutOfBounds)
    }
}

/// The keys of the members whose bit is set.
pub open spec fn participant_pubkeys(committee: Seq<Seq<u8>>, bits: Seq<bool>) -> Seq<Seq<u8>>
    decreases committee.len(),
{
    if committee.len() == 0 || bits.len() == 0 {
        Seq::empty()
    } else {
        let rest = participant_pubkeys(committee.drop_last(), bits.drop_last());
        if bits.last() {
            rest.push(committee.last())
        } else {
            rest
        }
    }
}

/// The signature of the aggregate: the point at infinity with no
/// participant, else the aggregate signature of the participants over the
/// root of the previous slot's block in the sync committee domain.
pub open spec fn sync_aggregate_signature_valid(s: StateView, bits: Seq<bool>, signature: Seq<u8>, root: Seq<u8>, c: ChainSpec) -> bool {
    let previous_slot = if s.slot > 0 {
        (s.slot - 1) as u64
    } else {
        0
    };
    if (forall|i: int| 0 <= i < bits.len() ==> !bits[i]) && signature == infinity_signature() {
        true
    } else {
        bls_aggregate_signature_valid(
            participant_pubkeys(s.current_sync_committee, bits),
            signing_root(
                root,
                compute_domain(
                    DOMAIN_SYNC_COMMITTEE,
                    fork_version_at(s.fork, (previous_slot / c.slots_per_epoch) as u64),
                    s.genesis_validators_root,
                ),
            ),
            signature,
        )
    }
}

/// The validator index of each member of the committee, where every member
/// is a validator.
pub open spec fn committee_indices(vals: Seq<crate::beacon_state::ValidatorView>, committee: Seq<Seq<u8>>) -> Option<
    Seq<nat>,
>
    decreases committee.len(),
{
    if committee.len() == 0 {
        Some(Seq::empty())
    } else {
        match committee_indices(vals, committee.drop_last()) {
            None => None,
            Some(rest) => match pubkey_index(vals, committee.last()) {
                None => None,
                Some(i) => Some(rest.push(i)),
            },
        }
    }
}

/// The rewards and penalties of the first `indices.len()` members, the
/// proposer's balance being carried apart and set last.
pub open spec fn apply_sync_rewards(
    s: StateView,
    indices: Seq<nat>,
    bits: Seq<bool>,
    proposer: nat,
    proposer_balance: u64,
    participant_reward: u64,
    proposer_reward: u64,
) -> Result<(StateView, u64), BlockProcessingError>
    decreases indices.len(),
{
    if indices.len() == 0 {
        Ok((s, proposer_balance))
    } else {
        match apply_sync_rewards(
            s,
            indices.drop_last(),
            bits.drop_last(),
            proposer,
            proposer_balance,
            participant_reward,
            proposer_reward,
        ) {
            Err(e) => Err(e),
            Ok((s1, b1)) => {
                let i = indices.last();
                if bits.last() {
                    if i == proposer {
                        if b1 + participant_reward + proposer_reward > u64::MAX {
                            overflow()
                        } else {
                            Ok((s1, (b1 + participant_reward + proposer_reward) as u64))
                        }
                    } else {
                        match increase_balance(s1, i, participant_reward) {
                            Err(e) => Err(e),
                            Ok(s2) => if b1 + proposer_reward > u64::MAX {
                                overflow()
                            } else {
                                Ok((s2, (b1 + proposer_reward) as u64))
                            },
                        }
                    }
                } else if i == proposer {
                    Ok((s1, if b1 >= participant_reward { (b1 - participant_reward) as u64 } else { 0 }))
                } else {
                    match decrease_balance(s1, i, participant_reward) {
                        Err(e) => Err(e),
                        Ok(s2) => Ok((s2, b1)),
                    }
                }
            },
        }
    }
}

/// The effect of a sync aggregate: its signature is checked where asked,
/// then each member is rewarded for signing or penalised for not, and the
/// proposer is rewarded for each signature it included.
pub open spec fn sync_aggregate_outcome(
    s: StateView,
    bits: Seq<bool>,
    signature: Seq<u8>,
    proposer: u64,
    verify: bool,
    c: ChainSpec,
) -> Result<StateView, BlockProcessingError> {
    if !s.altair_enabled() {
        Err(BlockProcessingError::IncorrectStateVariant)
    } else {
        let previous_slot = if s.slot > 0 {
            (s.slot - 1) as u64
        } else {
            0
        };
        let root = block_root_at(s, previous_slot);
        if verify && root is Err {
            Err(root->Err_0)
        } else if verify && !sync_aggregate_signature_valid(s, bits, signature, root->Ok_0, c) {
            Err(BlockProcessingError::SyncAggregateSignatureInvalid)
        } else {
            match sync_aggregate_rewards(s, c) {
                Err(e) => Err(e),
                Ok((participant_reward, proposer_reward)) => match committee_indices(
                    s.validators,
                    s.current_sync_committee,
                ) {
                    None => Err(BlockProcessingError::PubkeyCacheInconsistent),
                    Some(indices) => if proposer >= s.balances.len() {
                        Err(BlockProcessingError::BalancesOutOfBounds(proposer))
                    } else {
                        match apply_sync_rewards(
                            s,
                            indices,
                            bits,
                            proposer as nat,
                            s.balances[proposer as int],
                            participant_reward,
                            proposer_reward,
                        ) {
                            Err(e) => Err(e),
                            Ok((s1, b)) => Ok(with_balance(s1, proposer as int, b)),
                        }
                    },
                },
            }
        }
    }
}

pub(crate) fn get_block_root(state: &BeaconState, slot: u64) -> (r: Result<Vec<u8>, BlockProcessingError>)
    ensures
        match block_root_at(state@, slot) {
            Ok(root) => r matches Ok(v) && v@ == root,
            Err(e) => r == Err::<Vec<u8>, BlockProcessingError>(e),
        },
{
    let n = state.block_roots.len() as u64;
    if slot < state.slot && state.slot - slot <= n {
        let i = (slot % n) as usize;
        Ok(crate::beacon_state::copy_bytes(&state.block_roots[i]))
    } else {
        Err(BlockProcessingError::SlotOutOfBounds)
    }
}

fn participants(committee: &Vec<Vec<u8>>, bits: &Vec<bool>) -> (r: Vec<Vec<u8>>)
    requires
        committee.len() == bits.len(),
    ensures
        r@.map_values(|k: Vec<u8>| k@) == participant_pubkeys(committee@.map_values(|k: Vec<u8>| k@), bits@),
{
    let ghost cs = committee@.map_values(|k: Vec<u8>| k@);
    let mut r: Vec<Vec<u8>> = Vec::new();
    let mut i: usize = 0;
    while i < committee.len()
        invariant
            committee.len() == bits.len(),
            cs == committee@.map_values(|k: Vec<u8>| k@),
            i <= committee.len(),
            r@.map_values(|k: Vec<u8>| k@) == participant_pubkeys(cs.take(i as int), bits@.take(i as int)),
        decreases committee.len() - i,
    {
        assert(cs.take(i + 1).drop_last() =~= cs.take(i as int));
        assert(bits@.take(i + 1).drop_last() =~= bits@.take(i as int));
        if bits[i] {
            let ghost before = r@;
            let k = crate::beacon_state::copy_bytes(&committee[i]);
            r.push(k);
            assert(r@.map_values(|k: Vec<u8>| k@) =~= before.map_values(|k: Vec<u8>| k@).push(k@));
        }
        i = i + 1;
    }
    assert(cs.take(i as int) =~= cs);
    assert(bits@.take(i as int) =~= bits@);
    r
}

fn all_zero(bits: &Vec<bool>) -> (r: bool)
    ensures
        r == (forall|i: int| 0 <= i < bits.len() ==> !bits@[i]),
{
    let mut i: usize = 0;
    while i < bits.len()
        invariant
            i <= bits.len(),
            forall|j: int| 0 <= j < i ==> !bits@[j],
        decreases bits.len() - i,
    {
        if bits[i] {
            return false;
        }
        i = i + 1;
    }
    true
}

fn verify_sync_aggregate_signature(
    state: &BeaconState,
    aggregate: &SyncAggregate,
    root: &Vec<u8>,
    c: &ChainSpec,
) -> (r: bool)
    requires
        c.valid(),
        state.current_sync_committee.len() == aggregate.sync_committee_bits.len(),
    ensures
        r == sync_aggregate_signature_valid(
            state@,
            aggregate.sync_committee_bits@,
            aggregate.sync_committee_signature@,
            root@,
            *c,
        ),
{
    if all_zero(&aggregate.sync_committee_bits) && crate::beacon_state::bytes_eq(
        &aggregate.sync_committee_signature,
        &infinity_signature_bytes(),
    ) {
        return true;
    }
    let previous_slot = if state.slot > 0 {
        state.slot - 1
    } else {
        0
    };
    let epoch = previous_slot / c.slots_per_epoch;
    let domain = if epoch < state.fork.epoch {
        compute_domain_bytes(DOMAIN_SYNC_COMMITTEE, &state.fork.previous_version, &state.genesis_validators_root)
    } else {
        compute_domain_bytes(DOMAIN_SYNC_COMMITTEE, &state.fork.current_version, &state.genesis_validators_root)
    };
    let message = compute_signing_root(root, &domain);
    let pubkeys = participants(&state.current_sync_committee, &aggregate.sync_committee_bits);
    bls_fast_aggregate_verify(&pubkeys, &message, &aggregate.sync_committee_signature)
}

fn sync_committee_indices(state: &BeaconState) -> (r: Option<Vec<usize>>)
    ensures
        match committee_indices(state@.validators, state@.current_sync_committee) {
            Some(ix) => r matches Some(v) && v@.map_values(|i: usize| i as nat) == ix,
            None => r is None,
        },
{
    let ghost cs = state@.current_sync_committee;
    let mut r: Vec<usize> = Vec::new();
    let mut i: usize = 0;
    while i < state.current_sync_committee.len()
        invariant
            cs == state@.current_sync_committee,
            i <= state.current_sync_committee.len(),
            committee_indices(state@.validators, cs.take(i as int)) == Some(r@.map_values(|i: usize| i as nat)),
        decreases state.current_sync_committee.len() - i,
    {
        assert(cs.take(i + 1).drop_last() =~= cs.take(i as int));
        assert(cs.take(i + 1).last() == state.current_sync_committee@[i as int]@);
        match state.find_validator_index(&state.current_sync_committee[i]) {
            None => {
                proof {
                    lemma_committee_indices_none(state@.validators, cs, i + 1);
                }
                return None;
            },
            Some(index) => {
                let ghost before = r@;
                r.push(index);
                assert(r@.map_values(|i: usize| i as nat) =~= before.map_values(|i: usize| i as nat).push(
                    index as nat,
                ));
            },
        }
        i = i + 1;
    }
    assert(cs.take(i as int) =~= cs);
    Some(r)
}

/// The committee indices, where every member is known, are one per member.
pub proof fn lemma_committee_indices_len(vals: Seq<crate::beacon_state::ValidatorView>, cs: Seq<Seq<u8>>)
    ensures
        committee_indices(vals, cs) matches Some(ix) ==> ix.len() == cs.len(),
    decreases cs.len(),
{
    if cs.len() > 0 {
        lemma_committee_indices_len(vals, cs.drop_last());
    }
}

proof fn lemma_committee_indices_none(vals: Seq<crate::beacon_state::ValidatorView>, cs: Seq<Seq<u8>>, n: int)
    requires
        0 <= n <= cs.len(),
        committee_indices(vals, cs.take(n)) is None,
    ensures
        committee_indices(vals, cs) is None,
    decreases cs.len() - n,
{
    if n < cs.len() {
        assert(cs.take(n + 1).drop_last() =~= cs.take(n));
        lemma_committee_indices_none(vals, cs, n + 1);
    } else {
        assert(cs.take(n) =~= cs);
    }
}


/// A sync aggregate refused before any balance changes: the state predates
/// Altair, the signature is checked and fails (or its block root is not
/// known), the rewards cannot be computed, a member is not a validator, or
/// the proposer is not one.
pub open spec fn sync_aggregate_refused(
    s: StateView,
    bits: Seq<bool>,
    signature: Seq<u8>,
    proposer: u64,
    verify: bool,
    c: ChainSpec,
) -> bool {
    let previous_slot = if s.slot > 0 {
        (s.slot - 1) as u64
    } else {
        0
    };
    let root = block_root_at(s, previous_slot);
    ||| !s.altair_enabled()
    ||| (verify && root is Err)
    ||| (verify && !sync_aggregate_signature_valid(s, bits, signature, root->Ok_0, c))
    ||| sync_aggregate_rewards(s, c) is Err
    ||| committee_indices(s.validators, s.current_sync_committee) is None
    ||| proposer >= s.balances.len()
}

/// Processes the sync aggregate of a block proposed by `proposer_index`; an
/// aggregate refused before the rewards leaves the state as it was.
pub fn process_sync_aggregate(
    state: &mut BeaconState,
    aggregate: &SyncAggregate,
    proposer_index: u64,
    verify_signatures: VerifySignatures,
    c: &ChainSpec,
) -> (r: Result<(), BlockProcessingError>)
    requires
        c.valid(),
        old(state)@.wf(*c),
        aggregate.sync_committee_bits.len() == c.sync_committee_size,
    ensures
        outcome_matches(
            r,
            final(state)@,
            sync_aggregate_outcome(
                old(state)@,
                aggregate.sync_committee_bits@,
                aggregate.sync_committee_signature@,
                proposer_index,
                verify_signatures == VerifySignatures::True,
                *c,
            ),
        ),
        final(state)@.wf(*c),
        sync_aggregate_refused(
            old(state)@,
            aggregate.sync_committee_bits@,
            aggregate.sync_committee_signature@,
            proposer_index,
            verify_signatures == VerifySignatures::True,
            *c,
        ) ==> final(state)@ == old(state)@,
{
    if !state.fork_name.altair_enabled() {
        return Err(BlockProcessingError::IncorrectStateVariant);
    }
    let ghost s0 = state@;
    if verify_signatures.is_true() {
        let previous_slot = if state.slot > 0 {
            state.slot - 1
        } else {
            0
        };
        let root = get_block_root(state, previous_slot)?;
        if !verify_sync_aggregate_signature(state, aggregate, &root, c) {
            return Err(BlockProcessingError::SyncAggregateSignatureInvalid);
        }
    }
    let (participant_reward, proposer_reward) = compute_sync_aggregate_rewards(state, c)?;
    let indices = match sync_committee_indices(state) {
        None => {
            return Err(BlockProcessingError::PubkeyCacheInconsistent);
        },
        Some(v) => v,
    };
    if proposer_index >= state.balances.len() as u64 {
        return Err(BlockProcessingError::BalancesOutOfBounds(proposer_index));
    }
    let proposer = proposer_index as usize;
    let mut proposer_balance = state.balances[proposer];
    let ghost ix = indices@.map_values(|i: usize| i as nat);
    let ghost bits = aggregate.sync_committee_bits@;
    let ghost expected = sync_aggregate_outcome(
        s0,
        bits,
        aggregate.sync_committee_signature@,
        proposer_index,
        verify_signatures == VerifySignatures::True,
        *c,
    );
    proof {
        lemma_committee_indices_len(s0.validators, s0.current_sync_committee);
        assert(expected == match apply_sync_rewards(
            s0,
            ix,
            bits,
            proposer as nat,
            s0.balances[proposer as int],
            participant_reward,
            proposer_reward,
        ) {
            Err(e) => Err(e),
            Ok((s1, b)) => Ok(with_balance(s1, proposer as int, b)),
        });
    }
    assert(!sync_aggregate_refused(
        s0,
        bits,
        aggregate.sync_committee_signature@,
        proposer_index,
        verify_signatures == VerifySignatures::True,
        *c,
    ));
    let mut k: usize = 0;
    while k < indices.len()
        invariant
            c.valid(),
            state@.wf(*c),
            s0 == old(state)@,
            !sync_aggregate_refused(
                s0,
                bits,
                aggregate.sync_committee_signature@,
                proposer_index,
                verify_signatures == VerifySignatures::True,
                *c,
            ),
            expected == sync_aggregate_outcome(
                s0,
                bits,
                aggregate.sync_committee_signature@,
                proposer_index,
                verify_signatures == VerifySignatures::True,
                *c,
            ),
            expected == match apply_sync_rewards(
                s0,
                ix,
                bits,
                proposer as nat,
                s0.balances[proposer as int],
                participant_reward,
                proposer_reward,
            ) {
                Err(e) => Err(e),
                Ok((s1, b)) => Ok(with_balance(s1, proposer as int, b)),
            },
            ix == indices@.map_values(|i: usize| i as nat),
            bits == aggregate.sync_committee_bits@,
            indices.len() == aggregate.sync_committee_bits.len(),
            k <= indices.len(),
            proposer == proposer_index,
            proposer < state.balances.len(),
            state.balances.len() == s0.balances.len(),
            apply_sync_rewards(
                s0,
                ix.take(k as int),
                bits.take(k as int),
                proposer as nat,
                s0.balances[proposer as int],
                participant_reward,
                proposer_reward,
            ) == Ok::<(StateView, u64), BlockProcessingError>((state@, proposer_balance)),
        decreases indices.len() - k,
    {
        assert(ix.take(k + 1).drop_last() =~= ix.take(k as int));
        assert(bits.take(k + 1).drop_last() =~= bits.take(k as int));
        assert(ix.take(k + 1).last() == indices@[k as int] as nat);
        assert(bits.take(k + 1).last() == aggregate.sync_committee_bits@[k as int]);
        let i = indices[k];
        if aggregate.sync_committee_bits[k] {
            if i == proposer {
                if proposer_balance > u64::MAX - participant_reward || proposer_balance + participant_reward
                    > u64::MAX - proposer_reward {
                    proof {
                        lemma_apply_sync_rewards_stop(
                            s0,
                            ix,
                            bits,
                            proposer as nat,
                            s0.balances[proposer as int],
                            participant_reward,
                            proposer_reward,
                            k + 1,
                        );
                    }
                    return Err(BlockProcessingError::ArithError(ArithError::Overflow));
                }
                proposer_balance = proposer_balance + participant_reward + proposer_reward;
            } else {
                match state.increase_balance(i, participant_reward) {
                    Err(e) => {
                        proof {
                            lemma_apply_sync_rewards_stop(
                                s0,
                                ix,
                                bits,
                                proposer as nat,
                                s0.balances[proposer as int],
                                participant_reward,
                                proposer_reward,
                                k + 1,
                            );
                        }
                        return Err(e);
                    },
                    Ok(()) => {},
                }
                if proposer_balance > u64::MAX - proposer_reward {
                    proof {
                        lemma_apply_sync_rewards_stop(
                            s0,
                            ix,
                            bits,
                            proposer as nat,
                            s0.balances[proposer as int],
                            participant_reward,
                            proposer_reward,
                            k + 1,
                        );
                    }
                    return Err(BlockProcessingError::ArithError(ArithError::Overflow));
                }
                proposer_balance = proposer_balance + proposer_reward;
            }
        } else if i == proposer {
            proposer_balance = if proposer_balance >= participant_reward {
                proposer_balance - participant_reward
            } else {
                0
            };
        } else {
            match state.decrease_balance(i, participant_reward) {
                Err(e) => {
                    proof {
                        lemma_apply_sync_rewards_stop(
                            s0,
                            ix,
                            bits,
                            proposer as nat,
                            s0.balances[proposer as int],
                            participant_reward,
                            proposer_reward,
                            k + 1,
                        );
                    }
                    return Err(e);
                },
                Ok(()) => {},
            }
        }
        k = k + 1;
    }
    assert(ix.take(k as int) =~= ix);
    assert(bits.take(k as int) =~= bits);
    state.balances.set(proposer, proposer_balance);
    Ok(())
}

proof fn lemma_apply_sync_rewards_stop(
    s: StateView,
    indices: Seq<nat>,
    bits: Seq<bool>,
    proposer: nat,
    proposer_balance: u64,
    participant_reward: u64,
    proposer_reward: u64,
    n: int,
)
    requires
        0 <= n <= indices.len(),
        indices.len() == bits.len(),
        apply_sync_rewards(
            s,
            indices.take(n),
            bits.take(n),
            proposer,
            proposer_balance,
            participant_reward,
            proposer_reward,
        ) is Err,
    ensures
        apply_sync_rewards(s, indices, bits, proposer, proposer_balance, participant_reward, proposer_reward)
            == apply_sync_rewards(
            s,
            indices.take(n),
            bits.take(n),
            proposer,
            proposer_balance,
            participant_reward,
            proposer_reward,
        ),
    decreases indices.len() - n,
{
    if n < indices.len() {
        assert(indices.take(n + 1).drop_last() =~= indices.take(n));
        assert(bits.take(n + 1).drop_last() =~= bits.take(n));
        lemma_apply_sync_rewards_stop(
            s,
            indices,
            bits,
            proposer,
            proposer_balance,
            participant_reward,
            proposer_reward,
            n + 1,
        );
    } else {
        assert(indices.take(n) =~= indices);
        assert(bits.take(n) =~= bits);
    }
}

} // verus!
