//! Deposits made through the deposit contract and carried in blocks.
use vstd::prelude::*;
use crate::spec::ChainSpec;
use crate::errors::{ArithError, BlockProcessingError, DepositInvalid};
use crate::beacon_state::{BeaconState, PendingDeposit, PendingDepositView, StateView, copy_bytes, pubkey_index};
use crate::churn::{outcome_matches, overflow};
use crate::common::{add_validator_to_registry, increase_balance};
use crate::operations::{Deposit, DepositData, DepositDataView, DepositView};
use crate::process_operations::{apply_ops, lemma_apply_ops_stop};
use crate::verify_operations::{
    deposit_data_root, deposit_data_root_bytes, deposit_signature_valid, is_valid_deposit_signature,
    is_valid_merkle_branch, verify_merkle_proof,
};

verus! {

/// The branch proves the deposit data at `index` of the deposit tree whose
/// root the state holds (the tree has one more level, for its length).
pub open spec fn deposit_proof_valid(
    s: StateView,
    d: DepositDataView,
    branch: Seq<Seq<u8>>,
    index: u64,
    c: ChainSpec,
) -> bool {
    is_valid_merkle_branch(
        deposit_data_root(d),
        branch,
        (c.deposit_contract_tree_depth + 1) as nat,
        index as nat,
        s.eth1_data.deposit_root,
    )
}

/// The error a merkle proof of a deposit at `index` gives, if any.
pub open spec fn deposit_proof_error(
    s: StateView,
    d: DepositDataView,
    branch: Seq<Seq<u8>>,
    index: u64,
    position: u64,
    c: ChainSpec,
) -> Option<BlockProcessingError> {
    if c.deposit_contract_tree_depth == u64::MAX {
        Some(BlockProcessingError::ArithError(ArithError::Overflow))
    } else if !deposit_proof_valid(s, d, branch, index, c) {
        Some(BlockProcessingError::DepositInvalid { index: position, reason: DepositInvalid::BadMerkleProof })
    } else {
        None
    }
}

/// The state with `d` at the end of the deposit queue, which must exist and
/// have room.
pub open spec fn push_pending_deposit(
    s: StateView,
    d: PendingDepositView,
    c: ChainSpec,
) -> Result<StateView, BlockProcessingError> {
    if !s.electra_enabled() {
        Err(BlockProcessingError::IncorrectStateVariant)
    } else if s.pending_deposits.len() >= c.pending_deposits_limit {
        Err(BlockProcessingError::ListFull)
    } else {
        Ok(StateView { pending_deposits: s.pending_deposits.push(d), ..s })
    }
}

/// The deposit as it waits in the queue.
pub open spec fn queued_deposit(d: DepositDataView, c: ChainSpec) -> PendingDepositView {
    PendingDepositView {
        pubkey: d.pubkey,
        withdrawal_credentials: d.withdrawal_credentials,
        amount: d.amount,
        signature: d.signature,
        slot: c.genesis_slot,
    }
}

/// A deposit refused before it touches the state: its proof fails, or the
/// deposit index it would advance is already the largest.
pub open spec fn deposit_refused_unchanged(
    s: StateView,
    d: DepositDataView,
    branch: Option<Seq<Seq<u8>>>,
    increment: bool,
    c: ChainSpec,
) -> bool {
    ||| (branch matches Some(p) && deposit_proof_error(s, d, p, s.eth1_deposit_index, s.eth1_deposit_index, c) is Some)
    ||| (increment && s.eth1_deposit_index == u64::MAX)
}

/// The state that a deposit leaves when it fails after its proof: the
/// deposit index advanced (where asked), and the new validator added where
/// only queueing its deposit failed.
pub open spec fn deposit_failure_state(
    s: StateView,
    d: DepositDataView,
    increment: bool,
    c: ChainSpec,
) -> StateView {
    let s1 = if increment {
        StateView { eth1_deposit_index: (s.eth1_deposit_index + 1) as u64, ..s }
    } else {
        s
    };
    match pubkey_index(s1.validators, d.pubkey) {
        Some(_) => s1,
        None => {
            let amount: u64 = if s1.electra_enabled() {
                0
            } else {
                d.amount
            };
            match add_validator_to_registry(s1, d.pubkey, d.withdrawal_credentials, amount, c) {
                Ok(s2) => s2,
                Err(_) => s1,
            }
        },
    }
}

/// The effect of one deposit: its proof, where one is given, is checked
/// against the next deposit index, which then advances if asked; a deposit
/// for a known key tops that validator up (queued since Electra), and one for
/// a new key with a valid signature adds a validator (its amount queued since
/// Electra). A new key with a bad signature changes nothing more.
pub open spec fn deposit_outcome(
    s: StateView,
    d: DepositDataView,
    branch: Option<Seq<Seq<u8>>>,
    increment: bool,
    c: ChainSpec,
) -> Result<StateView, BlockProcessingError> {
    let proof_error = match branch {
        Some(p) => deposit_proof_error(s, d, p, s.eth1_deposit_index, s.eth1_deposit_index, c),
        None => None,
    };
    if proof_error is Some {
        Err(proof_error->0)
    } else if increment && s.eth1_deposit_index == u64::MAX {
        overflow()
    } else {
        let s1 = if increment {
            StateView { eth1_deposit_index: (s.eth1_deposit_index + 1) as u64, ..s }
        } else {
            s
        };
        match pubkey_index(s1.validators, d.pubkey) {
            Some(i) => {
                if s1.electra_enabled() {
                    push_pending_deposit(s1, queued_deposit(d, c), c)
                } else {
                    increase_balance(s1, i, d.amount)
                }
            },
            None => {
                if !deposit_signature_valid(d, c) {
                    Ok(s1)
                } else {
                    let amount: u64 = if s1.electra_enabled() {
                        0
                    } else {
                        d.amount
                    };
                    match add_validator_to_registry(s1, d.pubkey, d.withdrawal_credentials, amount, c) {
                        Err(e) => Err(e),
                        Ok(s2) => if s2.electra_enabled() {
                            push_pending_deposit(s2, queued_deposit(d, c), c)
                        } else {
                            Ok(s2)
                        },
                    }
                }
            },
        }
    }
}

fn push_queued_deposit(state: &mut BeaconState, d: &DepositData, c: &ChainSpec) -> (r: Result<
    (),
    BlockProcessingError,
>)
    requires
        old(state)@.wf(*c),
    ensures
        outcome_matches(r, final(state)@, push_pending_deposit(old(state)@, queued_deposit(d@, *c), *c)),
        final(state)@.wf(*c),
        r is Err ==> final(state)@ == old(state)@,
{
    if !state.fork_name.electra_enabled() {
        return Err(BlockProcessingError::IncorrectStateVariant);
    }
    if state.pending_deposits.len() as u64 >= c.pending_deposits_limit {
        return Err(BlockProcessingError::ListFull);
    }
    let pd = PendingDeposit {
        pubkey: copy_bytes(&d.pubkey),
        withdrawal_credentials: copy_bytes(&d.withdrawal_credentials),
        amount: d.amount,
        signature: copy_bytes(&d.signature),
        slot: c.genesis_slot,
    };
    let ghost old_deps = state.pending_deposits@;
    state.pending_deposits.push(pd);
    proof {
        assert(state.pending_deposits@.map_values(|p: PendingDeposit| p@) =~= old_deps.map_values(
            |p: PendingDeposit| p@,
        ).push(pd@));
    }
    Ok(())
}

/// Checks the merkle proof of `d` at `index` against the state.
fn check_deposit_proof(
    state: &BeaconState,
    d: &DepositData,
    branch: &Vec<Vec<u8>>,
    index: u64,
    position: u64,
    c: &ChainSpec,
) -> (r: Option<BlockProcessingError>)
    ensures
        r == deposit_proof_error(state@, d@, branch@.map_values(|b: Vec<u8>| b@), index, position, *c),
{
    if c.deposit_contract_tree_depth == u64::MAX {
        return Some(BlockProcessingError::ArithError(ArithError::Overflow));
    }
    let leaf = deposit_data_root_bytes(d);
    if !verify_merkle_proof(&leaf, branch, c.deposit_contract_tree_depth + 1, index, &state.eth1_data.deposit_root) {
        return Some(BlockProcessingError::DepositInvalid { index: position, reason: DepositInvalid::BadMerkleProof });
    }
    None
}

/// Processes one deposit, checking its merkle proof first where one is given;
/// a deposit refused before it is applied leaves the state as it was.
pub fn apply_deposit(
    state: &mut BeaconState,
    deposit_data: &DepositData,
    branch: Option<&Vec<Vec<u8>>>,
    increment_eth1_deposit_index: bool,
    c: &ChainSpec,
) -> (r: Result<(), BlockProcessingError>)
    requires
        c.valid(),
        old(state)@.wf(*c),
        deposit_data.pubkey@.len() == 48,
        deposit_data.withdrawal_credentials@.len() == 32,
    ensures
        outcome_matches(
            r,
            final(state)@,
            deposit_outcome(
                old(state)@,
                deposit_data@,
                match branch {
                    Some(p) => Some(p@.map_values(|b: Vec<u8>| b@)),
                    None => None,
                },
                increment_eth1_deposit_index,
                *c,
            ),
        ),
        final(state)@.wf(*c),
        deposit_refused_unchanged(
            old(state)@,
            deposit_data@,
            match branch {
                Some(p) => Some(p@.map_values(|b: Vec<u8>| b@)),
                None => None,
            },
            increment_eth1_deposit_index,
            *c,
        ) ==> final(state)@ == old(state)@,
        r is Err && !deposit_refused_unchanged(
            old(state)@,
            deposit_data@,
            match branch {
                Some(p) => Some(p@.map_values(|b: Vec<u8>| b@)),
                None => None,
            },
            increment_eth1_deposit_index,
            *c,
        ) ==> final(state)@ == deposit_failure_state(old(state)@, deposit_data@, increment_eth1_deposit_index, *c),
{
    let deposit_index = state.eth1_deposit_index;
    match branch {
        Some(p) => {
            match check_deposit_proof(state, deposit_data, p, deposit_index, deposit_index, c) {
                Some(e) => {
                    return Err(e);
                },
                None => {},
            }
        },
        None => {},
    }
    if increment_eth1_deposit_index {
        if state.eth1_deposit_index == u64::MAX {
            return Err(BlockProcessingError::ArithError(ArithError::Overflow));
        }
        state.eth1_deposit_index = state.eth1_deposit_index + 1;
    }
    match state.find_validator_index(&deposit_data.pubkey) {
        Some(index) => {
            if state.fork_name.electra_enabled() {
                push_queued_deposit(state, deposit_data, c)
            } else {
                state.increase_balance(index, deposit_data.amount)
            }
        },
        None => {
            if !is_valid_deposit_signature(deposit_data, c) {
                return Ok(());
            }
            let amount: u64 = if state.fork_name.electra_enabled() {
                0
            } else {
                deposit_data.amount
            };
            state.add_validator_to_registry(
                &deposit_data.pubkey,
                &deposit_data.withdrawal_credentials,
                amount,
                c,
            )?;
            if state.fork_name.electra_enabled() {
                push_queued_deposit(state, deposit_data, c)
            } else {
                Ok(())
            }
        },
    }
}

/// How many deposits the next block must carry: all that the eth1 data
/// announces beyond those processed, at most `max_deposits`, and, since
/// Electra, none from where deposit requests take over.
pub open spec fn expected_deposit_count(s: StateView, c: ChainSpec) -> u64 {
    let start = if s.electra_enabled() {
        s.deposit_requests_start_index
    } else {
        u64::MAX
    };
    let limit = if start <= s.eth1_data.deposit_count {
        start
    } else {
        s.eth1_data.deposit_count
    };
    if s.eth1_deposit_index < limit {
        let remaining = (limit - s.eth1_deposit_index) as u64;
        if c.max_deposits <= remaining {
            c.max_deposits
        } else {
            remaining
        }
    } else {
        0
    }
}

/// The first error among the merkle proofs of `ds`, the deposit at position
/// `k` being checked at the deposit index `eth1_deposit_index + k`.
pub open spec fn first_deposit_proof_error(
    s: StateView,
    ds: Seq<DepositView>,
    c: ChainSpec,
) -> Option<BlockProcessingError>
    decreases ds.len(),
{
    if ds.len() == 0 {
        None
    } else {
        match first_deposit_proof_error(s, ds.drop_last(), c) {
            Some(e) => Some(e),
            None => {
                let k = (ds.len() - 1) as nat;
                if s.eth1_deposit_index + k > u64::MAX {
                    Some(BlockProcessingError::ArithError(ArithError::Overflow))
                } else {
                    deposit_proof_error(
                        s,
                        ds.last().data,
                        ds.last().proof,
                        (s.eth1_deposit_index + k) as u64,
                        k as u64,
                        c,
                    )
                }
            },
        }
    }
}

/// Deposits refused before any is applied: their number is not the expected
/// one, or a proof fails.
pub open spec fn deposits_refused_unchanged(s: StateView, ds: Seq<DepositView>, c: ChainSpec) -> bool {
    ds.len() != expected_deposit_count(s, c) || first_deposit_proof_error(s, ds, c) is Some
}

/// The effect of the deposits of a block: their number must be the expected
/// one, every proof must hold, and then each deposit is applied in order.
pub open spec fn deposits_outcome(
    s: StateView,
    ds: Seq<DepositView>,
    c: ChainSpec,
) -> Result<StateView, BlockProcessingError> {
    if ds.len() != expected_deposit_count(s, c) {
        Err(BlockProcessingError::DepositCountInvalid {
            expected: expected_deposit_count(s, c),
            found: ds.len() as u64,
        })
    } else {
        match first_deposit_proof_error(s, ds, c) {
            Some(e) => Err(e),
            None => apply_ops(
                s,
                ds.map_values(|d: DepositView| d.data),
                |s1: StateView, d: DepositDataView, k: nat| deposit_outcome(s1, d, None, true, c),
            ),
        }
    }
}

/// Processes the deposits of a block; deposits of the wrong number, or with
/// a failing proof, leave the state as it was.
pub fn process_deposits(
    state: &mut BeaconState,
    deposits: &Vec<Deposit>,
    c: &ChainSpec,
) -> (r: Result<(), BlockProcessingError>)
    requires
        c.valid(),
        old(state)@.wf(*c),
        forall|j: int|
            0 <= j < deposits.len() ==> (#[trigger] deposits@[j]).data.pubkey@.len() == 48
                && deposits@[j].data.withdrawal_credentials@.len() == 32,
    ensures
        outcome_matches(
            r,
            final(state)@,
            deposits_outcome(old(state)@, deposits@.map_values(|d: Deposit| d@), *c),
        ),
        final(state)@.wf(*c),
        deposits_refused_unchanged(old(state)@, deposits@.map_values(|d: Deposit| d@), *c) ==> final(state)@ == old(
            state,
        )@,
{
    let ghost s0 = state@;
    let ghost dvs = deposits@.map_values(|d: Deposit| d@);
    let start = if state.fork_name.electra_enabled() {
        state.deposit_requests_start_index
    } else {
        u64::MAX
    };
    let limit = if start <= state.eth1_data.deposit_count {
        start
    } else {
        state.eth1_data.deposit_count
    };
    let expected: u64 = if state.eth1_deposit_index < limit {
        let remaining = limit - state.eth1_deposit_index;
        if c.max_deposits <= remaining {
            c.max_deposits
        } else {
            remaining
        }
    } else {
        0
    };
    if deposits.len() as u64 != expected {
        return Err(BlockProcessingError::DepositCountInvalid { expected, found: deposits.len() as u64 });
    }
    let mut k: usize = 0;
    while k < deposits.len()
        invariant
            state@ == s0,
            s0 == old(state)@,
            s0.wf(*c),
            deposits.len() == expected_deposit_count(s0, *c),
            k <= deposits.len(),
            dvs == deposits@.map_values(|d: Deposit| d@),
            first_deposit_proof_error(s0, dvs.take(k as int), *c) is None,
        decreases deposits.len() - k,
    {
        assert(dvs.take(k + 1).drop_last() =~= dvs.take(k as int));
        assert(dvs.take(k + 1).last() == deposits@[k as int]@);
        if state.eth1_deposit_index > u64::MAX - (k as u64) {
            proof {
                lemma_first_deposit_proof_error_stop(s0, dvs, k + 1, *c);
            }
            return Err(BlockProcessingError::ArithError(ArithError::Overflow));
        }
        let d = &deposits[k];
        match check_deposit_proof(state, &d.data, &d.proof, state.eth1_deposit_index + k as u64, k as u64, c) {
            Some(e) => {
                proof {
                    lemma_first_deposit_proof_error_stop(s0, dvs, k + 1, *c);
                }
                return Err(e);
            },
            None => {},
        }
        k = k + 1;
    }
    assert(dvs.take(k as int) =~= dvs);
    let ghost ops = dvs.map_values(|d: DepositView| d.data);
    let ghost step = |s1: StateView, d: DepositDataView, k: nat| deposit_outcome(s1, d, None, true, *c);
    let mut k: usize = 0;
    while k < deposits.len()
        invariant
            c.valid(),
            state@.wf(*c),
            s0 == old(state)@,
            deposits.len() == expected_deposit_count(s0, *c),
            first_deposit_proof_error(s0, dvs, *c) is None,
            k <= deposits.len(),
            dvs == deposits@.map_values(|d: Deposit| d@),
            ops == dvs.map_values(|d: DepositView| d.data),
            step == (|s1: StateView, d: DepositDataView, k: nat| deposit_outcome(s1, d, None, true, *c)),
            forall|j: int|
                0 <= j < deposits.len() ==> (#[trigger] deposits@[j]).data.pubkey@.len() == 48
                    && deposits@[j].data.withdrawal_credentials@.len() == 32,
            apply_ops(s0, ops.take(k as int), step) == Ok::<StateView, BlockProcessingError>(state@),
        decreases deposits.len() - k,
    {
        assert(ops.take(k + 1).drop_last() =~= ops.take(k as int));
        assert(ops.take(k + 1).last() == deposits@[k as int].data@);
        let ghost pre = state@;
        assert(apply_ops(s0, ops.take(k + 1), step) == step(pre, ops[k as int], k as nat));
        assert(step(pre, ops[k as int], k as nat) == deposit_outcome(pre, ops[k as int], None, true, *c));
        let d = &deposits[k];
        assert(d.data.pubkey@.len() == 48);
        match apply_deposit(state, &d.data, None, true, c) {
            Err(e) => {
                proof {
                    lemma_apply_ops_stop(s0, ops, step, k + 1);
                }
                return Err(e);
            },
            Ok(()) => {},
        }
        k = k + 1;
    }
    assert(ops.take(k as int) =~= ops);
    Ok(())
}

proof fn lemma_first_deposit_proof_error_stop(s: StateView, ds: Seq<DepositView>, n: int, c: ChainSpec)
    requires
        0 <= n <= ds.len(),
        first_deposit_proof_error(s, ds.take(n), c) is Some,
    ensures
        first_deposit_proof_error(s, ds, c) == first_deposit_proof_error(s, ds.take(n), c),
    decreases ds.len() - n,
{
    if n < ds.len() {
        assert(ds.take(n + 1).drop_last() =~= ds.take(n));
        lemma_first_deposit_proof_error_stop(s, ds, n + 1, c);
    } else {
        assert(ds.take(n) =~= ds);
    }
}

} // verus!
