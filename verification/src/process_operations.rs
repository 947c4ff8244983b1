//! Processing of the operations of a block body.
use vstd::prelude::*;
use crate::spec::ChainSpec;
use crate::errors::{BlockProcessingError, ExitInvalid};
use crate::beacon_state::{
    BeaconState, PendingConsolidation, PendingDeposit, PendingDepositView,
    PendingPartialWithdrawal, StateView, ValidatorView, bytes_eq, copy_bytes, current_epoch,
    execution_withdrawal_address, has_compounding_withdrawal_credential,
    has_eth1_withdrawal_credential, is_active_at, pubkey_index,
};
use crate::churn::{
    compute_consolidation_epoch_and_update_churn, compute_exit_epoch_and_update_churn,
    consolidation_churn_limit, outcome_matches, overflow,
};
use crate::common::{
    exit_failure_state, initiate_validator_exit, pending_balance_to_withdraw, spec_initiate_validator_exit,
    switch_to_compounding_validator, switch_failure_state, with_validator, slash_validator, slash_validator_exec,
};
use crate::operations::{
    ConsolidationRequest, ConsolidationRequestView, DepositRequest, DepositRequestView,
    SignedBlsToExecutionChange, SignedBlsToExecutionChangeView, SignedVoluntaryExit,
    SignedVoluntaryExitView, VerifySignatures, WithdrawalRequest, WithdrawalRequestView,
    ConsensusContext, ProposerSlashing, ProposerSlashingView,
};
use crate::verify_operations::{
    bls_to_execution_change_validity, exit_validity, verify_bls_to_execution_change, verify_exit,
    proposer_slashing_validity, verify_proposer_slashing,
};
use crate::signing::{concat, zero_bytes};

verus! {

/// The effect of one withdrawal request.
pub open spec fn withdrawal_request_step(
    s: StateView,
    r: WithdrawalRequestView,
    c: ChainSpec,
) -> Result<StateView, BlockProcessingError> {
    let full = r.amount == c.full_exit_request_amount;
    let epoch = current_epoch(s, c);
    if !s.electra_enabled() {
        Err(BlockProcessingError::IncorrectStateVariant)
    } else if s.pending_partial_withdrawals.len() == c.pending_partial_withdrawals_limit && !full {
        Ok(s)
    } else {
        match pubkey_index(s.validators, r.validator_pubkey) {
            None => Ok(s),
            Some(i) => {
                let v = s.validators[i as int];
                if execution_withdrawal_address(v) != Some(r.source_address) {
                    Ok(s)
                } else if !is_active_at(v, epoch) {
                    Ok(s)
                } else if v.exit_epoch != c.far_future_epoch {
                    Ok(s)
                } else if v.activation_epoch + c.shard_committee_period > u64::MAX {
                    overflow()
                } else if epoch < v.activation_epoch + c.shard_committee_period {
                    Ok(s)
                } else {
                    match pending_balance_to_withdraw(s, i) {
                        Err(e) => Err(e),
                        Ok(pending) => if full {
                            if pending == 0 {
                                spec_initiate_validator_exit(s, i, c)
                            } else {
                                Ok(s)
                            }
                        } else if c.min_activation_balance + pending > u64::MAX {
                            overflow()
                        } else {
                            let balance = s.balances[i as int];
                            if has_compounding_withdrawal_credential(v) && v.effective_balance
                                >= c.min_activation_balance && balance > c.min_activation_balance
                                + pending {
                                let excess = (balance - c.min_activation_balance - pending) as u64;
                                let to_withdraw = if excess <= r.amount {
                                    excess
                                } else {
                                    r.amount
                                };
                                match compute_exit_epoch_and_update_churn(s, to_withdraw, c) {
                                    Err(e) => Err(e),
                                    Ok((s2, q)) => if q + c.min_validator_withdrawability_delay
                                        > u64::MAX {
                                        overflow()
                                    } else if s2.pending_partial_withdrawals.len()
                                        >= c.pending_partial_withdrawals_limit {
                                        Err(BlockProcessingError::ListFull)
                                    } else {
                                        Ok(
                                            StateView {
                                                pending_partial_withdrawals: s2.pending_partial_withdrawals.push(
                                                    PendingPartialWithdrawal {
                                                        validator_index: i as u64,
                                                        amount: to_withdraw,
                                                        withdrawable_epoch: (q
                                                            + c.min_validator_withdrawability_delay) as u64,
                                                    },
                                                ),
                                                ..s2
                                            },
                                        )
                                    },
                                }
                            } else {
                                Ok(s)
                            }
                        },
                    }
                }
            },
        }
    }
}

/// Whether a withdrawal request passes every check before the validator's
/// pending withdrawals are counted: Electra, room in the queue (or a full
/// exit), a known validator withdrawing to the requesting address, active,
/// not exiting, and old enough.
pub open spec fn withdrawal_reaches_pending(s: StateView, r: WithdrawalRequestView, c: ChainSpec) -> bool {
    let full = r.amount == c.full_exit_request_amount;
    let epoch = current_epoch(s, c);
    &&& s.electra_enabled()
    &&& !(s.pending_partial_withdrawals.len() == c.pending_partial_withdrawals_limit && !full)
    &&& pubkey_index(s.validators, r.validator_pubkey) matches Some(i)
    &&& execution_withdrawal_address(s.validators[i as int]) == Some(r.source_address)
    &&& is_active_at(s.validators[i as int], epoch)
    &&& s.validators[i as int].exit_epoch == c.far_future_epoch
    &&& s.validators[i as int].activation_epoch + c.shard_committee_period <= u64::MAX
    &&& epoch >= s.validators[i as int].activation_epoch + c.shard_committee_period
    &&& pending_balance_to_withdraw(s, i) is Ok
}

/// The state that a withdrawal request leaves when it fails: a full exit
/// fails as starting the exit does; a partial withdrawal fails after
/// consuming its churn only where its withdrawable epoch overflows or the
/// queue is full; any other failure leaves the state as it was.
pub open spec fn withdrawal_failure_state(s: StateView, r: WithdrawalRequestView, c: ChainSpec) -> StateView {
    if withdrawal_reaches_pending(s, r, c) {
        let i = pubkey_index(s.validators, r.validator_pubkey)->0;
        let v = s.validators[i as int];
        let pending = pending_balance_to_withdraw(s, i)->Ok_0;
        let balance = s.balances[i as int];
        if r.amount == c.full_exit_request_amount {
            if pending == 0 {
                exit_failure_state(s, i, c)
            } else {
                s
            }
        } else if c.min_activation_balance + pending <= u64::MAX && has_compounding_withdrawal_credential(v)
            && v.effective_balance >= c.min_activation_balance && balance > c.min_activation_balance + pending {
            let excess = (balance - c.min_activation_balance - pending) as u64;
            let to_withdraw = if excess <= r.amount {
                excess
            } else {
                r.amount
            };
            match compute_exit_epoch_and_update_churn(s, to_withdraw, c) {
                Ok((s2, _)) => s2,
                Err(_) => s,
            }
        } else {
            s
        }
    } else {
        s
    }
}

/// The effect of a list of withdrawal requests, in order, stopping at the
/// first error.
pub open spec fn withdrawal_requests_result(
    s: StateView,
    rs: Seq<WithdrawalRequestView>,
    c: ChainSpec,
) -> Result<StateView, BlockProcessingError>
    decreases rs.len(),
{
    if rs.len() == 0 {
        Ok(s)
    } else {
        match withdrawal_requests_result(s, rs.drop_last(), c) {
            Err(e) => Err(e),
            Ok(s1) => withdrawal_request_step(s1, rs.last(), c),
        }
    }
}

/// Where a list of withdrawal requests stops: the position of the first that
/// fails, and the state that the requests before it leave.
pub open spec fn withdrawal_requests_stop(s: StateView, rs: Seq<WithdrawalRequestView>, c: ChainSpec) -> (
    nat,
    StateView,
)
    decreases rs.len(),
{
    if rs.len() == 0 {
        (0, s)
    } else {
        match withdrawal_requests_result(s, rs.drop_last(), c) {
            Err(_) => withdrawal_requests_stop(s, rs.drop_last(), c),
            Ok(s1) => ((rs.len() - 1) as nat, s1),
        }
    }
}

proof fn lemma_withdrawal_requests_fail_at(
    s: StateView,
    rs: Seq<WithdrawalRequestView>,
    n: int,
    p: StateView,
    c: ChainSpec,
)
    requires
        0 <= n < rs.len(),
        withdrawal_requests_result(s, rs.take(n), c) == Ok::<StateView, BlockProcessingError>(p),
        withdrawal_request_step(p, rs[n], c) is Err,
    ensures
        withdrawal_requests_stop(s, rs, c) == (n as nat, p),
    decreases rs.len() - n,
{
    if n + 1 < rs.len() {
        assert(rs.drop_last().take(n) =~= rs.take(n));
        assert(rs.drop_last()[n] == rs[n]);
        lemma_withdrawal_requests_fail_at(s, rs.drop_last(), n, p, c);
        assert(rs.drop_last().take(n + 1) =~= rs.take(n + 1));
        assert(rs.take(n + 1).drop_last() =~= rs.take(n));
        lemma_withdrawal_requests_stop(s, rs.drop_last(), n + 1, c);
    } else {
        assert(rs.drop_last() =~= rs.take(n));
    }
}

fn process_withdrawal_request(
    state: &mut BeaconState,
    request: &WithdrawalRequest,
    c: &ChainSpec,
) -> (r: Result<(), BlockProcessingError>)
    requires
        c.valid(),
        old(state)@.wf(*c),
    ensures
        outcome_matches(r, final(state)@, withdrawal_request_step(old(state)@, request@, *c)),
        final(state)@.wf(*c),
        !old(state)@.electra_enabled() ==> final(state)@ == old(state)@,
        r is Err ==> final(state)@ == withdrawal_failure_state(old(state)@, request@, *c),
{
    let amount = request.amount;
    let is_full_exit_request = amount == c.full_exit_request_amount;
    if !state.fork_name.electra_enabled() {
        return Err(BlockProcessingError::IncorrectStateVariant);
    }
    if state.pending_partial_withdrawals.len() as u64 == c.pending_partial_withdrawals_limit
        && !is_full_exit_request {
        return Ok(());
    }
    let validator_index = match state.find_validator_index(&request.validator_pubkey) {
        None => {
            return Ok(());
        },
        Some(i) => i,
    };
    let ghost s = state@;
    let epoch = state.current_epoch(c);
    let validator = &state.validators[validator_index];
    assert(validator@.wf());
    if !validator.execution_address_is(&request.source_address) {
        return Ok(());
    }
    if !validator.is_active_at(epoch) {
        return Ok(());
    }
    if validator.exit_epoch != c.far_future_epoch {
        return Ok(());
    }
    if validator.activation_epoch > u64::MAX - c.shard_committee_period {
        return Err(BlockProcessingError::ArithError(crate::errors::ArithError::Overflow));
    }
    if epoch < validator.activation_epoch + c.shard_committee_period {
        return Ok(());
    }
    let is_compounding = validator.has_compounding_withdrawal_credential();
    let effective_balance = validator.effective_balance;
    let pending = state.get_pending_balance_to_withdraw(validator_index)?;
    if is_full_exit_request {
        if pending == 0 {
            return initiate_validator_exit(state, validator_index, c);
        }
        return Ok(());
    }
    if c.min_activation_balance > u64::MAX - pending {
        return Err(BlockProcessingError::ArithError(crate::errors::ArithError::Overflow));
    }
    let balance = state.balances[validator_index];
    if is_compounding && effective_balance >= c.min_activation_balance && balance
        > c.min_activation_balance + pending {
        let excess = balance - c.min_activation_balance - pending;
        let to_withdraw = if excess <= amount {
            excess
        } else {
            amount
        };
        let q = state.compute_exit_epoch_and_update_churn(to_withdraw, c)?;
        if q > u64::MAX - c.min_validator_withdrawability_delay {
            return Err(BlockProcessingError::ArithError(crate::errors::ArithError::Overflow));
        }
        if state.pending_partial_withdrawals.len() as u64 >= c.pending_partial_withdrawals_limit {
            return Err(BlockProcessingError::ListFull);
        }
        state.pending_partial_withdrawals.push(
            PendingPartialWithdrawal {
                validator_index: validator_index as u64,
                amount: to_withdraw,
                withdrawable_epoch: q + c.min_validator_withdrawability_delay,
            },
        );
    }
    Ok(())
}

/// Processes the withdrawal requests of a block, in order; before Electra
/// they are refused and the state stays as it was. A request that fails
/// leaves what its failure leaves of the state the requests before it left.
pub fn process_withdrawal_requests(
    state: &mut BeaconState,
    requests: &Vec<WithdrawalRequest>,
    c: &ChainSpec,
) -> (r: Result<(), BlockProcessingError>)
    requires
        c.valid(),
        old(state)@.wf(*c),
    ensures
        outcome_matches(
            r,
            final(state)@,
            withdrawal_requests_result(old(state)@, requests@.map_values(|q: WithdrawalRequest| q@), *c),
        ),
        final(state)@.wf(*c),
        !old(state)@.electra_enabled() ==> final(state)@ == old(state)@,
        r is Err ==> ({
            let (k, p) = withdrawal_requests_stop(old(state)@, requests@.map_values(|q: WithdrawalRequest| q@), *c);
            final(state)@ == withdrawal_failure_state(p, requests@[k as int]@, *c)
        }),
{
    let ghost s0 = state@;
    let ghost rs = requests@.map_values(|q: WithdrawalRequest| q@);
    let mut k: usize = 0;
    while k < requests.len()
        invariant
            c.valid(),
            state@.wf(*c),
            s0 == old(state)@,
            !s0.electra_enabled() ==> k == 0 && state@ == s0,
            k <= requests.len(),
            rs == requests@.map_values(|q: WithdrawalRequest| q@),
            withdrawal_requests_result(s0, rs.take(k as int), *c) == Ok::<StateView, BlockProcessingError>(state@),
        decreases requests.len() - k,
    {
        assert(rs.take(k + 1).drop_last() =~= rs.take(k as int));
        assert(rs.take(k + 1).last() == requests@[k as int]@);
        let ghost pre = state@;
        let res = process_withdrawal_request(state, &requests[k], c);
        match res {
            Err(e) => {
                proof {
                    assert(withdrawal_requests_result(s0, rs.take(k + 1), *c)
                        == withdrawal_request_step(pre, rs[k as int], *c));
                    lemma_withdrawal_requests_stop(s0, rs, k as int + 1, *c);
                    lemma_withdrawal_requests_fail_at(s0, rs, k as int, pre, *c);
                    assert(withdrawal_request_step(pre, rs[k as int], *c) == Err::<StateView, BlockProcessingError>(e));
                    assert(withdrawal_requests_result(s0, rs, *c) == Err::<StateView, BlockProcessingError>(e));
                }
                return Err(e);
            },
            Ok(()) => {},
        }
        k = k + 1;
    }
    assert(rs.take(k as int) =~= rs);
    Ok(())
}

/// Once a prefix of the requests fails, the whole list fails with the same
/// error.
proof fn lemma_withdrawal_requests_stop(
    s: StateView,
    rs: Seq<WithdrawalRequestView>,
    n: int,
    c: ChainSpec,
)
    requires
        0 <= n <= rs.len(),
        withdrawal_requests_result(s, rs.take(n), c) is Err,
    ensures
        withdrawal_requests_result(s, rs, c) == withdrawal_requests_result(s, rs.take(n), c),
    decreases rs.len() - n,
{
    if n < rs.len() {
        assert(rs.take(n + 1).drop_last() =~= rs.take(n));
        lemma_withdrawal_requests_stop(s, rs, n + 1, c);
    } else {
        assert(rs.take(n) =~= rs);
    }
}

} // verus!

verus! {

/// The effect of one deposit request: the first request fixes where deposit
/// requests start, and every request joins the deposit queue.
pub open spec fn deposit_request_step(
    s: StateView,
    r: DepositRequestView,
    c: ChainSpec,
) -> Result<StateView, BlockProcessingError> {
    if !s.electra_enabled() {
        Err(BlockProcessingError::IncorrectStateVariant)
    } else if s.pending_deposits.len() >= c.pending_deposits_limit {
        Err(BlockProcessingError::ListFull)
    } else {
        Ok(
            StateView {
                deposit_requests_start_index: if s.deposit_requests_start_index
                    == c.unset_deposit_requests_start_index {
                    r.index
                } else {
                    s.deposit_requests_start_index
                },
                pending_deposits: s.pending_deposits.push(
                    PendingDepositView {
                        pubkey: r.pubkey,
                        withdrawal_credentials: r.withdrawal_credentials,
                        amount: r.amount,
                        signature: r.signature,
                        slot: s.slot,
                    },
                ),
                ..s
            },
        )
    }
}

pub open spec fn deposit_requests_result(
    s: StateView,
    rs: Seq<DepositRequestView>,
    c: ChainSpec,
) -> Result<StateView, BlockProcessingError>
    decreases rs.len(),
{
    if rs.len() == 0 {
        Ok(s)
    } else {
        match deposit_requests_result(s, rs.drop_last(), c) {
            Err(e) => Err(e),
            Ok(s1) => deposit_request_step(s1, rs.last(), c),
        }
    }
}

/// The state that the deposit requests before the first refused one leave
/// (no request is refused after it changed the state).
pub open spec fn deposit_requests_before_failure(s: StateView, rs: Seq<DepositRequestView>, c: ChainSpec) -> StateView
    decreases rs.len(),
{
    if rs.len() == 0 {
        s
    } else {
        match deposit_requests_result(s, rs.drop_last(), c) {
            Err(_) => deposit_requests_before_failure(s, rs.drop_last(), c),
            Ok(s1) => s1,
        }
    }
}

proof fn lemma_deposit_requests_fail_at(s: StateView, rs: Seq<DepositRequestView>, n: int, p: StateView, c: ChainSpec)
    requires
        0 <= n < rs.len(),
        deposit_requests_result(s, rs.take(n), c) == Ok::<StateView, BlockProcessingError>(p),
        deposit_request_step(p, rs[n], c) is Err,
    ensures
        deposit_requests_before_failure(s, rs, c) == p,
    decreases rs.len() - n,
{
    if n + 1 < rs.len() {
        assert(rs.drop_last().take(n) =~= rs.take(n));
        assert(rs.drop_last()[n] == rs[n]);
        lemma_deposit_requests_fail_at(s, rs.drop_last(), n, p, c);
        assert(rs.drop_last().take(n + 1) =~= rs.take(n + 1));
        assert(rs.take(n + 1).drop_last() =~= rs.take(n));
        lemma_deposit_requests_stop(s, rs.drop_last(), n + 1, c);
    } else {
        assert(rs.drop_last() =~= rs.take(n));
    }
}

proof fn lemma_deposit_requests_stop(s: StateView, rs: Seq<DepositRequestView>, n: int, c: ChainSpec)
    requires
        0 <= n <= rs.len(),
        deposit_requests_result(s, rs.take(n), c) is Err,
    ensures
        deposit_requests_result(s, rs, c) == deposit_requests_result(s, rs.take(n), c),
    decreases rs.len() - n,
{
    if n < rs.len() {
        assert(rs.take(n + 1).drop_last() =~= rs.take(n));
        lemma_deposit_requests_stop(s, rs, n + 1, c);
    } else {
        assert(rs.take(n) =~= rs);
    }
}

/// Processes the deposit requests of a block, in order; a refused request
/// leaves the state that the requests before it left.
pub fn process_deposit_requests(
    state: &mut BeaconState,
    requests: &Vec<DepositRequest>,
    c: &ChainSpec,
) -> (r: Result<(), BlockProcessingError>)
    requires
        old(state)@.wf(*c),
    ensures
        outcome_matches(
            r,
            final(state)@,
            deposit_requests_result(old(state)@, requests@.map_values(|q: DepositRequest| q@), *c),
        ),
        final(state)@.wf(*c),
        r is Err ==> final(state)@ == deposit_requests_before_failure(
            old(state)@,
            requests@.map_values(|q: DepositRequest| q@),
            *c,
        ),
        !old(state)@.electra_enabled() ==> final(state)@ == old(state)@,
{
    let ghost s0 = state@;
    let ghost rs = requests@.map_values(|q: DepositRequest| q@);
    let mut k: usize = 0;
    while k < requests.len()
        invariant
            state@.wf(*c),
            s0 == old(state)@,
            state@.fork_name == s0.fork_name,
            !s0.electra_enabled() ==> state@ == s0,
            k <= requests.len(),
            rs == requests@.map_values(|q: DepositRequest| q@),
            deposit_requests_result(s0, rs.take(k as int), *c) == Ok::<StateView, BlockProcessingError>(state@),
        decreases requests.len() - k,
    {
        assert(rs.take(k + 1).drop_last() =~= rs.take(k as int));
        assert(rs.take(k + 1).last() == requests@[k as int]@);
        let ghost pre = state@;
        let request = &requests[k];
        if !state.fork_name.electra_enabled() {
            proof {
                lemma_deposit_requests_stop(s0, rs, k as int + 1, *c);
                lemma_deposit_requests_fail_at(s0, rs, k as int, pre, *c);
            }
            return Err(BlockProcessingError::IncorrectStateVariant);
        }
        if state.pending_deposits.len() as u64 >= c.pending_deposits_limit {
            proof {
                lemma_deposit_requests_stop(s0, rs, k as int + 1, *c);
                lemma_deposit_requests_fail_at(s0, rs, k as int, pre, *c);
            }
            return Err(BlockProcessingError::ListFull);
        }
        if state.deposit_requests_start_index == c.unset_deposit_requests_start_index {
            state.deposit_requests_start_index = request.index;
        }
        let d = PendingDeposit {
            pubkey: copy_bytes(&request.pubkey),
            withdrawal_credentials: copy_bytes(&request.withdrawal_credentials),
            amount: request.amount,
            signature: copy_bytes(&request.signature),
            slot: state.slot,
        };
        let ghost old_deps = state.pending_deposits@;
        state.pending_deposits.push(d);
        proof {
            assert(state.pending_deposits@.map_values(|d: PendingDeposit| d@)
                =~= old_deps.map_values(|d: PendingDeposit| d@).push(d@));
            assert(state@ == deposit_request_step(pre, rs[k as int], *c)->Ok_0);
        }
        k = k + 1;
    }
    assert(rs.take(k as int) =~= rs);
    Ok(())
}

/// A request to switch a validator to compounding credentials: source and
/// target are the same existing, active, not exiting validator with eth1
/// credentials for the source address.
pub open spec fn valid_switch_to_compounding(
    s: StateView,
    r: ConsolidationRequestView,
    c: ChainSpec,
) -> bool {
    &&& r.source_pubkey == r.target_pubkey
    &&& match pubkey_index(s.validators, r.source_pubkey) {
        None => false,
        Some(i) => {
            let v = s.validators[i as int];
            &&& has_eth1_withdrawal_credential(v)
            &&& v.withdrawal_credentials.subrange(12, 32) == r.source_address
            &&& is_active_at(v, current_epoch(s, c))
            &&& v.exit_epoch == c.far_future_epoch
        },
    }
}

/// The effect of one consolidation request.
pub open spec fn consolidation_request_step(
    s: StateView,
    r: ConsolidationRequestView,
    c: ChainSpec,
) -> Result<StateView, BlockProcessingError> {
    let epoch = current_epoch(s, c);
    if valid_switch_to_compounding(s, r, c) {
        switch_to_compounding_validator(s, pubkey_index(s.validators, r.source_pubkey)->0, c)
    } else if r.source_pubkey == r.target_pubkey {
        Ok(s)
    } else if !s.electra_enabled() {
        Err(BlockProcessingError::IncorrectStateVariant)
    } else if s.pending_consolidations.len() == c.pending_consolidations_limit {
        Ok(s)
    } else {
        match consolidation_churn_limit(s, c) {
            Err(e) => Err(e),
            Ok(churn) => if churn <= c.min_activation_balance {
                Ok(s)
            } else {
                match (pubkey_index(s.validators, r.source_pubkey), pubkey_index(s.validators, r.target_pubkey)) {
                    (Some(si), Some(ti)) => {
                        let sv = s.validators[si as int];
                        let tv = s.validators[ti as int];
                        if execution_withdrawal_address(sv) != Some(r.source_address) {
                            Ok(s)
                        } else if !has_compounding_withdrawal_credential(tv) {
                            Ok(s)
                        } else if !is_active_at(sv, epoch) || !is_active_at(tv, epoch) {
                            Ok(s)
                        } else if sv.exit_epoch != c.far_future_epoch || tv.exit_epoch != c.far_future_epoch {
                            Ok(s)
                        } else if sv.activation_epoch + c.shard_committee_period > u64::MAX {
                            overflow()
                        } else if epoch < sv.activation_epoch + c.shard_committee_period {
                            Ok(s)
                        } else {
                            match pending_balance_to_withdraw(s, si) {
                                Err(e) => Err(e),
                                Ok(p) => if p > 0 {
                                    Ok(s)
                                } else {
                                    match compute_consolidation_epoch_and_update_churn(s, sv.effective_balance, c) {
                                        Err(e) => Err(e),
                                        Ok((s2, q)) => if q + c.min_validator_withdrawability_delay > u64::MAX {
                                            overflow()
                                        } else if s2.pending_consolidations.len() >= c.pending_consolidations_limit {
                                            Err(BlockProcessingError::ListFull)
                                        } else {
                                            let s3 = with_validator(
                                                s2,
                                                si as int,
                                                ValidatorView {
                                                    exit_epoch: q,
                                                    withdrawable_epoch: (q + c.min_validator_withdrawability_delay) as u64,
                                                    ..sv
                                                },
                                            );
                                            Ok(
                                                StateView {
                                                    pending_consolidations: s3.pending_consolidations.push(
                                                        PendingConsolidation {
                                                            source_index: si as u64,
                                                            target_index: ti as u64,
                                                        },
                                                    ),
                                                    ..s3
                                                },
                                            )
                                        },
                                    }
                                },
                            }
                        }
                    },
                    _ => Ok(s),
                }
            },
        }
    }
}

pub open spec fn consolidation_requests_result(
    s: StateView,
    rs: Seq<ConsolidationRequestView>,
    c: ChainSpec,
) -> Result<StateView, BlockProcessingError>
    decreases rs.len(),
{
    if rs.len() == 0 {
        Ok(s)
    } else {
        match consolidation_requests_result(s, rs.drop_last(), c) {
            Err(e) => Err(e),
            Ok(s1) => consolidation_request_step(s1, rs.last(), c),
        }
    }
}

/// Where a list of consolidation requests stops: the position of the first
/// that fails, and the state that the requests before it leave.
pub open spec fn consolidation_requests_stop(s: StateView, rs: Seq<ConsolidationRequestView>, c: ChainSpec) -> (
    nat,
    StateView,
)
    decreases rs.len(),
{
    if rs.len() == 0 {
        (0, s)
    } else {
        match consolidation_requests_result(s, rs.drop_last(), c) {
            Err(_) => consolidation_requests_stop(s, rs.drop_last(), c),
            Ok(s1) => ((rs.len() - 1) as nat, s1),
        }
    }
}

proof fn lemma_consolidation_requests_fail_at(
    s: StateView,
    rs: Seq<ConsolidationRequestView>,
    n: int,
    p: StateView,
    c: ChainSpec,
)
    requires
        0 <= n < rs.len(),
        consolidation_requests_result(s, rs.take(n), c) == Ok::<StateView, BlockProcessingError>(p),
        consolidation_request_step(p, rs[n], c) is Err,
    ensures
        consolidation_requests_stop(s, rs, c) == (n as nat, p),
    decreases rs.len() - n,
{
    if n + 1 < rs.len() {
        assert(rs.drop_last().take(n) =~= rs.take(n));
        assert(rs.drop_last()[n] == rs[n]);
        lemma_consolidation_requests_fail_at(s, rs.drop_last(), n, p, c);
        assert(rs.drop_last().take(n + 1) =~= rs.take(n + 1));
        assert(rs.take(n + 1).drop_last() =~= rs.take(n));
        lemma_consolidation_requests_stop(s, rs.drop_last(), n + 1, c);
    } else {
        assert(rs.drop_last() =~= rs.take(n));
    }
}

proof fn lemma_consolidation_requests_stop(
    s: StateView,
    rs: Seq<ConsolidationRequestView>,
    n: int,
    c: ChainSpec,
)
    requires
        0 <= n <= rs.len(),
        consolidation_requests_result(s, rs.take(n), c) is Err,
    ensures
        consolidation_requests_result(s, rs, c) == consolidation_requests_result(s, rs.take(n), c),
    decreases rs.len() - n,
{
    if n < rs.len() {
        assert(rs.take(n + 1).drop_last() =~= rs.take(n));
        lemma_consolidation_requests_stop(s, rs, n + 1, c);
    } else {
        assert(rs.take(n) =~= rs);
    }
}

/// Whether a consolidation request asks to switch its validator to
/// compounding credentials and may.
pub fn is_valid_switch_to_compounding_request(
    state: &BeaconState,
    request: &ConsolidationRequest,
    c: &ChainSpec,
) -> (r: bool)
    requires
        c.valid(),
        state@.wf(*c),
    ensures
        r == valid_switch_to_compounding(state@, request@, *c),
{
    if !bytes_eq(&request.source_pubkey, &request.target_pubkey) {
        return false;
    }
    let source_index = match state.find_validator_index(&request.source_pubkey) {
        None => {
            return false;
        },
        Some(i) => i,
    };
    let v = &state.validators[source_index];
    assert(v@.wf());
    if !v.has_eth1_withdrawal_credential() {
        return false;
    }
    if !v.execution_address_is(&request.source_address) {
        return false;
    }
    if !v.is_active_at(state.current_epoch(c)) {
        return false;
    }
    if v.exit_epoch != c.far_future_epoch {
        return false;
    }
    true
}

/// Whether a consolidation request (not a switch to compounding credentials)
/// passes every check before its source's exit is queued: it names two known
/// validators, the source withdrawing to the requesting address, the target
/// compounding, both active and not exiting, the source old enough and with
/// nothing pending to withdraw, and the churn allows a consolidation.
pub open spec fn consolidation_reaches_churn(s: StateView, r: ConsolidationRequestView, c: ChainSpec) -> bool {
    let epoch = current_epoch(s, c);
    &&& !valid_switch_to_compounding(s, r, c)
    &&& r.source_pubkey != r.target_pubkey
    &&& s.electra_enabled()
    &&& s.pending_consolidations.len() != c.pending_consolidations_limit
    &&& consolidation_churn_limit(s, c) matches Ok(churn)
    &&& churn > c.min_activation_balance
    &&& pubkey_index(s.validators, r.source_pubkey) matches Some(si)
    &&& pubkey_index(s.validators, r.target_pubkey) matches Some(ti)
    &&& execution_withdrawal_address(s.validators[si as int]) == Some(r.source_address)
    &&& has_compounding_withdrawal_credential(s.validators[ti as int])
    &&& is_active_at(s.validators[si as int], epoch)
    &&& is_active_at(s.validators[ti as int], epoch)
    &&& s.validators[si as int].exit_epoch == c.far_future_epoch
    &&& s.validators[ti as int].exit_epoch == c.far_future_epoch
    &&& s.validators[si as int].activation_epoch + c.shard_committee_period <= u64::MAX
    &&& epoch >= s.validators[si as int].activation_epoch + c.shard_committee_period
    &&& pending_balance_to_withdraw(s, si) == Ok::<u64, BlockProcessingError>(0)
}

/// The state that a consolidation request leaves when it fails: a switch to
/// compounding credentials fails with the new credentials in place (for a
/// known validator); a consolidation fails after consuming its churn only
/// where its exit epoch overflows or the queue is full; any other failure
/// leaves the state as it was.
pub open spec fn consolidation_failure_state(s: StateView, r: ConsolidationRequestView, c: ChainSpec) -> StateView {
    if valid_switch_to_compounding(s, r, c) {
        switch_failure_state(s, pubkey_index(s.validators, r.source_pubkey)->0)
    } else if consolidation_reaches_churn(s, r, c) {
        let si = pubkey_index(s.validators, r.source_pubkey)->0;
        match compute_consolidation_epoch_and_update_churn(s, s.validators[si as int].effective_balance, c) {
            Ok((s2, _)) => s2,
            Err(_) => s,
        }
    } else {
        s
    }
}

/// Processes one consolidation request.
pub fn process_consolidation_request(
    state: &mut BeaconState,
    request: &ConsolidationRequest,
    c: &ChainSpec,
) -> (r: Result<(), BlockProcessingError>)
    requires
        c.valid(),
        old(state)@.wf(*c),
    ensures
        outcome_matches(r, final(state)@, consolidation_request_step(old(state)@, request@, *c)),
        final(state)@.wf(*c),
        r is Err ==> final(state)@ == consolidation_failure_state(old(state)@, request@, *c),
{
    let ghost s0 = state@;
    if is_valid_switch_to_compounding_request(state, request, c) {
        let source_index = match state.find_validator_index(&request.source_pubkey) {
            None => {
                return Ok(());
            },
            Some(i) => i,
        };
        return state.switch_to_compounding_validator(source_index, c);
    }
    if bytes_eq(&request.source_pubkey, &request.target_pubkey) {
        return Ok(());
    }
    if !state.fork_name.electra_enabled() {
        return Err(BlockProcessingError::IncorrectStateVariant);
    }
    if state.pending_consolidations.len() as u64 == c.pending_consolidations_limit {
        return Ok(());
    }
    let churn = state.get_consolidation_churn_limit(c)?;
    if churn <= c.min_activation_balance {
        return Ok(());
    }
    let source_index = match state.find_validator_index(&request.source_pubkey) {
        None => {
            return Ok(());
        },
        Some(i) => i,
    };
    let target_index = match state.find_validator_index(&request.target_pubkey) {
        None => {
            return Ok(());
        },
        Some(i) => i,
    };
    let epoch = state.current_epoch(c);
    let source = &state.validators[source_index];
    let target = &state.validators[target_index];
    assert(source@.wf());
    assert(target@.wf());
    if !source.execution_address_is(&request.source_address) {
        return Ok(());
    }
    if !target.has_compounding_withdrawal_credential() {
        return Ok(());
    }
    if !source.is_active_at(epoch) || !target.is_active_at(epoch) {
        return Ok(());
    }
    if source.exit_epoch != c.far_future_epoch || target.exit_epoch != c.far_future_epoch {
        return Ok(());
    }
    if source.activation_epoch > u64::MAX - c.shard_committee_period {
        return Err(BlockProcessingError::ArithError(crate::errors::ArithError::Overflow));
    }
    if epoch < source.activation_epoch + c.shard_committee_period {
        return Ok(());
    }
    let source_balance = source.effective_balance;
    if state.get_pending_balance_to_withdraw(source_index)? > 0 {
        return Ok(());
    }
    let ghost s1 = state@;
    assert(consolidation_reaches_churn(s0, request@, *c));
    let q = state.compute_consolidation_epoch_and_update_churn(source_balance, c)?;
    if q > u64::MAX - c.min_validator_withdrawability_delay {
        return Err(BlockProcessingError::ArithError(crate::errors::ArithError::Overflow));
    }
    if state.pending_consolidations.len() as u64 >= c.pending_consolidations_limit {
        return Err(BlockProcessingError::ListFull);
    }
    let ghost s2 = state@;
    state.set_validator_exit(source_index, q, q + c.min_validator_withdrawability_delay);
    proof {
        let sv = state@;
        assert forall|j: int| 0 <= j < sv.validators.len() implies (#[trigger] sv.validators[j]).wf() by {
            if j != source_index {
                assert(sv.validators[j] == s2.validators[j]);
            }
        }
    }
    state.pending_consolidations.push(
        PendingConsolidation { source_index: source_index as u64, target_index: target_index as u64 },
    );
    Ok(())
}

/// Processes the consolidation requests of a block, in order. A request that
/// fails leaves what its failure leaves of the state the requests before it
/// left.
pub fn process_consolidation_requests(
    state: &mut BeaconState,
    requests: &Vec<ConsolidationRequest>,
    c: &ChainSpec,
) -> (r: Result<(), BlockProcessingError>)
    requires
        c.valid(),
        old(state)@.wf(*c),
    ensures
        outcome_matches(
            r,
            final(state)@,
            consolidation_requests_result(old(state)@, requests@.map_values(|q: ConsolidationRequest| q@), *c),
        ),
        final(state)@.wf(*c),
        r is Err ==> ({
            let (k, p) = consolidation_requests_stop(
                old(state)@,
                requests@.map_values(|q: ConsolidationRequest| q@),
                *c,
            );
            final(state)@ == consolidation_failure_state(p, requests@[k as int]@, *c)
        }),
{
    let ghost s0 = state@;
    let ghost rs = requests@.map_values(|q: ConsolidationRequest| q@);
    let mut k: usize = 0;
    while k < requests.len()
        invariant
            c.valid(),
            state@.wf(*c),
            s0 == old(state)@,
            k <= requests.len(),
            rs == requests@.map_values(|q: ConsolidationRequest| q@),
            consolidation_requests_result(s0, rs.take(k as int), *c) == Ok::<StateView, BlockProcessingError>(state@),
        decreases requests.len() - k,
    {
        assert(rs.take(k + 1).drop_last() =~= rs.take(k as int));
        assert(rs.take(k + 1).last() == requests@[k as int]@);
        let ghost pre = state@;
        let res = process_consolidation_request(state, &requests[k], c);
        match res {
            Err(e) => {
                proof {
                    assert(consolidation_requests_result(s0, rs.take(k + 1), *c)
                        == consolidation_request_step(pre, rs[k as int], *c));
                    lemma_consolidation_requests_stop(s0, rs, k as int + 1, *c);
                    lemma_consolidation_requests_fail_at(s0, rs, k as int, pre, *c);
                }
                return Err(e);
            },
            Ok(()) => {},
        }
        k = k + 1;
    }
    assert(rs.take(k as int) =~= rs);
    Ok(())
}

} // verus!

verus! {

/// Applies `step` to each operation in order, with its position in the list,
/// stopping at the first error.
pub open spec fn apply_ops<T>(
    s: StateView,
    ops: Seq<T>,
    step: spec_fn(StateView, T, nat) -> Result<StateView, BlockProcessingError>,
) -> Result<StateView, BlockProcessingError>
    decreases ops.len(),
{
    if ops.len() == 0 {
        Ok(s)
    } else {
        match apply_ops(s, ops.drop_last(), step) {
            Err(e) => Err(e),
            Ok(s1) => step(s1, ops.last(), (ops.len() - 1) as nat),
        }
    }
}

/// Where a list of operations stops: the position of the first that fails,
/// and the state that the operations before it leave.
pub open spec fn first_failure<T>(
    s: StateView,
    ops: Seq<T>,
    step: spec_fn(StateView, T, nat) -> Result<StateView, BlockProcessingError>,
) -> (nat, StateView)
    decreases ops.len(),
{
    if ops.len() == 0 {
        (0, s)
    } else {
        match apply_ops(s, ops.drop_last(), step) {
            Err(_) => first_failure(s, ops.drop_last(), step),
            Ok(s1) => ((ops.len() - 1) as nat, s1),
        }
    }
}

/// Where the operations before position `n` succeed and the one at `n`
/// fails, the list stops at `n`, after the state those before it leave.
pub proof fn lemma_first_failure_at<T>(
    s: StateView,
    ops: Seq<T>,
    step: spec_fn(StateView, T, nat) -> Result<StateView, BlockProcessingError>,
    n: int,
    p: StateView,
)
    requires
        0 <= n < ops.len(),
        apply_ops(s, ops.take(n), step) == Ok::<StateView, BlockProcessingError>(p),
        step(p, ops[n], n as nat) is Err,
    ensures
        first_failure(s, ops, step) == (n as nat, p),
    decreases ops.len() - n,
{
    if n + 1 < ops.len() {
        assert(ops.drop_last().take(n) =~= ops.take(n));
        assert(ops.drop_last()[n] == ops[n]);
        lemma_first_failure_at(s, ops.drop_last(), step, n, p);
        assert(ops.drop_last().take(n + 1) =~= ops.take(n + 1));
        assert(ops.take(n + 1).drop_last() =~= ops.take(n));
        lemma_apply_ops_stop(s, ops.drop_last(), step, n + 1);
    } else {
        assert(ops.drop_last() =~= ops.take(n));
    }
}

pub proof fn lemma_apply_ops_stop<T>(
    s: StateView,
    ops: Seq<T>,
    step: spec_fn(StateView, T, nat) -> Result<StateView, BlockProcessingError>,
    n: int,
)
    requires
        0 <= n <= ops.len(),
        apply_ops(s, ops.take(n), step) is Err,
    ensures
        apply_ops(s, ops, step) == apply_ops(s, ops.take(n), step),
    decreases ops.len() - n,
{
    if n < ops.len() {
        assert(ops.take(n + 1).drop_last() =~= ops.take(n));
        lemma_apply_ops_stop(s, ops, step, n + 1);
    } else {
        assert(ops.take(n) =~= ops);
    }
}

/// The effect of the voluntary exit at position `k` of the block's list.
pub open spec fn exit_step(
    s: StateView,
    se: SignedVoluntaryExitView,
    k: nat,
    verify: bool,
    c: ChainSpec,
) -> Result<StateView, BlockProcessingError> {
    match exit_validity(s, se, verify, c) {
        Err(e) => Err(e),
        Ok(Some(reason)) => Err(BlockProcessingError::ExitInvalid { index: k as u64, reason }),
        Ok(None) => spec_initiate_validator_exit(s, se.message.validator_index as nat, c),
    }
}

/// Validates each voluntary exit and starts the exit of its validator, in
/// order, stopping at the first that fails: an invalid exit leaves the state
/// that the exits before it left, one that fails to start leaves what
/// starting it does.
pub fn process_exits(
    state: &mut BeaconState,
    voluntary_exits: &Vec<SignedVoluntaryExit>,
    verify_signatures: VerifySignatures,
    c: &ChainSpec,
) -> (r: Result<(), BlockProcessingError>)
    requires
        c.valid(),
        old(state)@.wf(*c),
    ensures
        outcome_matches(
            r,
            final(state)@,
            apply_ops(
                old(state)@,
                voluntary_exits@.map_values(|e: SignedVoluntaryExit| e@),
                |s: StateView, e: SignedVoluntaryExitView, k: nat|
                    exit_step(s, e, k, verify_signatures == VerifySignatures::True, *c),
            ),
        ),
        final(state)@.wf(*c),
        r is Err ==> ({
            let (k, p) = first_failure(
                old(state)@,
                voluntary_exits@.map_values(|e: SignedVoluntaryExit| e@),
                |s: StateView, e: SignedVoluntaryExitView, k: nat|
                    exit_step(s, e, k, verify_signatures == VerifySignatures::True, *c),
            );
            final(state)@ == if exit_validity(
                p,
                voluntary_exits@[k as int]@,
                verify_signatures == VerifySignatures::True,
                *c,
            ) != Ok::<Option<ExitInvalid>, BlockProcessingError>(None) {
                p
            } else {
                exit_failure_state(p, voluntary_exits@[k as int].message.validator_index as nat, *c)
            }
        }),
{
    let ghost s0 = state@;
    let ghost ops = voluntary_exits@.map_values(|e: SignedVoluntaryExit| e@);
    let ghost step = |s: StateView, e: SignedVoluntaryExitView, k: nat|
        exit_step(s, e, k, verify_signatures == VerifySignatures::True, *c);
    let mut k: usize = 0;
    while k < voluntary_exits.len()
        invariant
            c.valid(),
            state@.wf(*c),
            s0 == old(state)@,
            k <= voluntary_exits.len(),
            ops == voluntary_exits@.map_values(|e: SignedVoluntaryExit| e@),
            step == (|s: StateView, e: SignedVoluntaryExitView, k: nat|
                exit_step(s, e, k, verify_signatures == VerifySignatures::True, *c)),
            apply_ops(s0, ops.take(k as int), step) == Ok::<StateView, BlockProcessingError>(state@),
        decreases voluntary_exits.len() - k,
    {
        assert(ops.take(k + 1).drop_last() =~= ops.take(k as int));
        assert(ops.take(k + 1).last() == voluntary_exits@[k as int]@);
        let ghost pre = state@;
        let exit = &voluntary_exits[k];
        assert(apply_ops(s0, ops.take(k + 1), step) == step(pre, ops[k as int], k as nat));
        assert(step(pre, ops[k as int], k as nat) == exit_step(
            pre,
            ops[k as int],
            k as nat,
            verify_signatures == VerifySignatures::True,
            *c,
        ));
        let validity = verify_exit(state, exit, verify_signatures, c);
        match validity {
            Err(e) => {
                proof {
                    lemma_apply_ops_stop(s0, ops, step, k + 1);
                    lemma_first_failure_at(s0, ops, step, k as int, pre);
                }
                return Err(e);
            },
            Ok(Some(reason)) => {
                proof {
                    lemma_apply_ops_stop(s0, ops, step, k + 1);
                    lemma_first_failure_at(s0, ops, step, k as int, pre);
                }
                return Err(BlockProcessingError::ExitInvalid { index: k as u64, reason });
            },
            Ok(None) => {},
        }
        assert(exit_validity(pre, exit@, verify_signatures == VerifySignatures::True, *c) is Ok);
        assert(exit.message.validator_index < state.validators.len());
        let index = exit.message.validator_index as usize;
        match initiate_validator_exit(state, index, c) {
            Err(e) => {
                proof {
                    lemma_apply_ops_stop(s0, ops, step, k + 1);
                    lemma_first_failure_at(s0, ops, step, k as int, pre);
                }
                return Err(e);
            },
            Ok(()) => {},
        }
        k = k + 1;
    }
    assert(ops.take(k as int) =~= ops);
    Ok(())
}

/// Credentials that withdraw to the execution address `address`.
pub open spec fn eth1_withdrawal_credentials(address: Seq<u8>) -> Seq<u8> {
    seq![1u8] + Seq::new(11, |j: int| 0u8) + address
}

/// The effect of the credential change at position `k` of the block's list.
pub open spec fn bls_to_execution_change_step(
    s: StateView,
    sc: SignedBlsToExecutionChangeView,
    k: nat,
    verify: bool,
    c: ChainSpec,
) -> Result<StateView, BlockProcessingError> {
    match bls_to_execution_change_validity(s, sc, verify, c) {
        Some(reason) => Err(BlockProcessingError::BlsExecutionChangeInvalid { index: k as u64, reason }),
        None => {
            let i = sc.message.validator_index as int;
            Ok(
                with_validator(
                    s,
                    i,
                    ValidatorView {
                        withdrawal_credentials: eth1_withdrawal_credentials(sc.message.to_execution_address),
                        ..s.validators[i]
                    },
                ),
            )
        },
    }
}

fn eth1_withdrawal_credentials_bytes(address: &Vec<u8>) -> (r: Vec<u8>)
    ensures
        r@ == eth1_withdrawal_credentials(address@),
{
    let mut prefix: Vec<u8> = Vec::new();
    prefix.push(1u8);
    let zeros = zero_bytes(11);
    let p = concat(&prefix, &zeros);
    let r = concat(&p, address);
    assert(r@ =~= eth1_withdrawal_credentials(address@));
    r
}

/// Validates each change of BLS withdrawal credentials and applies it, in
/// order, stopping at the first invalid one, which leaves the state that
/// the changes before it left.
pub fn process_bls_to_execution_changes(
    state: &mut BeaconState,
    changes: &Vec<SignedBlsToExecutionChange>,
    verify_signatures: VerifySignatures,
    c: &ChainSpec,
) -> (r: Result<(), BlockProcessingError>)
    requires
        old(state)@.wf(*c),
        forall|j: int| 0 <= j < changes.len() ==> (#[trigger] changes@[j]).message.to_execution_address@.len() == 20,
    ensures
        outcome_matches(
            r,
            final(state)@,
            apply_ops(
                old(state)@,
                changes@.map_values(|e: SignedBlsToExecutionChange| e@),
                |s: StateView, e: SignedBlsToExecutionChangeView, k: nat|
                    bls_to_execution_change_step(s, e, k, verify_signatures == VerifySignatures::True, *c),
            ),
        ),
        final(state)@.wf(*c),
        r is Err ==> final(state)@ == first_failure(
            old(state)@,
            changes@.map_values(|e: SignedBlsToExecutionChange| e@),
            |s: StateView, e: SignedBlsToExecutionChangeView, k: nat|
                bls_to_execution_change_step(s, e, k, verify_signatures == VerifySignatures::True, *c),
        ).1,
{
    let ghost s0 = state@;
    let ghost ops = changes@.map_values(|e: SignedBlsToExecutionChange| e@);
    let ghost step = |s: StateView, e: SignedBlsToExecutionChangeView, k: nat|
        bls_to_execution_change_step(s, e, k, verify_signatures == VerifySignatures::True, *c);
    let mut k: usize = 0;
    while k < changes.len()
        invariant
            state@.wf(*c),
            s0 == old(state)@,
            k <= changes.len(),
            forall|j: int| 0 <= j < changes.len() ==> (#[trigger] changes@[j]).message.to_execution_address@.len() == 20,
            ops == changes@.map_values(|e: SignedBlsToExecutionChange| e@),
            step == (|s: StateView, e: SignedBlsToExecutionChangeView, k: nat|
                bls_to_execution_change_step(s, e, k, verify_signatures == VerifySignatures::True, *c)),
            apply_ops(s0, ops.take(k as int), step) == Ok::<StateView, BlockProcessingError>(state@),
        decreases changes.len() - k,
    {
        assert(ops.take(k + 1).drop_last() =~= ops.take(k as int));
        assert(ops.take(k + 1).last() == changes@[k as int]@);
        let ghost pre = state@;
        let change = &changes[k];
        assert(apply_ops(s0, ops.take(k + 1), step) == step(pre, ops[k as int], k as nat));
        assert(step(pre, ops[k as int], k as nat) == bls_to_execution_change_step(
            pre,
            ops[k as int],
            k as nat,
            verify_signatures == VerifySignatures::True,
            *c,
        ));
        match verify_bls_to_execution_change(state, change, verify_signatures, c) {
            Some(reason) => {
                proof {
                    lemma_apply_ops_stop(s0, ops, step, k + 1);
                    lemma_first_failure_at(s0, ops, step, k as int, pre);
                }
                return Err(BlockProcessingError::BlsExecutionChangeInvalid { index: k as u64, reason });
            },
            None => {},
        }
        assert(change.message.validator_index < state.validators.len());
        let i = change.message.validator_index as usize;
        let creds = eth1_withdrawal_credentials_bytes(&change.message.to_execution_address);
        let ghost old_vals = state.validators@;
        state.validators[i].withdrawal_credentials = creds;
        proof {
            let nv = ValidatorView {
                withdrawal_credentials: eth1_withdrawal_credentials(change.message.to_execution_address@),
                ..pre.validators[i as int]
            };
            assert(state.validators@.map_values(|v: crate::beacon_state::Validator| v@)
                =~= old_vals.map_values(|v: crate::beacon_state::Validator| v@).update(i as int, nv));
            let sv = state@;
            assert forall|j: int| 0 <= j < sv.validators.len() implies (#[trigger] sv.validators[j]).wf() by {
                if j != i {
                    assert(sv.validators[j] == pre.validators[j]);
                }
            }
        }
        k = k + 1;
    }
    assert(ops.take(k as int) =~= ops);
    Ok(())
}

/// The effect of the proposer slashing at position `k` of the block's list.
pub open spec fn proposer_slashing_step(
    s: StateView,
    ps: ProposerSlashingView,
    k: nat,
    verify: bool,
    proposer: u64,
    c: ChainSpec,
) -> Result<StateView, BlockProcessingError> {
    match proposer_slashing_validity(s, ps, verify, c) {
        Some(reason) => Err(BlockProcessingError::ProposerSlashingInvalid { index: k as u64, reason }),
        None => slash_validator(
            s,
            ps.signed_header_1.message.proposer_index as nat,
            None,
            proposer as nat,
            c,
        ),
    }
}

/// Validates each proposer slashing and slashes its proposer, in order,
/// stopping at the first invalid one, which leaves the state that the
/// slashings before it left: a block that slashes one proposer twice is
/// refused at the second.
pub fn process_proposer_slashings(
    state: &mut BeaconState,
    proposer_slashings: &Vec<ProposerSlashing>,
    verify_signatures: VerifySignatures,
    ctxt: &ConsensusContext,
    c: &ChainSpec,
) -> (r: Result<(), BlockProcessingError>)
    requires
        c.valid(),
        old(state)@.wf(*c),
    ensures
        outcome_matches(
            r,
            final(state)@,
            apply_ops(
                old(state)@,
                proposer_slashings@.map_values(|p: ProposerSlashing| p@),
                |s: StateView, p: ProposerSlashingView, k: nat|
                    proposer_slashing_step(
                        s,
                        p,
                        k,
                        verify_signatures == VerifySignatures::True,
                        ctxt.proposer_index,
                        *c,
                    ),
            ),
        ),
        final(state)@.wf(*c),
        r is Err ==> ({
            let (k, p) = first_failure(
                old(state)@,
                proposer_slashings@.map_values(|p: ProposerSlashing| p@),
                |s: StateView, p: ProposerSlashingView, k: nat|
                    proposer_slashing_step(
                        s,
                        p,
                        k,
                        verify_signatures == VerifySignatures::True,
                        ctxt.proposer_index,
                        *c,
                    ),
            );
            proposer_slashing_validity(p, proposer_slashings@[k as int]@, verify_signatures == VerifySignatures::True, *c)
                is Some ==> final(state)@ == p
        }),
{
    let ghost s0 = state@;
    let ghost ops = proposer_slashings@.map_values(|p: ProposerSlashing| p@);
    let ghost step = |s: StateView, p: ProposerSlashingView, k: nat|
        proposer_slashing_step(s, p, k, verify_signatures == VerifySignatures::True, ctxt.proposer_index, *c);
    let mut k: usize = 0;
    while k < proposer_slashings.len()
        invariant
            c.valid(),
            state@.wf(*c),
            s0 == old(state)@,
            k <= proposer_slashings.len(),
            ops == proposer_slashings@.map_values(|p: ProposerSlashing| p@),
            step == (|s: StateView, p: ProposerSlashingView, k: nat|
                proposer_slashing_step(
                    s,
                    p,
                    k,
                    verify_signatures == VerifySignatures::True,
                    ctxt.proposer_index,
                    *c,
                )),
            apply_ops(s0, ops.take(k as int), step) == Ok::<StateView, BlockProcessingError>(state@),
        decreases proposer_slashings.len() - k,
    {
        assert(ops.take(k + 1).drop_last() =~= ops.take(k as int));
        assert(ops.take(k + 1).last() == proposer_slashings@[k as int]@);
        let ghost pre = state@;
        let ps = &proposer_slashings[k];
        assert(apply_ops(s0, ops.take(k + 1), step) == step(pre, ops[k as int], k as nat));
        assert(step(pre, ops[k as int], k as nat) == proposer_slashing_step(
            pre,
            ops[k as int],
            k as nat,
            verify_signatures == VerifySignatures::True,
            ctxt.proposer_index,
            *c,
        ));
        match verify_proposer_slashing(ps, state, verify_signatures, c) {
            Some(reason) => {
                proof {
                    lemma_apply_ops_stop(s0, ops, step, k + 1);
                    lemma_first_failure_at(s0, ops, step, k as int, pre);
                }
                return Err(BlockProcessingError::ProposerSlashingInvalid { index: k as u64, reason });
            },
            None => {},
        }
        assert(ps.signed_header_1.message.proposer_index < state.validators.len());
        let index = ps.signed_header_1.message.proposer_index as usize;
        match slash_validator_exec(state, index, None, ctxt.proposer_index, c) {
            Err(e) => {
                proof {
                    lemma_apply_ops_stop(s0, ops, step, k + 1);
                    lemma_first_failure_at(s0, ops, step, k as int, pre);
                }
                return Err(e);
            },
            Ok(()) => {},
        }
        k = k + 1;
    }
    assert(ops.take(k as int) =~= ops);
    Ok(())
}

} // verus!
