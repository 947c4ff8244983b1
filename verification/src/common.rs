//! State mutations shared by the operations: balances, exits, pending
//! withdrawals and the switch to compounding credentials.
use vstd::prelude::*;
use crate::spec::ChainSpec;
use crate::errors::{ArithError, BlockProcessingError};
use crate::beacon_state::{
    BeaconState, PendingDeposit, PendingDepositView, PendingPartialWithdrawal, StateView,
    ValidatorView, copy_bytes, current_epoch, is_active_at, COMPOUNDING_WITHDRAWAL_PREFIX,
};
use crate::churn::{
    activation_exit_epoch, compute_exit_epoch_and_update_churn, outcome_matches, overflow,
};

verus! {

/// The state with validator `i` replaced by `v`.
pub open spec fn with_validator(s: StateView, i: int, v: ValidatorView) -> StateView {
    StateView { validators: s.validators.update(i, v), ..s }
}

/// The state with the balance of validator `i` set to `b`.
pub open spec fn with_balance(s: StateView, i: int, b: u64) -> StateView {
    StateView { balances: s.balances.update(i, b), ..s }
}

/// Adds `delta` to the balance of validator `i`.
pub open spec fn increase_balance(s: StateView, i: nat, delta: u64) -> Result<StateView, BlockProcessingError> {
    if i >= s.balances.len() {
        Err(BlockProcessingError::BalancesOutOfBounds(i as u64))
    } else if s.balances[i as int] + delta > u64::MAX {
        overflow()
    } else {
        Ok(with_balance(s, i as int, (s.balances[i as int] + delta) as u64))
    }
}

/// Takes `delta` from the balance of validator `i`, stopping at zero.
pub open spec fn decrease_balance(s: StateView, i: nat, delta: u64) -> Result<StateView, BlockProcessingError> {
    if i >= s.balances.len() {
        Err(BlockProcessingError::BalancesOutOfBounds(i as u64))
    } else {
        Ok(
            with_balance(
                s,
                i as int,
                if s.balances[i as int] >= delta {
                    (s.balances[i as int] - delta) as u64
                } else {
                    0
                },
            ),
        )
    }
}

/// The total amount of the queued partial withdrawals of validator `i`.
pub open spec fn pending_withdrawal_sum(ws: Seq<PendingPartialWithdrawal>, i: nat) -> int
    decreases ws.len(),
{
    if ws.len() == 0 {
        0
    } else {
        pending_withdrawal_sum(ws.drop_last(), i) + if ws.last().validator_index == i {
            ws.last().amount as int
        } else {
            0int
        }
    }
}

pub proof fn lemma_pending_withdrawal_sum_prefix(ws: Seq<PendingPartialWithdrawal>, i: nat, n: int)
    requires
        0 <= n <= ws.len(),
    ensures
        0 <= pending_withdrawal_sum(ws.take(n), i) <= pending_withdrawal_sum(ws, i),
    decreases ws.len() - n,
{
    if n < ws.len() {
        lemma_pending_withdrawal_sum_prefix(ws, i, n + 1);
        assert(ws.take(n + 1).drop_last() =~= ws.take(n));
    } else {
        assert(ws.take(n) =~= ws);
    }
    lemma_pending_withdrawal_sum_nonneg(ws.take(n), i);
}

pub proof fn lemma_pending_withdrawal_sum_nonneg(ws: Seq<PendingPartialWithdrawal>, i: nat)
    ensures
        pending_withdrawal_sum(ws, i) >= 0,
    decreases ws.len(),
{
    if ws.len() > 0 {
        lemma_pending_withdrawal_sum_nonneg(ws.drop_last(), i);
    }
}

pub open spec fn pending_balance_to_withdraw(s: StateView, i: nat) -> Result<u64, BlockProcessingError> {
    if !s.electra_enabled() {
        Err(BlockProcessingError::IncorrectStateVariant)
    } else if pending_withdrawal_sum(s.pending_partial_withdrawals, i) > u64::MAX {
        overflow()
    } else {
        Ok(pending_withdrawal_sum(s.pending_partial_withdrawals, i) as u64)
    }
}

/// The latest exit epoch of the validators that have one.
pub open spec fn max_exit_epoch(vals: Seq<ValidatorView>, far: u64) -> Option<u64>
    decreases vals.len(),
{
    if vals.len() == 0 {
        None
    } else {
        let rest = max_exit_epoch(vals.drop_last(), far);
        let e = vals.last().exit_epoch;
        if e == far {
            rest
        } else {
            match rest {
                None => Some(e),
                Some(m) => Some(
                    if m >= e {
                        m
                    } else {
                        e
                    },
                ),
            }
        }
    }
}

/// The number of validators that exit at `epoch` (which is not `far`).
pub open spec fn exit_count_at(vals: Seq<ValidatorView>, epoch: u64, far: u64) -> nat
    decreases vals.len(),
{
    if vals.len() == 0 {
        0
    } else {
        exit_count_at(vals.drop_last(), epoch, far) + if vals.last().exit_epoch == epoch
            && epoch != far {
            1nat
        } else {
            0nat
        }
    }
}

/// The number of validators active in `epoch`.
pub open spec fn active_count(vals: Seq<ValidatorView>, epoch: u64) -> nat
    decreases vals.len(),
{
    if vals.len() == 0 {
        0
    } else {
        active_count(vals.drop_last(), epoch) + if is_active_at(vals.last(), epoch) {
            1nat
        } else {
            0nat
        }
    }
}

pub proof fn lemma_counts_bounded(vals: Seq<ValidatorView>, epoch: u64, e2: u64, far: u64)
    ensures
        active_count(vals, epoch) <= vals.len(),
        exit_count_at(vals, e2, far) <= vals.len(),
    decreases vals.len(),
{
    if vals.len() > 0 {
        lemma_counts_bounded(vals.drop_last(), epoch, e2, far);
    }
}

/// The number of validators that may exit per epoch before the exit queue
/// existed.
pub open spec fn validator_churn_limit(s: StateView, c: ChainSpec) -> nat {
    let share = active_count(s.validators, current_epoch(s, c)) / (c.churn_limit_quotient as nat);
    if c.min_per_epoch_churn_limit >= share {
        c.min_per_epoch_churn_limit as nat
    } else {
        share
    }
}

/// The exit epoch of the next exit, by validator count, before the exit queue
/// existed.
pub open spec fn legacy_exit_queue_epoch(s: StateView, c: ChainSpec) -> Result<u64, BlockProcessingError> {
    match activation_exit_epoch(current_epoch(s, c), c) {
        Err(e) => Err(e),
        Ok(delayed) => {
            let q = match max_exit_epoch(s.validators, c.far_future_epoch) {
                Some(m) => if m >= delayed {
                    m
                } else {
                    delayed
                },
                None => delayed,
            };
            if exit_count_at(s.validators, q, c.far_future_epoch) >= validator_churn_limit(s, c) {
                if q == u64::MAX {
                    overflow()
                } else {
                    Ok((q + 1) as u64)
                }
            } else {
                Ok(q)
            }
        },
    }
}

/// Starts the exit of validator `i`, unless it has already started.
pub open spec fn spec_initiate_validator_exit(s: StateView, i: nat, c: ChainSpec) -> Result<StateView, BlockProcessingError> {
    if i >= s.validators.len() {
        Err(BlockProcessingError::UnknownValidator(i as u64))
    } else if s.validators[i as int].exit_epoch != c.far_future_epoch {
        Ok(s)
    } else {
        let v = s.validators[i as int];
        let queued: Result<(StateView, u64), BlockProcessingError> = if s.fork_name.index() >= 5 {
            compute_exit_epoch_and_update_churn(s, v.effective_balance, c)
        } else {
            match legacy_exit_queue_epoch(s, c) {
                Err(e) => Err(e),
                Ok(q) => Ok((s, q)),
            }
        };
        match queued {
            Err(e) => Err(e),
            Ok((s2, q)) => if q + c.min_validator_withdrawability_delay > u64::MAX {
                overflow()
            } else {
                Ok(
                    with_validator(
                        s2,
                        i as int,
                        ValidatorView {
                            exit_epoch: q,
                            withdrawable_epoch: (q + c.min_validator_withdrawability_delay) as u64,
                            ..v
                        },
                    ),
                )
            },
        }
    }
}

/// The signature bytes of the point at infinity.
pub open spec fn infinity_signature() -> Seq<u8> {
    Seq::new(96, |k: int| if k == 0 { 0xc0u8 } else { 0u8 })
}

pub fn infinity_signature_bytes() -> (r: Vec<u8>)
    ensures
        r@ == infinity_signature(),
{
    let mut r: Vec<u8> = Vec::new();
    r.push(0xc0);
    while r.len() < 96
        invariant
            1 <= r.len() <= 96,
            r@[0] == 0xc0u8,
            forall|k: int| 1 <= k < r.len() ==> r@[k] == 0u8,
        decreases 96 - r.len(),
    {
        r.push(0);
    }
    assert(r@ =~= infinity_signature());
    r
}

/// Gives validator `i` compounding credentials and queues its balance above
/// the activation balance as a deposit.
pub open spec fn switch_to_compounding_validator(s: StateView, i: nat, c: ChainSpec) -> Result<StateView, BlockProcessingError> {
    if i >= s.validators.len() {
        Err(BlockProcessingError::UnknownValidator(i as u64))
    } else {
        let v = s.validators[i as int];
        let v2 = ValidatorView {
            withdrawal_credentials: v.withdrawal_credentials.update(0, COMPOUNDING_WITHDRAWAL_PREFIX),
            ..v
        };
        let s1 = with_validator(s, i as int, v2);
        if i >= s.balances.len() {
            Err(BlockProcessingError::BalancesOutOfBounds(i as u64))
        } else if s.balances[i as int] <= c.min_activation_balance {
            Ok(s1)
        } else if !s.electra_enabled() {
            Err(BlockProcessingError::IncorrectStateVariant)
        } else if s.pending_deposits.len() >= c.pending_deposits_limit {
            Err(BlockProcessingError::ListFull)
        } else {
            let excess = (s.balances[i as int] - c.min_activation_balance) as u64;
            let s2 = with_balance(s1, i as int, c.min_activation_balance);
            Ok(
                StateView {
                    pending_deposits: s2.pending_deposits.push(
                        PendingDepositView {
                            pubkey: v2.pubkey,
                            withdrawal_credentials: v2.withdrawal_credentials,
                            amount: excess,
                            signature: infinity_signature(),
                            slot: c.genesis_slot,
                        },
                    ),
                    ..s2
                },
            )
        }
    }
}

/// The state that switching validator `i` to compounding credentials leaves
/// when it fails: unchanged for an unknown validator, else with the new
/// credentials in place.
pub open spec fn switch_failure_state(s: StateView, i: nat) -> StateView {
    if i >= s.validators.len() {
        s
    } else {
        let v = s.validators[i as int];
        with_validator(
            s,
            i as int,
            ValidatorView {
                withdrawal_credentials: v.withdrawal_credentials.update(0, COMPOUNDING_WITHDRAWAL_PREFIX),
                ..v
            },
        )
    }
}

impl BeaconState {
    /// Gives validator `i` compounding credentials and queues its balance above
    /// the activation balance as a deposit.
    pub fn switch_to_compounding_validator(&mut self, i: usize, c: &ChainSpec) -> (r: Result<(), BlockProcessingError>)
        requires
            old(self)@.wf(*c),
        ensures
            outcome_matches(r, final(self)@, switch_to_compounding_validator(old(self)@, i as nat, *c)),
            final(self)@.wf(*c),
            r is Err ==> final(self)@ == switch_failure_state(old(self)@, i as nat),
    {
        if i >= self.validators.len() {
            return Err(BlockProcessingError::UnknownValidator(i as u64));
        }
        let ghost old_state = self@;
        let ghost old_vals = self.validators@;
        let mut creds = copy_bytes(&self.validators[i].withdrawal_credentials);
        assert(old_state.validators[i as int].wf());
        creds.set(0, COMPOUNDING_WITHDRAWAL_PREFIX);
        self.validators[i].withdrawal_credentials = creds;
        let ghost v2 = ValidatorView {
            withdrawal_credentials: old_state.validators[i as int].withdrawal_credentials.update(
                0,
                COMPOUNDING_WITHDRAWAL_PREFIX,
            ),
            ..old_state.validators[i as int]
        };
        proof {
            assert(self.validators@.map_values(|v: crate::beacon_state::Validator| v@)
                =~= old_vals.map_values(|v: crate::beacon_state::Validator| v@).update(i as int, v2));
            assert(self@ == with_validator(old_state, i as int, v2));
            let sv = self@;
            assert forall|j: int| 0 <= j < sv.validators.len() implies (#[trigger] sv.validators[j]).wf() by {
                if j != i {
                    assert(sv.validators[j] == old_state.validators[j]);
                }
            }
        }
        let b = self.balances[i];
        if b <= c.min_activation_balance {
            return Ok(());
        }
        if !self.fork_name.electra_enabled() {
            return Err(BlockProcessingError::IncorrectStateVariant);
        }
        if self.pending_deposits.len() as u64 >= c.pending_deposits_limit {
            return Err(BlockProcessingError::ListFull);
        }
        let excess = b - c.min_activation_balance;
        self.balances.set(i, c.min_activation_balance);
        let d = PendingDeposit {
            pubkey: copy_bytes(&self.validators[i].pubkey),
            withdrawal_credentials: copy_bytes(&self.validators[i].withdrawal_credentials),
            amount: excess,
            signature: infinity_signature_bytes(),
            slot: c.genesis_slot,
        };
        let ghost old_deps = self.pending_deposits@;
        self.pending_deposits.push(d);
        proof {
            assert(self.pending_deposits@.map_values(|d: PendingDeposit| d@)
                =~= old_deps.map_values(|d: PendingDeposit| d@).push(d@));
        }
        Ok(())
    }

    pub fn set_validator_exit(&mut self, i: usize, exit_epoch: u64, withdrawable_epoch: u64)
        requires
            i < old(self).validators.len(),
        ensures
            final(self)@ == with_validator(
                old(self)@,
                i as int,
                ValidatorView { exit_epoch, withdrawable_epoch, ..old(self)@.validators[i as int] },
            ),
    {
        let ghost old_vals = self.validators@;
        self.validators[i].exit_epoch = exit_epoch;
        self.validators[i].withdrawable_epoch = withdrawable_epoch;
        proof {
            let nv = ValidatorView {
                exit_epoch,
                withdrawable_epoch,
                ..old_vals[i as int]@
            };
            assert(self.validators@.map_values(|v: crate::beacon_state::Validator| v@)
                =~= old_vals.map_values(|v: crate::beacon_state::Validator| v@).update(i as int, nv));
        }
    }

    pub fn increase_balance(&mut self, i: usize, delta: u64) -> (r: Result<(), BlockProcessingError>)
        ensures
            outcome_matches(r, final(self)@, increase_balance(old(self)@, i as nat, delta)),
            r is Err ==> final(self)@ == old(self)@,
    {
        if i >= self.balances.len() {
            return Err(BlockProcessingError::BalancesOutOfBounds(i as u64));
        }
        let b = self.balances[i];
        if b > u64::MAX - delta {
            return Err(BlockProcessingError::ArithError(ArithError::Overflow));
        }
        self.balances.set(i, b + delta);
        Ok(())
    }

    pub fn decrease_balance(&mut self, i: usize, delta: u64) -> (r: Result<(), BlockProcessingError>)
        ensures
            outcome_matches(r, final(self)@, decrease_balance(old(self)@, i as nat, delta)),
            r is Err ==> final(self)@ == old(self)@,
    {
        if i >= self.balances.len() {
            return Err(BlockProcessingError::BalancesOutOfBounds(i as u64));
        }
        let b = self.balances[i];
        let nb = if b >= delta {
            b - delta
        } else {
            0
        };
        self.balances.set(i, nb);
        Ok(())
    }

    /// The total amount of the queued partial withdrawals of validator `i`.
    pub fn get_pending_balance_to_withdraw(&self, i: usize) -> (r: Result<u64, BlockProcessingError>)
        ensures
            r == pending_balance_to_withdraw(self@, i as nat),
    {
        if !self.fork_name.electra_enabled() {
            return Err(BlockProcessingError::IncorrectStateVariant);
        }
        let ghost ws = self@.pending_partial_withdrawals;
        let mut sum: u64 = 0;
        let mut k: usize = 0;
        while k < self.pending_partial_withdrawals.len()
            invariant
                ws == self@.pending_partial_withdrawals,
                self@.electra_enabled(),
                k <= ws.len(),
                sum == pending_withdrawal_sum(ws.take(k as int), i as nat),
            decreases ws.len() - k,
        {
            assert(ws.take(k + 1).drop_last() =~= ws.take(k as int));
            let w = self.pending_partial_withdrawals[k];
            assert(ws.take(k + 1).last() == w);
            if w.validator_index == i as u64 {
                if sum > u64::MAX - w.amount {
                    proof {
                        lemma_pending_withdrawal_sum_prefix(ws, i as nat, k + 1);
                        assert(pending_withdrawal_sum(ws.take(k + 1), i as nat)
                            == pending_withdrawal_sum(ws.take(k as int), i as nat) + w.amount);
                    }
                    return Err(BlockProcessingError::ArithError(ArithError::Overflow));
                }
                sum = sum + w.amount;
            }
            k = k + 1;
        }
        assert(ws.take(k as int) =~= ws);
        Ok(sum)
    }

    pub fn legacy_exit_queue_epoch(&self, c: &ChainSpec) -> (r: Result<u64, BlockProcessingError>)
        requires
            c.valid(),
        ensures
            r == legacy_exit_queue_epoch(self@, *c),
    {
        let epoch = self.current_epoch(c);
        let delayed = Self::compute_activation_exit_epoch(epoch, c)?;
        let ghost vals = self@.validators;
        let far = c.far_future_epoch;
        let mut max_e: Option<u64> = None;
        let mut active: usize = 0;
        let mut k: usize = 0;
        while k < self.validators.len()
            invariant
                vals == self@.validators,
                epoch == current_epoch(self@, *c),
                far == c.far_future_epoch,
                k <= vals.len(),
                max_e == max_exit_epoch(vals.take(k as int), far),
                active as nat == active_count(vals.take(k as int), epoch),
            decreases vals.len() - k,
        {
            assert(vals.take(k + 1).drop_last() =~= vals.take(k as int));
            proof {
                lemma_counts_bounded(vals.take(k as int), epoch, 0, far);
            }
            let e = self.validators[k].exit_epoch;
            if e != far {
                max_e = match max_e {
                    None => Some(e),
                    Some(m) => Some(if m >= e { m } else { e }),
                };
            }
            if self.validators[k].is_active_at(epoch) {
                active = active + 1;
            }
            k = k + 1;
        }
        assert(vals.take(k as int) =~= vals);
        let q = match max_e {
            Some(m) => if m >= delayed { m } else { delayed },
            None => delayed,
        };
        let mut count: usize = 0;
        let mut k: usize = 0;
        while k < self.validators.len()
            invariant
                vals == self@.validators,
                far == c.far_future_epoch,
                k <= vals.len(),
                count as nat == exit_count_at(vals.take(k as int), q, far),
            decreases vals.len() - k,
        {
            assert(vals.take(k + 1).drop_last() =~= vals.take(k as int));
            proof {
                lemma_counts_bounded(vals.take(k as int), 0, q, far);
            }
            if self.validators[k].exit_epoch == q && q != far {
                count = count + 1;
            }
            k = k + 1;
        }
        assert(vals.take(k as int) =~= vals);
        let share = (active as u64) / c.churn_limit_quotient;
        let limit = if c.min_per_epoch_churn_limit >= share {
            c.min_per_epoch_churn_limit
        } else {
            share
        };
        if count as u64 >= limit {
            if q == u64::MAX {
                return Err(BlockProcessingError::ArithError(ArithError::Overflow));
            }
            Ok(q + 1)
        } else {
            Ok(q)
        }
    }
}

/// The state that starting the exit of validator `i` leaves when it fails:
/// since Electra, where the exit consumed churn before its withdrawable epoch
/// overflowed, the state with that churn consumed; else the state as it was.
pub open spec fn exit_failure_state(s: StateView, i: nat, c: ChainSpec) -> StateView {
    if i < s.validators.len() && s.validators[i as int].exit_epoch == c.far_future_epoch && s.fork_name.index()
        >= 5 {
        match crate::churn::compute_exit_epoch_and_update_churn(s, s.validators[i as int].effective_balance, c) {
            Ok((s2, _)) => s2,
            Err(_) => s,
        }
    } else {
        s
    }
}

/// Starts the exit of validator `index`, unless it has already started.
pub fn initiate_validator_exit(state: &mut BeaconState, index: usize, c: &ChainSpec) -> (r: Result<(), BlockProcessingError>)
    requires
        c.valid(),
        old(state)@.wf(*c),
    ensures
        outcome_matches(r, final(state)@, spec_initiate_validator_exit(old(state)@, index as nat, *c)),
        final(state)@.wf(*c),
        r is Err ==> final(state)@ == exit_failure_state(old(state)@, index as nat, *c),
{
    if index >= state.validators.len() {
        return Err(BlockProcessingError::UnknownValidator(index as u64));
    }
    if state.validators[index].exit_epoch != c.far_future_epoch {
        return Ok(());
    }
    let q = if state.fork_name.electra_enabled() {
        let b = state.validators[index].effective_balance;
        state.compute_exit_epoch_and_update_churn(b, c)?
    } else {
        state.legacy_exit_queue_epoch(c)?
    };
    if q > u64::MAX - c.min_validator_withdrawability_delay {
        return Err(BlockProcessingError::ArithError(ArithError::Overflow));
    }
    state.set_validator_exit(index, q, q + c.min_validator_withdrawability_delay);
    proof {
        let sv = state@;
        assert forall|j: int| 0 <= j < sv.validators.len() implies (#[trigger] sv.validators[j]).wf() by {
            if j != index {
                assert(sv.validators[j] == old(state)@.validators[j]);
            }
        }
    }
    Ok(())
}

} // verus!

verus! {

/// A new validator record for a deposit: not yet eligible, with its effective
/// balance rounded down to increments and capped.
pub open spec fn validator_from_deposit(
    pubkey: Seq<u8>,
    withdrawal_credentials: Seq<u8>,
    amount: u64,
    fork: crate::spec::ForkName,
    c: ChainSpec,
) -> ValidatorView {
    let max_effective_balance = if fork.index() >= 5 {
        if withdrawal_credentials[0] == COMPOUNDING_WITHDRAWAL_PREFIX {
            c.max_effective_balance_electra
        } else {
            c.min_activation_balance
        }
    } else {
        c.max_effective_balance
    };
    let rounded = (amount - amount % c.effective_balance_increment) as u64;
    ValidatorView {
        pubkey,
        withdrawal_credentials,
        effective_balance: if rounded <= max_effective_balance {
            rounded
        } else {
            max_effective_balance
        },
        slashed: false,
        activation_eligibility_epoch: c.far_future_epoch,
        activation_epoch: c.far_future_epoch,
        exit_epoch: c.far_future_epoch,
        withdrawable_epoch: c.far_future_epoch,
    }
}

/// Appends a validator for a deposit, with its balance and, from Altair on,
/// empty participation and a zero inactivity score.
pub open spec fn add_validator_to_registry(
    s: StateView,
    pubkey: Seq<u8>,
    withdrawal_credentials: Seq<u8>,
    amount: u64,
    c: ChainSpec,
) -> Result<StateView, BlockProcessingError> {
    if s.validators.len() >= c.validator_registry_limit {
        Err(BlockProcessingError::ListFull)
    } else {
        Ok(
            StateView {
                validators: s.validators.push(
                    validator_from_deposit(pubkey, withdrawal_credentials, amount, s.fork_name, c),
                ),
                balances: s.balances.push(amount),
                previous_epoch_participation: if s.altair_enabled() {
                    s.previous_epoch_participation.push(0)
                } else {
                    s.previous_epoch_participation
                },
                current_epoch_participation: if s.altair_enabled() {
                    s.current_epoch_participation.push(0)
                } else {
                    s.current_epoch_participation
                },
                inactivity_scores: if s.altair_enabled() {
                    s.inactivity_scores.push(0)
                } else {
                    s.inactivity_scores
                },
                ..s
            },
        )
    }
}

impl BeaconState {
    pub fn add_validator_to_registry(
        &mut self,
        pubkey: &Vec<u8>,
        withdrawal_credentials: &Vec<u8>,
        amount: u64,
        c: &ChainSpec,
    ) -> (r: Result<(), BlockProcessingError>)
        requires
            c.valid(),
            old(self)@.wf(*c),
            pubkey@.len() == 48,
            withdrawal_credentials@.len() == 32,
        ensures
            outcome_matches(
                r,
                final(self)@,
                add_validator_to_registry(old(self)@, pubkey@, withdrawal_credentials@, amount, *c),
            ),
            final(self)@.wf(*c),
            r is Err ==> final(self)@ == old(self)@,
    {
        if self.validators.len() as u64 >= c.validator_registry_limit {
            return Err(BlockProcessingError::ListFull);
        }
        let max_effective_balance = if self.fork_name.electra_enabled() {
            if withdrawal_credentials[0] == COMPOUNDING_WITHDRAWAL_PREFIX {
                c.max_effective_balance_electra
            } else {
                c.min_activation_balance
            }
        } else {
            c.max_effective_balance
        };
        let inc = c.effective_balance_increment;
        assert(amount % inc <= amount) by (nonlinear_arith)
            requires
                inc > 0,
        ;
        let rounded = amount - amount % inc;
        let v = crate::beacon_state::Validator {
            pubkey: copy_bytes(pubkey),
            withdrawal_credentials: copy_bytes(withdrawal_credentials),
            effective_balance: if rounded <= max_effective_balance {
                rounded
            } else {
                max_effective_balance
            },
            slashed: false,
            activation_eligibility_epoch: c.far_future_epoch,
            activation_epoch: c.far_future_epoch,
            exit_epoch: c.far_future_epoch,
            withdrawable_epoch: c.far_future_epoch,
        };
        let ghost old_state = self@;
        let ghost old_vals = self.validators@;
        self.validators.push(v);
        self.balances.push(amount);
        if self.fork_name.altair_enabled() {
            self.previous_epoch_participation.push(0);
            self.current_epoch_participation.push(0);
            self.inactivity_scores.push(0);
        }
        proof {
            assert(self.validators@.map_values(|v: crate::beacon_state::Validator| v@)
                =~= old_vals.map_values(|v: crate::beacon_state::Validator| v@).push(v@));
            let sv = self@;
            assert forall|j: int| 0 <= j < sv.validators.len() implies (#[trigger] sv.validators[j]).wf() by {
                if j < old_state.validators.len() {
                    assert(sv.validators[j] == old_state.validators[j]);
                }
            }
        }
        Ok(())
    }
}

pub const PROPOSER_WEIGHT: u64 = 8;

pub const WEIGHT_DENOMINATOR: u64 = 64;

pub open spec fn min_slashing_penalty_quotient(fork: crate::spec::ForkName, c: ChainSpec) -> u64 {
    if fork.index() == 0 {
        c.min_slashing_penalty_quotient
    } else if fork.index() == 1 {
        c.min_slashing_penalty_quotient_altair
    } else if fork.index() <= 4 {
        c.min_slashing_penalty_quotient_bellatrix
    } else {
        c.min_slashing_penalty_quotient_electra
    }
}

pub open spec fn whistleblower_reward_quotient(fork: crate::spec::ForkName, c: ChainSpec) -> u64 {
    if fork.index() >= 5 {
        c.whistleblower_reward_quotient_electra
    } else {
        c.whistleblower_reward_quotient
    }
}

/// Slashes validator `i`: it exits, is marked slashed and withdrawable late,
/// its balance is recorded in the slashings and penalised, and the proposer
/// and the whistleblower (by default the proposer) are rewarded.
pub open spec fn slash_validator(
    s: StateView,
    i: nat,
    whistleblower: Option<nat>,
    proposer: nat,
    c: ChainSpec,
) -> Result<StateView, BlockProcessingError> {
    let epoch = current_epoch(s, c);
    match spec_initiate_validator_exit(s, i, c) {
        Err(e) => Err(e),
        Ok(s1) => {
            let v = s1.validators[i as int];
            if epoch + c.epochs_per_slashings_vector > u64::MAX {
                overflow()
            } else {
                let late = (epoch + c.epochs_per_slashings_vector) as u64;
                let s2 = with_validator(
                    s1,
                    i as int,
                    ValidatorView {
                        slashed: true,
                        withdrawable_epoch: if v.withdrawable_epoch >= late {
                            v.withdrawable_epoch
                        } else {
                            late
                        },
                        ..v
                    },
                );
                let slot = (epoch % c.epochs_per_slashings_vector) as int;
                if s2.slashings[slot] + v.effective_balance > u64::MAX {
                    overflow()
                } else {
                    let s3 = StateView {
                        slashings: s2.slashings.update(slot, (s2.slashings[slot] + v.effective_balance) as u64),
                        ..s2
                    };
                    let penalty = v.effective_balance / min_slashing_penalty_quotient(s.fork_name, c);
                    match decrease_balance(s3, i, penalty) {
                        Err(e) => Err(e),
                        Ok(s4) => {
                            let w = match whistleblower {
                                Some(w) => w,
                                None => proposer,
                            };
                            let wreward = v.effective_balance / whistleblower_reward_quotient(s.fork_name, c);
                            if s.fork_name.index() >= 1 && wreward * PROPOSER_WEIGHT > u64::MAX {
                                overflow()
                            } else {
                                let preward = if s.fork_name.index() >= 1 {
                                    ((wreward * PROPOSER_WEIGHT) as int / WEIGHT_DENOMINATOR as int) as u64
                                } else {
                                    wreward / c.proposer_reward_quotient
                                };
                                if w >= s4.validators.len() {
                                    Err(BlockProcessingError::UnknownValidator(w as u64))
                                } else {
                                    match increase_balance(s4, proposer, preward) {
                                        Err(e) => Err(e),
                                        Ok(s5) => increase_balance(s5, w, (wreward - preward) as u64),
                                    }
                                }
                            }
                        },
                    }
                }
            }
        },
    }
}

/// Slashes validator `index`.
pub fn slash_validator_exec(
    state: &mut BeaconState,
    index: usize,
    whistleblower: Option<usize>,
    proposer: u64,
    c: &ChainSpec,
) -> (r: Result<(), BlockProcessingError>)
    requires
        c.valid(),
        old(state)@.wf(*c),
    ensures
        outcome_matches(
            r,
            final(state)@,
            slash_validator(
                old(state)@,
                index as nat,
                match whistleblower {
                    Some(w) => Some(w as nat),
                    None => None,
                },
                proposer as nat,
                *c,
            ),
        ),
        final(state)@.wf(*c),
{
    let epoch = state.current_epoch(c);
    let ghost s0 = state@;
    initiate_validator_exit(state, index, c)?;
    let ghost s1 = state@;
    if epoch > u64::MAX - c.epochs_per_slashings_vector {
        return Err(BlockProcessingError::ArithError(ArithError::Overflow));
    }
    let late = epoch + c.epochs_per_slashings_vector;
    let effective_balance = state.validators[index].effective_balance;
    let old_withdrawable = state.validators[index].withdrawable_epoch;
    let ghost old_vals = state.validators@;
    state.validators[index].slashed = true;
    state.validators[index].withdrawable_epoch = if old_withdrawable >= late {
        old_withdrawable
    } else {
        late
    };
    proof {
        let v = s1.validators[index as int];
        let nv = ValidatorView {
            slashed: true,
            withdrawable_epoch: if v.withdrawable_epoch >= late {
                v.withdrawable_epoch
            } else {
                late
            },
            ..v
        };
        assert(state.validators@.map_values(|v: crate::beacon_state::Validator| v@)
            =~= old_vals.map_values(|v: crate::beacon_state::Validator| v@).update(index as int, nv));
        let sv = state@;
        assert forall|j: int| 0 <= j < sv.validators.len() implies (#[trigger] sv.validators[j]).wf() by {
            if j != index {
                assert(sv.validators[j] == s1.validators[j]);
            }
        }
    }
    let m = epoch % c.epochs_per_slashings_vector;
    assert(state.slashings@ == s1.slashings);
    assert(m < state.slashings.len());
    let slot = m as usize;
    let current = state.slashings[slot];
    if current > u64::MAX - effective_balance {
        return Err(BlockProcessingError::ArithError(ArithError::Overflow));
    }
    state.slashings.set(slot, current + effective_balance);
    let penalty_quotient = match state.fork_name {
        crate::spec::ForkName::Base => c.min_slashing_penalty_quotient,
        crate::spec::ForkName::Altair => c.min_slashing_penalty_quotient_altair,
        crate::spec::ForkName::Bellatrix => c.min_slashing_penalty_quotient_bellatrix,
        crate::spec::ForkName::Capella => c.min_slashing_penalty_quotient_bellatrix,
        crate::spec::ForkName::Deneb => c.min_slashing_penalty_quotient_bellatrix,
        _ => c.min_slashing_penalty_quotient_electra,
    };
    state.decrease_balance(index, effective_balance / penalty_quotient)?;
    let wquotient = if state.fork_name.electra_enabled() {
        c.whistleblower_reward_quotient_electra
    } else {
        c.whistleblower_reward_quotient
    };
    let wreward = effective_balance / wquotient;
    let preward = if state.fork_name.altair_enabled() {
        if wreward > u64::MAX / PROPOSER_WEIGHT {
            return Err(BlockProcessingError::ArithError(ArithError::Overflow));
        }
        wreward * PROPOSER_WEIGHT / WEIGHT_DENOMINATOR
    } else {
        wreward / c.proposer_reward_quotient
    };
    let n = state.validators.len();
    let w = match whistleblower {
        Some(w) => {
            if w >= n {
                return Err(BlockProcessingError::UnknownValidator(w as u64));
            }
            w
        },
        None => {
            if proposer >= n as u64 {
                return Err(BlockProcessingError::UnknownValidator(proposer));
            }
            proposer as usize
        },
    };
    if proposer >= n as u64 {
        return Err(BlockProcessingError::BalancesOutOfBounds(proposer));
    }
    state.increase_balance(proposer as usize, preward)?;
    state.increase_balance(w, wreward - preward)?;
    Ok(())
}

} // verus!
