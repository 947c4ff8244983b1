//! Churn limits, the exit and consolidation queues, and validator exits.
use vstd::prelude::*;
use crate::spec::ChainSpec;
use crate::errors::{ArithError, BlockProcessingError};
use crate::beacon_state::{BeaconState, StateView, current_epoch, total_active_balance};

verus! {

pub open spec fn overflow<T>() -> Result<T, BlockProcessingError> {
    Err(BlockProcessingError::ArithError(ArithError::Overflow))
}

/// `r` reports `expected`: on success the state became the expected one, on
/// failure the same error came back.
pub open spec fn outcome_matches(
    r: Result<(), BlockProcessingError>,
    post: StateView,
    expected: Result<StateView, BlockProcessingError>,
) -> bool {
    match expected {
        Ok(s) => r is Ok && post == s,
        Err(e) => r == Err::<(), BlockProcessingError>(e),
    }
}

/// Like `outcome_matches`, for an operation that also returns a value.
pub open spec fn outcome_matches_with<T>(
    r: Result<T, BlockProcessingError>,
    post: StateView,
    expected: Result<(StateView, T), BlockProcessingError>,
) -> bool {
    match expected {
        Ok((s, v)) => r == Ok::<T, BlockProcessingError>(v) && post == s,
        Err(e) => r == Err::<T, BlockProcessingError>(e),
    }
}

/// The first epoch at which an activation or exit initiated in `epoch` takes
/// effect.
pub open spec fn activation_exit_epoch(epoch: u64, c: ChainSpec) -> Result<u64, BlockProcessingError> {
    if epoch + 1 + c.max_seed_lookahead > u64::MAX {
        overflow()
    } else {
        Ok((epoch + 1 + c.max_seed_lookahead) as u64)
    }
}

/// The balance that may enter or leave per epoch: a share of the active
/// balance, at least a floor, rounded down to whole increments.
pub open spec fn balance_churn_limit(s: StateView, c: ChainSpec) -> Result<u64, BlockProcessingError> {
    match total_active_balance(s, c) {
        Err(e) => Err(e),
        Ok(t) => {
            let share = t / c.churn_limit_quotient;
            let churn = if c.min_per_epoch_churn_limit_electra >= share {
                c.min_per_epoch_churn_limit_electra
            } else {
                share
            };
            Ok((churn - churn % c.effective_balance_increment) as u64)
        },
    }
}

/// The part of the balance churn that exits may use.
pub open spec fn activation_exit_churn_limit(s: StateView, c: ChainSpec) -> Result<u64, BlockProcessingError> {
    match balance_churn_limit(s, c) {
        Err(e) => Err(e),
        Ok(b) => Ok(
            if c.max_per_epoch_activation_exit_churn_limit <= b {
                c.max_per_epoch_activation_exit_churn_limit
            } else {
                b
            },
        ),
    }
}

/// The part of the balance churn that consolidations may use.
pub open spec fn consolidation_churn_limit(s: StateView, c: ChainSpec) -> Result<u64, BlockProcessingError> {
    match balance_churn_limit(s, c) {
        Err(e) => Err(e),
        Ok(b) => Ok(
            (b - if c.max_per_epoch_activation_exit_churn_limit <= b {
                c.max_per_epoch_activation_exit_churn_limit
            } else {
                b
            }) as u64,
        ),
    }
}

/// Fits `balance` into a queue whose current last epoch is `earliest`, with
/// `to_consume` balance left in it, no earlier than `floor`, where each epoch
/// takes `per_epoch`. Gives the balance left in the last epoch and the epoch
/// at which `balance` leaves.
pub open spec fn consume_churn(
    earliest: u64,
    to_consume: u64,
    floor: u64,
    per_epoch: u64,
    balance: u64,
) -> Result<(u64, u64), BlockProcessingError> {
    let start = if earliest >= floor {
        earliest
    } else {
        floor
    };
    let available = if earliest < start {
        per_epoch
    } else {
        to_consume
    };
    if balance > available {
        if per_epoch == 0 {
            Err(BlockProcessingError::ArithError(ArithError::DivisionByZero))
        } else {
            let extra = (balance - available - 1) / (per_epoch as int) + 1;
            if start + extra > u64::MAX {
                overflow()
            } else if extra * per_epoch > u64::MAX {
                overflow()
            } else if available + extra * per_epoch > u64::MAX {
                overflow()
            } else {
                Ok(
                    (
                        (available + extra * per_epoch - balance) as u64,
                        (start + extra) as u64,
                    ),
                )
            }
        }
    } else {
        Ok(((available - balance) as u64, start))
    }
}

/// The epoch at which an exit of `exit_balance` leaves, with the exit queue
/// advanced past it.
pub open spec fn compute_exit_epoch_and_update_churn(
    s: StateView,
    exit_balance: u64,
    c: ChainSpec,
) -> Result<(StateView, u64), BlockProcessingError> {
    if !s.electra_enabled() {
        Err(BlockProcessingError::IncorrectStateVariant)
    } else {
        match activation_exit_epoch(current_epoch(s, c), c) {
            Err(e) => Err(e),
            Ok(floor) => match activation_exit_churn_limit(s, c) {
                Err(e) => Err(e),
                Ok(per) => match consume_churn(
                    s.earliest_exit_epoch,
                    s.exit_balance_to_consume,
                    floor,
                    per,
                    exit_balance,
                ) {
                    Err(e) => Err(e),
                    Ok((left, epoch)) => Ok(
                        (
                            StateView {
                                exit_balance_to_consume: left,
                                earliest_exit_epoch: epoch,
                                ..s
                            },
                            epoch,
                        ),
                    ),
                },
            },
        }
    }
}

/// The epoch at which a consolidation of `balance` takes effect, with the
/// consolidation queue advanced past it.
pub open spec fn compute_consolidation_epoch_and_update_churn(
    s: StateView,
    balance: u64,
    c: ChainSpec,
) -> Result<(StateView, u64), BlockProcessingError> {
    if !s.electra_enabled() {
        Err(BlockProcessingError::IncorrectStateVariant)
    } else {
        match activation_exit_epoch(current_epoch(s, c), c) {
            Err(e) => Err(e),
            Ok(floor) => match consolidation_churn_limit(s, c) {
                Err(e) => Err(e),
                Ok(per) => match consume_churn(
                    s.earliest_consolidation_epoch,
                    s.consolidation_balance_to_consume,
                    floor,
                    per,
                    balance,
                ) {
                    Err(e) => Err(e),
                    Ok((left, epoch)) => Ok(
                        (
                            StateView {
                                consolidation_balance_to_consume: left,
                                earliest_consolidation_epoch: epoch,
                                ..s
                            },
                            epoch,
                        ),
                    ),
                },
            },
        }
    }
}

proof fn lemma_extra_covers(x: int, p: int)
    requires
        x >= 1,
        p >= 1,
    ensures
        ((x - 1) / p + 1) * p >= x,
        (x - 1) / p + 1 <= x,
        (x - 1) / p >= 0,
{
    assert(((x - 1) / p + 1) * p >= x) by (nonlinear_arith)
        requires
            x >= 1,
            p >= 1,
    {
        let q = (x - 1) / p;
        let r = (x - 1) % p;
        assert(x - 1 == p * q + r);
        assert(r < p);
        assert((q + 1) * p == q * p + p);
    }
    assert((x - 1) / p <= x - 1) by (nonlinear_arith)
        requires
            x >= 1,
            p >= 1,
    ;
    assert((x - 1) / p >= 0) by (nonlinear_arith)
        requires
            x >= 1,
            p >= 1,
    ;
}

pub fn consume_churn_exec(
    earliest: u64,
    to_consume: u64,
    floor: u64,
    per_epoch: u64,
    balance: u64,
) -> (r: Result<(u64, u64), BlockProcessingError>)
    ensures
        r == consume_churn(earliest, to_consume, floor, per_epoch, balance),
{
    let start = if earliest >= floor {
        earliest
    } else {
        floor
    };
    let available = if earliest < start {
        per_epoch
    } else {
        to_consume
    };
    if balance > available {
        if per_epoch == 0 {
            return Err(BlockProcessingError::ArithError(ArithError::DivisionByZero));
        }
        let to_process = balance - available;
        proof {
            lemma_extra_covers(to_process as int, per_epoch as int);
        }
        let extra = (to_process - 1) / per_epoch + 1;
        if start > u64::MAX - extra {
            return Err(BlockProcessingError::ArithError(ArithError::Overflow));
        }
        let start2 = start + extra;
        let more = extra.checked_mul(per_epoch);
        match more {
            None => Err(BlockProcessingError::ArithError(ArithError::Overflow)),
            Some(m) => {
                if available > u64::MAX - m {
                    return Err(BlockProcessingError::ArithError(ArithError::Overflow));
                }
                let total = available + m;
                Ok((total - balance, start2))
            },
        }
    } else {
        Ok((available - balance, start))
    }
}

impl BeaconState {
    pub fn get_balance_churn_limit(&self, c: &ChainSpec) -> (r: Result<u64, BlockProcessingError>)
        requires
            c.valid(),
        ensures
            r == balance_churn_limit(self@, *c),
    {
        let t = self.get_total_active_balance(c)?;
        let share = t / c.churn_limit_quotient;
        let churn = if c.min_per_epoch_churn_limit_electra >= share {
            c.min_per_epoch_churn_limit_electra
        } else {
            share
        };
        let inc = c.effective_balance_increment;
        assert(churn % inc <= churn) by (nonlinear_arith)
            requires
                inc > 0,
        ;
        Ok(churn - churn % inc)
    }

    pub fn get_activation_exit_churn_limit(&self, c: &ChainSpec) -> (r: Result<u64, BlockProcessingError>)
        requires
            c.valid(),
        ensures
            r == activation_exit_churn_limit(self@, *c),
    {
        let b = self.get_balance_churn_limit(c)?;
        if c.max_per_epoch_activation_exit_churn_limit <= b {
            Ok(c.max_per_epoch_activation_exit_churn_limit)
        } else {
            Ok(b)
        }
    }

    pub fn get_consolidation_churn_limit(&self, c: &ChainSpec) -> (r: Result<u64, BlockProcessingError>)
        requires
            c.valid(),
        ensures
            r == consolidation_churn_limit(self@, *c),
    {
        let b = self.get_balance_churn_limit(c)?;
        let a = self.get_activation_exit_churn_limit(c)?;
        Ok(b - a)
    }

    pub fn compute_activation_exit_epoch(epoch: u64, c: &ChainSpec) -> (r: Result<u64, BlockProcessingError>)
        ensures
            r == activation_exit_epoch(epoch, *c),
    {
        if epoch == u64::MAX || epoch + 1 > u64::MAX - c.max_seed_lookahead {
            return Err(BlockProcessingError::ArithError(ArithError::Overflow));
        }
        Ok(epoch + 1 + c.max_seed_lookahead)
    }

    pub fn compute_exit_epoch_and_update_churn(&mut self, exit_balance: u64, c: &ChainSpec) -> (r: Result<u64, BlockProcessingError>)
        requires
            c.valid(),
        ensures
            outcome_matches_with(r, final(self)@, compute_exit_epoch_and_update_churn(old(self)@, exit_balance, *c)),
            r is Err ==> final(self)@ == old(self)@,
    {
        if !self.fork_name.electra_enabled() {
            return Err(BlockProcessingError::IncorrectStateVariant);
        }
        let floor = Self::compute_activation_exit_epoch(self.current_epoch(c), c)?;
        let per = self.get_activation_exit_churn_limit(c)?;
        let (left, epoch) = consume_churn_exec(
            self.earliest_exit_epoch,
            self.exit_balance_to_consume,
            floor,
            per,
            exit_balance,
        )?;
        self.exit_balance_to_consume = left;
        self.earliest_exit_epoch = epoch;
        Ok(epoch)
    }

    pub fn compute_consolidation_epoch_and_update_churn(&mut self, balance: u64, c: &ChainSpec) -> (r: Result<u64, BlockProcessingError>)
        requires
            c.valid(),
        ensures
            outcome_matches_with(r, final(self)@, compute_consolidation_epoch_and_update_churn(old(self)@, balance, *c)),
            r is Err ==> final(self)@ == old(self)@,
    {
        if !self.fork_name.electra_enabled() {
            return Err(BlockProcessingError::IncorrectStateVariant);
        }
        let floor = Self::compute_activation_exit_epoch(self.current_epoch(c), c)?;
        let per = self.get_consolidation_churn_limit(c)?;
        let (left, epoch) = consume_churn_exec(
            self.earliest_consolidation_epoch,
            self.consolidation_balance_to_consume,
            floor,
            per,
            balance,
        )?;
        self.consolidation_balance_to_consume = left;
        self.earliest_consolidation_epoch = epoch;
        Ok(epoch)
    }
}

} // verus!
