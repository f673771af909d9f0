//! Linear vesting with a cliff: the schedule and account arithmetic of the
//! airdrop token vesting contract, and the checks of its requests.
use vstd::prelude::*;

use crate::common::{str_eq, StringSet};

verus! {

/// A vesting schedule; times are in seconds.
#[derive(Debug, PartialEq, Eq, Structural)]
pub enum VestingSchedule {
    LinearVestingWithCliff { start_time: u64, end_time: u64, cliff_time: u64 },
}

/// A vesting schedule as queried, with the amounts of the account.
#[derive(Debug, PartialEq, Eq, Structural)]
pub enum VestingScheduleQueryOutput {
    LinearVestingWithCliff {
        start_time: u64,
        end_time: u64,
        cliff_time: u64,
        vesting_amount: u128,
        cliff_amount: u128,
    },
}

/// The cliff of a schedule: an amount vested at once at a time.
#[derive(Debug)]
pub struct Cliff {
    pub amount: u128,
    pub time: u64,
}

/// Why a cliff is not valid.
#[derive(Debug, PartialEq, Eq, Structural)]
pub enum CliffError {
    InvalidTime { cliff_time: u64, block_time: u64 },
    ExcessiveAmount { cliff_amount: u128, vesting_amount: u128 },
    ZeroAmount,
    /// The cliff does not come before the end of the vesting.
    AfterEnd { cliff_time: u64, end_time: u64 },
}

/// Why a vesting is not valid.
#[derive(Debug, PartialEq, Eq, Structural)]
pub enum VestingError {
    ZeroVestingAmount,
    InvalidTimeRange { start_time: u64, end_time: u64 },
    MismatchedVestingAndDepositAmount { vesting_amount: u128, deposit_amount: u128 },
    Cliff(CliffError),
}

/// Why a vesting computation failed.
#[derive(Debug, PartialEq, Eq, Structural)]
pub enum MathError {
    /// A subtraction went below zero or a product beyond the largest amount.
    Overflow,
    /// A division by zero.
    DivideByZero,
}

/// Why a call of the vesting contract was refused.
#[derive(Debug, PartialEq, Eq, Structural)]
pub enum ContractError {
    Math(MathError),
    Vesting(VestingError),
}

/// A reward to vest for a user.
#[derive(Debug)]
pub struct RewardUserRequest {
    pub user_address: String,
    pub vesting_amount: u128,
    pub cliff_amount: u128,
}

/// The admin and the members of the vesting contract.
#[derive(Debug)]
pub struct Whitelist {
    pub members: StringSet,
    pub admin: String,
}

/// A user's vesting account; times are in seconds.
#[derive(Debug)]
pub struct VestingAccount {
    pub address: String,
    pub start_time: u64,
    pub cliff_time: u64,
    pub end_time: u64,
    pub cliff_amount: u128,
    pub vesting_amount: u128,
    pub claimed_amount: u128,
}

impl Whitelist {
    /// Whether `addr` is the admin.
    pub fn is_admin(&self, addr: &str) -> (r: bool)
        ensures
            r == (self.admin@ == addr@),
    {
        str_eq(self.admin.as_str(), addr)
    }

    /// Whether `addr` is a member.
    pub fn is_member(&self, addr: &str) -> (r: bool)
        ensures
            r == self.members@.contains(addr@),
    {
        self.members.contains(addr)
    }
}

/// The schedule as queried, with the given amounts.
pub fn from_vesting_to_query_output(vesting: &VestingSchedule, vesting_amount: u128, cliff_amount: u128) -> (r: VestingScheduleQueryOutput)
    ensures
        match *vesting {
            VestingSchedule::LinearVestingWithCliff { start_time, end_time, cliff_time } =>
                r == (VestingScheduleQueryOutput::LinearVestingWithCliff { start_time, end_time, cliff_time, vesting_amount, cliff_amount }),
        },
{
    match vesting {
        VestingSchedule::LinearVestingWithCliff { start_time, end_time, cliff_time } =>
            VestingScheduleQueryOutput::LinearVestingWithCliff {
                start_time: *start_time,
                end_time: *end_time,
                cliff_time: *cliff_time,
                vesting_amount,
                cliff_amount,
            },
    }
}

impl Cliff {
    /// The cliff must not lie before the block time.
    pub fn ok_time(&self, block_time: u64) -> (r: Result<(), CliffError>)
        ensures
            self.time >= block_time ==> r is Ok,
            self.time < block_time ==> r == Err::<(), CliffError>(CliffError::InvalidTime { cliff_time: self.time, block_time }),
    {
        if self.time < block_time {
            return Err(CliffError::InvalidTime { cliff_time: self.time, block_time });
        }
        Ok(())
    }

    /// The cliff must not vest more than the whole vesting amount.
    pub fn ok_amount(&self, vesting_amount: u128) -> (r: Result<(), CliffError>)
        ensures
            self.amount <= vesting_amount ==> r is Ok,
            self.amount > vesting_amount ==> r == Err::<(), CliffError>(CliffError::ExcessiveAmount { cliff_amount: self.amount, vesting_amount }),
    {
        if self.amount > vesting_amount {
            return Err(CliffError::ExcessiveAmount { cliff_amount: self.amount, vesting_amount });
        }
        Ok(())
    }
}

impl VestingSchedule {
    /// The end must come after the start, the cliff must come before the
    /// end, and the cliff must not lie before the block time; checked in
    /// this order.
    pub fn validate(&self, block_time: u64) -> (r: Result<(), VestingError>)
        ensures
            match *self {
                VestingSchedule::LinearVestingWithCliff { start_time, end_time, cliff_time } => {
                    &&& end_time <= start_time ==> r == Err::<(), VestingError>(VestingError::InvalidTimeRange { start_time, end_time })
                    &&& end_time > start_time && cliff_time >= end_time ==> r == Err::<(), VestingError>(
                        VestingError::Cliff(CliffError::AfterEnd { cliff_time, end_time }))
                    &&& end_time > start_time && cliff_time < end_time && cliff_time < block_time ==> r == Err::<(), VestingError>(
                        VestingError::Cliff(CliffError::InvalidTime { cliff_time, block_time }))
                    &&& r is Ok <==> (end_time > start_time && cliff_time < end_time && cliff_time >= block_time)
                },
            },
    {
        match self {
            VestingSchedule::LinearVestingWithCliff { start_time, end_time, cliff_time } => {
                if *end_time <= *start_time {
                    return Err(VestingError::InvalidTimeRange { start_time: *start_time, end_time: *end_time });
                }
                if *cliff_time >= *end_time {
                    return Err(VestingError::Cliff(CliffError::AfterEnd { cliff_time: *cliff_time, end_time: *end_time }));
                }
                let cliff = Cliff { amount: 0, time: *cliff_time };
                match cliff.ok_time(block_time) {
                    Err(e) => Err(VestingError::Cliff(e)),
                    Ok(()) => Ok(()),
                }
            },
        }
    }
}

impl RewardUserRequest {
    /// The vesting amount must not be zero, nor smaller than the cliff.
    pub fn validate(&self) -> (r: Result<(), ContractError>)
        ensures
            self.vesting_amount == 0 ==> r == Err::<(), ContractError>(ContractError::Vesting(VestingError::ZeroVestingAmount)),
            self.vesting_amount != 0 && self.cliff_amount > self.vesting_amount ==> r == Err::<(), ContractError>(
                ContractError::Vesting(VestingError::Cliff(CliffError::ExcessiveAmount {
                    cliff_amount: self.cliff_amount,
                    vesting_amount: self.vesting_amount,
                }))),
            r is Ok <==> (self.vesting_amount != 0 && self.cliff_amount <= self.vesting_amount),
    {
        if self.vesting_amount == 0 {
            return Err(ContractError::Vesting(VestingError::ZeroVestingAmount));
        }
        if self.cliff_amount > self.vesting_amount {
            return Err(ContractError::Vesting(VestingError::Cliff(CliffError::ExcessiveAmount {
                cliff_amount: self.cliff_amount,
                vesting_amount: self.vesting_amount,
            })));
        }
        Ok(())
    }
}

/// The amount of a linear vesting with a cliff that has vested at time `t`:
/// nothing before the cliff, the cliff amount at the cliff, everything from
/// the end on, and in between the cliff amount plus the rest in proportion
/// to the time elapsed since the cliff, rounded down. `None` when the
/// computation fails: a cliff amount above the vesting amount, or a product
/// beyond the largest amount, between the cliff and the end.
pub open spec fn vested_spec(vesting_amount: u128, cliff_amount: u128, cliff_time: u64, end_time: u64, t: u64) -> Option<int> {
    if t < cliff_time {
        Some(0)
    } else if t == cliff_time {
        Some(cliff_amount as int)
    } else if t >= end_time {
        Some(vesting_amount as int)
    } else if cliff_amount > vesting_amount {
        None
    } else if (vesting_amount - cliff_amount) * (t - cliff_time) > u128::MAX {
        None
    } else {
        Some((vesting_amount - cliff_amount) * (t - cliff_time) / (end_time - cliff_time) + cliff_amount)
    }
}

impl VestingAccount {
    /// The amount vested at `block_time` (seconds).
    pub fn vested_amount(&self, block_time: u64) -> (r: Result<u128, MathError>)
        ensures
            match vested_spec(self.vesting_amount, self.cliff_amount, self.cliff_time, self.end_time, block_time) {
                Some(v) => r == Ok::<u128, MathError>(v as u128) && v <= u128::MAX,
                None => r == Err::<u128, MathError>(MathError::Overflow),
            },
    {
        if block_time < self.cliff_time {
            return Ok(0);
        }
        if block_time == self.cliff_time {
            return Ok(self.cliff_amount);
        }
        if block_time >= self.end_time {
            return Ok(self.vesting_amount);
        }
        if self.cliff_amount > self.vesting_amount {
            return Err(MathError::Overflow);
        }
        let remaining: u128 = self.vesting_amount - self.cliff_amount;
        let elapsed: u128 = (block_time - self.cliff_time) as u128;
        let span: u128 = (self.end_time - self.cliff_time) as u128;
        match remaining.checked_mul(elapsed) {
            None => Err(MathError::Overflow),
            Some(prod) => {
                let vested: u128 = prod / span;
                proof {
                    lemma_part_le(remaining as int, elapsed as int, span as int);
                }
                Ok(vested + self.cliff_amount)
            },
        }
    }
}

pub(crate) proof fn lemma_part_le(rem: int, elapsed: int, span: int)
    requires
        rem >= 0,
        0 < elapsed < span,
    ensures
        0 <= rem * elapsed / span <= rem,
{
    assert(0 <= rem * elapsed / span <= rem) by (nonlinear_arith)
        requires
            rem >= 0,
            0 < elapsed < span,
    {
        assert(rem * elapsed <= rem * span);
        assert(rem * span / span == rem);
    }
}

pub(crate) proof fn lemma_part_monotone(rem: int, x1: int, x2: int, span: int)
    requires
        rem >= 0,
        0 <= x1 <= x2,
        span > 0,
    ensures
        rem * x1 / span <= rem * x2 / span,
{
    assert(rem * x1 / span <= rem * x2 / span) by (nonlinear_arith)
        requires
            rem >= 0,
            0 <= x1 <= x2,
            span > 0,
    {
        assert(rem * x1 <= rem * x2);
    }
}

/// Vesting only grows with time and never exceeds the vesting amount (for
/// a cliff no larger than the vesting amount, at times where it can be
/// computed).
pub proof fn law_vested_monotone(vesting_amount: u128, cliff_amount: u128, cliff_time: u64, end_time: u64, t1: u64, t2: u64)
    requires
        cliff_amount <= vesting_amount,
        t1 <= t2,
        vested_spec(vesting_amount, cliff_amount, cliff_time, end_time, t1) is Some,
        vested_spec(vesting_amount, cliff_amount, cliff_time, end_time, t2) is Some,
    ensures
        vested_spec(vesting_amount, cliff_amount, cliff_time, end_time, t1)->0
            <= vested_spec(vesting_amount, cliff_amount, cliff_time, end_time, t2)->0
            <= vesting_amount,
{
    let rem = vesting_amount - cliff_amount;
    if t1 > cliff_time && t1 < end_time {
        lemma_part_le(rem, t1 - cliff_time, end_time - cliff_time);
    }
    if t2 > cliff_time && t2 < end_time {
        lemma_part_le(rem, t2 - cliff_time, end_time - cliff_time);
        if t1 > cliff_time {
            lemma_part_monotone(rem, t1 - cliff_time, t2 - cliff_time, end_time - cliff_time);
        }
    }
}

} // verus!
