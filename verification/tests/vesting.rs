use cw_nibiru::common::StringSet;
use cw_nibiru::vesting::{
    from_vesting_to_query_output, Cliff, CliffError, ContractError, MathError, RewardUserRequest, VestingAccount,
    VestingError, VestingSchedule, VestingScheduleQueryOutput, Whitelist,
};

fn account(cliff_amount: u128, vesting_amount: u128) -> VestingAccount {
    VestingAccount {
        address: "addr0001".to_string(),
        start_time: 100,
        cliff_time: 105,
        end_time: 110,
        cliff_amount,
        vesting_amount,
        claimed_amount: 0,
    }
}

#[test]
fn vested_amount_with_cliff() {
    let a = account(500, 1000);
    assert_eq!(a.vested_amount(104).ok(), Some(0));
    assert_eq!(a.vested_amount(105).ok(), Some(500));
    assert_eq!(a.vested_amount(106).ok(), Some(600));
    assert_eq!(a.vested_amount(109).ok(), Some(900));
    assert_eq!(a.vested_amount(110).ok(), Some(1000));
    // More with time, never beyond the vesting amount.
    let mut last = 0;
    for t in 100..120 {
        let v = a.vested_amount(t).ok().unwrap();
        assert!(last <= v && v <= 1000);
        last = v;
    }
    let bad = account(2000, 1000);
    assert!(matches!(bad.vested_amount(107), Err(MathError::Overflow)));
}

#[test]
fn cliff_checks() {
    let c = Cliff { amount: 10, time: 105 };
    assert!(c.ok_time(105).is_ok());
    assert!(matches!(c.ok_time(106), Err(CliffError::InvalidTime { cliff_time: 105, block_time: 106 })));
    assert!(c.ok_amount(10).is_ok());
    assert!(matches!(c.ok_amount(9), Err(CliffError::ExcessiveAmount { cliff_amount: 10, vesting_amount: 9 })));
}

#[test]
fn schedule_validation_and_query_output() {
    let s = VestingSchedule::LinearVestingWithCliff { start_time: 100, end_time: 110, cliff_time: 105 };
    assert!(s.validate(100).is_ok());
    assert!(matches!(s.validate(106), Err(VestingError::Cliff(CliffError::InvalidTime { .. }))));
    let bad = VestingSchedule::LinearVestingWithCliff { start_time: 110, end_time: 100, cliff_time: 105 };
    assert!(matches!(bad.validate(100), Err(VestingError::InvalidTimeRange { start_time: 110, end_time: 100 })));
    let late_cliff = VestingSchedule::LinearVestingWithCliff { start_time: 100, end_time: 110, cliff_time: 120 };
    assert!(matches!(late_cliff.validate(100), Err(VestingError::Cliff(CliffError::AfterEnd { cliff_time: 120, end_time: 110 }))));
    let cliff_at_end = VestingSchedule::LinearVestingWithCliff { start_time: 100, end_time: 110, cliff_time: 110 };
    assert!(cliff_at_end.validate(100).is_err());
    let out = from_vesting_to_query_output(&s, 1000, 100);
    assert!(matches!(out, VestingScheduleQueryOutput::LinearVestingWithCliff {
        start_time: 100,
        end_time: 110,
        cliff_time: 105,
        vesting_amount: 1000,
        cliff_amount: 100
    }));
}

#[test]
fn reward_request_validation() {
    let ok = RewardUserRequest { user_address: "u".to_string(), vesting_amount: 10, cliff_amount: 10 };
    assert!(ok.validate().is_ok());
    let zero = RewardUserRequest { user_address: "u".to_string(), vesting_amount: 0, cliff_amount: 0 };
    assert!(matches!(zero.validate(), Err(ContractError::Vesting(VestingError::ZeroVestingAmount))));
    let over = RewardUserRequest { user_address: "u".to_string(), vesting_amount: 5, cliff_amount: 6 };
    assert!(matches!(over.validate(), Err(ContractError::Vesting(VestingError::Cliff(CliffError::ExcessiveAmount { .. })))));
}

#[test]
fn whitelist_roles() {
    let w = Whitelist { members: StringSet::from_vec(vec!["m1".to_string()]), admin: "admin".to_string() };
    assert!(w.is_admin("admin"));
    assert!(!w.is_admin("m1"));
    assert!(w.is_member("m1"));
    assert!(!w.is_member("admin"));
}
