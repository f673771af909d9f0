use cw_nibiru::airdrop::RewardUserRequest;
use cw_nibiru::common::{denom_copy, AttrValue, Coin, CosmosMsg, Denom};
use cw_nibiru::token_vesting::{
    claim, create_campaign, deactivate_campaign, denom_to_key, deregister_vesting_account, receive_cw20,
    register_funded_vesting_account, reward_users, vesting_account, withdraw, Cw20HookMsg, TokenVestingError,
    TokenVestingState, VestingSchedule,
};
use cw_nibiru::vesting::{MathError, VestingError};

fn coin(amount: u128, denom: &str) -> Coin {
    Coin { denom: denom.to_string(), amount }
}

fn linear(start: u64, end: u64, amount: u128) -> VestingSchedule {
    VestingSchedule::LinearVesting { start_time: start, end_time: end, vesting_amount: amount }
}

fn new_campaign(state: &mut TokenVestingState, id: &str, owner: &str, amount: u128, managers: &[&str]) {
    create_campaign(
        state,
        owner,
        &vec![coin(amount, "token")],
        id.to_string(),
        "Test Campaign".to_string(),
        "A campaign for testing".to_string(),
        managers.iter().map(|s| s.to_string()).collect(),
    )
    .unwrap();
}

fn request(user: &str, amount: u128) -> RewardUserRequest {
    RewardUserRequest { user_address: user.to_string(), amount }
}

#[test]
fn execute_create_campaign_valid() {
    let mut state = TokenVestingState::new();
    let res = create_campaign(
        &mut state,
        "creator",
        &vec![coin(5000, "token")],
        "campaign1".to_string(),
        "Test Campaign".to_string(),
        "A test campaign".to_string(),
        vec!["manager1".to_string(), "manager2".to_string()],
    )
    .unwrap();
    assert!(res.attributes.iter().any(|a| a.key == "method"
        && matches!(&a.value, AttrValue::Text(t) if t == "create_campaign")));
    assert!(state.campaigns.contains_key("campaign1"));
    let c = state.campaigns.get("campaign1").unwrap();
    assert_eq!(c.unallocated_amount, 5000);
    assert_eq!(c.owner, "creator");
    assert!(c.is_active);
}

#[test]
fn execute_create_campaign_duplicate_id() {
    let mut state = TokenVestingState::new();
    new_campaign(&mut state, "unique_campaign_id", "creator", 5000, &[]);
    let res = create_campaign(
        &mut state,
        "creator",
        &vec![coin(1000, "token")],
        "unique_campaign_id".to_string(),
        "Test Campaign".to_string(),
        "This is a test campaign".to_string(),
        vec![],
    );
    match res {
        Err(e) => assert!(e.message().contains("Campaign already exists")),
        Ok(_) => panic!("Expected 'Campaign already exists' error"),
    }
}

#[test]
fn execute_create_campaign_invalid_coin_count() {
    let mut state = TokenVestingState::new();
    let res = create_campaign(
        &mut state,
        "creator",
        &vec![],
        "campaign1".to_string(),
        "Test Campaign".to_string(),
        "A test campaign".to_string(),
        vec!["manager1".to_string(), "manager2".to_string()],
    );
    match res {
        Err(e) => assert!(e.message().contains("one denom sent required")),
        Ok(_) => panic!("Expected 'one denom sent required' error"),
    }
}

#[test]
fn execute_create_campaign_2_coins() {
    let mut state = TokenVestingState::new();
    let res = create_campaign(
        &mut state,
        "creator",
        &vec![coin(5000, "token"), coin(5000, "token")],
        "campaign2".to_string(),
        "Test Campaign".to_string(),
        "A test campaign".to_string(),
        vec!["manager1".to_string(), "manager2".to_string()],
    );
    match res {
        Err(e) => assert!(e.message().contains("one denom sent required")),
        Ok(_) => panic!("Expected 'one denom sent required' error"),
    }
}

#[test]
fn execute_reward_users_unactive_campaign() {
    let mut state = TokenVestingState::new();
    new_campaign(&mut state, "campaign1", "creator", 10000, &["manager1"]);
    deactivate_campaign(&mut state, "creator", "campaign1").unwrap();
    let res = reward_users(&mut state, "creator", "campaign1", vec![request("user1", 500), request("user2", 1500)]);
    match res {
        Err(e) => assert!(e.message().contains("Campaign is not active")),
        Ok(_) => panic!("Expected 'Campaign is not active' error"),
    }
}

#[test]
fn execute_reward_users_unauthorized() {
    let mut state = TokenVestingState::new();
    new_campaign(&mut state, "campaign1", "creator", 10000, &["manager1"]);
    let res = reward_users(&mut state, "unauthorized_user", "campaign1", vec![request("user1", 500), request("user2", 1500)]);
    match res {
        Err(e) => assert!(e.message().contains("Unauthorized")),
        Ok(_) => panic!("Expected 'Unauthorized' error"),
    }
}

#[test]
fn execute_reward_users_valid() {
    let mut state = TokenVestingState::new();
    new_campaign(&mut state, "campaign1", "creator", 10000, &["manager1"]);
    let (_, outcomes) =
        reward_users(&mut state, "creator", "campaign1", vec![request("user1", 500), request("user2", 1500)]).unwrap();
    assert_eq!(outcomes.len(), 2);
    assert!(outcomes.iter().all(|o| o.success));
    assert_eq!(*state.user_rewards.get("user1").unwrap(), 500, "User1 rewards do not match.");
    assert_eq!(*state.user_rewards.get("user2").unwrap(), 1500, "User2 rewards do not match.");
    assert_eq!(
        state.campaigns.get("campaign1").unwrap().unallocated_amount,
        8000,
        "Campaign unallocated amount does not match expected."
    );
    reward_users(&mut state, "creator", "campaign1", vec![request("user1", 1000)]).unwrap();
    assert_eq!(*state.user_rewards.get("user1").unwrap(), 1500, "User1 rewards do not match.");
    // A manager may allocate too.
    reward_users(&mut state, "manager1", "campaign1", vec![request("user3", 1)]).unwrap();
    assert_eq!(state.campaigns.get("campaign1").unwrap().unallocated_amount, 6999);
}

#[test]
fn execute_reward_users_insufficient_funds() {
    let mut state = TokenVestingState::new();
    new_campaign(&mut state, "limited_fund_campaign", "creator", 500, &[]);
    let res = reward_users(&mut state, "creator", "limited_fund_campaign", vec![request("user1", 600)]);
    match res {
        Err(e) => assert!(e.message().contains("Insufficient funds for all rewards")),
        Ok(_) => panic!("Expected 'Insufficient funds for all rewards' error"),
    }
    assert_eq!(state.campaigns.get("limited_fund_campaign").unwrap().unallocated_amount, 500);
    assert!(state.user_rewards.get("user1").is_none());
}

#[test]
fn execute_claim_no_vesting_account() {
    let mut state = TokenVestingState::new();
    let res = claim(&mut state, "user1", 0, &vec![Denom::Native("token".to_string())], Some("recipient".to_string()));
    match res {
        Err(e) => {
            assert!(e.message().contains("vesting entry is not found for denom"));
            assert!(matches!(e, TokenVestingError::AccountNotFound(Denom::Native(d)) if d == "token"));
        },
        Ok(_) => panic!("Expected error"),
    }
}

#[test]
fn execute_withdraw_valid() {
    let mut state = TokenVestingState::new();
    new_campaign(&mut state, "campaign1", "owner", 1000, &["manager1"]);
    let res = withdraw(&mut state, "owner", 500, "campaign1", 1000).unwrap();
    assert_eq!(
        state.campaigns.get("campaign1").unwrap().unallocated_amount,
        500,
        "Campaign unallocated amount not updated correctly"
    );
    match &res.messages[0] {
        CosmosMsg::BankSend { to_address, amount } => {
            assert_eq!(to_address, "owner");
            assert_eq!(amount[0].amount, 500);
            assert_eq!(amount[0].denom, "token");
        },
        _ => panic!("expected a bank send"),
    }
    // The reply reports the unallocated funds before the withdrawal.
    assert!(matches!(res.attributes[1].value, AttrValue::Amount(1000)));
    // Withdrawing more than is unallocated empties the campaign.
    withdraw(&mut state, "owner", 700, "campaign1", 700).unwrap();
    assert_eq!(state.campaigns.get("campaign1").unwrap().unallocated_amount, 0);
}

#[test]
fn execute_withdraw_unauthorized() {
    let mut state = TokenVestingState::new();
    new_campaign(&mut state, "campaign1", "owner", 1000, &["owner"]);
    let res = withdraw(&mut state, "unauthorized_user", 500, "campaign1", 1000);
    match res {
        Err(e) => assert!(e.message().contains("Only contract owner can withdraw")),
        Ok(_) => panic!("Expected unauthorized withdraw attempt to fail"),
    }
}

#[test]
fn execute_deactivate_campaign_authorized() {
    let mut state = TokenVestingState::new();
    new_campaign(&mut state, "campaign2", "owner", 1000, &["owner"]);
    let res = deactivate_campaign(&mut state, "owner", "campaign2").unwrap();
    assert!(!state.campaigns.get("campaign2").unwrap().is_active, "Campaign should be deactivated");
    // All unallocated funds go back to the owner, replied as a withdrawal.
    assert_eq!(state.campaigns.get("campaign2").unwrap().unallocated_amount, 0);
    assert_eq!(res.attributes[0].key, "withdraw");
    assert!(matches!(res.attributes[0].value, AttrValue::Amount(1000)));
    assert_eq!(res.attributes[1].key, "campaign_unallocated_amount");
    match &res.messages[0] {
        CosmosMsg::BankSend { to_address, amount } => {
            assert_eq!(to_address, "owner");
            assert_eq!(amount[0].amount, 1000);
            assert_eq!(amount[0].denom, "token");
        },
        _ => panic!("expected a bank send"),
    }
}

#[test]
fn execute_deactivate_campaign_unauthorized() {
    let mut state = TokenVestingState::new();
    new_campaign(&mut state, "campaign3", "owner", 1000, &["owner"]);
    let res = deactivate_campaign(&mut state, "unauthorized_user", "campaign3");
    match res {
        Err(e) => assert!(e.message().contains("Unauthorized")),
        Ok(_) => panic!("Expected unauthorized deactivation attempt to fail"),
    }
    assert!(state.campaigns.get("campaign3").unwrap().is_active);
}

#[test]
fn deactivate_by_manager_pays_the_owner() {
    let mut state = TokenVestingState::new();
    new_campaign(&mut state, "c", "owner", 1000, &["manager1"]);
    let res = deactivate_campaign(&mut state, "manager1", "c").unwrap();
    assert_eq!(res.messages.len(), 1);
    match &res.messages[0] {
        CosmosMsg::BankSend { to_address, amount } => {
            assert_eq!(to_address, "owner");
            assert_eq!(amount[0].amount, 1000);
        },
        _ => panic!("expected a bank send"),
    }
    assert!(!state.campaigns.get("c").unwrap().is_active);
    assert_eq!(state.campaigns.get("c").unwrap().unallocated_amount, 0);
    // Deactivating again changes nothing.
    let res = deactivate_campaign(&mut state, "owner", "c").unwrap();
    assert_eq!(res.messages.len(), 0);
}

#[test]
fn withdraw_beyond_contract_balance_is_refused() {
    let mut state = TokenVestingState::new();
    new_campaign(&mut state, "c", "owner", 1000, &[]);
    let res = withdraw(&mut state, "owner", 600, "c", 500);
    assert!(matches!(res, Err(TokenVestingError::NotEnoughContractFunds)));
    assert_eq!(state.campaigns.get("c").unwrap().unallocated_amount, 1000);
    let res = withdraw(&mut state, "owner", 500, "c", 500).unwrap();
    assert_eq!(res.messages.len(), 1);
    assert_eq!(state.campaigns.get("c").unwrap().unallocated_amount, 500);
}

fn register(state: &mut TokenVestingState, block_time: u64) {
    register_funded_vesting_account(
        state,
        block_time,
        &vec![coin(1000000, "token")],
        Some("addr0002".to_string()),
        "addr0001".to_string(),
        linear(100, 110, 1000000),
    )
    .unwrap();
}

#[test]
fn deregister_err_nonexistent_vesting_account() {
    let mut state = TokenVestingState::new();
    let res = deregister_vesting_account(
        &mut state,
        "admin-sender",
        1571797419,
        "nonexistent",
        &Denom::Native("token".to_string()),
        None,
        None,
    );
    match res {
        Ok(_) => panic!("Unexpected result"),
        Err(e) => assert!(e.message().contains("vesting entry is not found for denom")),
    }
}

#[test]
fn deregister_err_unauthorized_vesting_account() {
    let mut state = TokenVestingState::new();
    register(&mut state, 50);
    let res = deregister_vesting_account(&mut state, "addr0003", 50, "addr0001", &Denom::Native("token".to_string()), None, None);
    match res {
        Err(e) => assert_eq!(e.message(), "unauthorized"),
        Ok(_) => panic!("Unexpected result"),
    }
}

#[test]
fn deregister_successful() {
    let mut state = TokenVestingState::new();
    register(&mut state, 50);
    let res =
        deregister_vesting_account(&mut state, "addr0002", 50, "addr0001", &Denom::Native("token".to_string()), None, None)
            .unwrap();
    // Nothing has vested: everything goes back to the master.
    assert_eq!(res.messages.len(), 1);
    match &res.messages[0] {
        CosmosMsg::BankSend { to_address, amount } => {
            assert_eq!(to_address, "addr0002");
            assert_eq!(amount[0].amount, 1000000);
        },
        _ => panic!("expected a bank send"),
    }
    let again = deregister_vesting_account(&mut state, "addr0002", 50, "addr0001", &Denom::Native("token".to_string()), None, None);
    assert!(matches!(again, Err(TokenVestingError::AccountNotFound(_))));
}

#[test]
fn deregister_midway_splits_vested_and_left() {
    let mut state = TokenVestingState::new();
    register(&mut state, 50);
    let res = deregister_vesting_account(
        &mut state,
        "addr0002",
        105,
        "addr0001",
        &Denom::Native("token".to_string()),
        Some("vested-to".to_string()),
        None,
    )
    .unwrap();
    assert_eq!(res.messages.len(), 2);
    match (&res.messages[0], &res.messages[1]) {
        (CosmosMsg::BankSend { to_address: a, amount: x }, CosmosMsg::BankSend { to_address: b, amount: y }) => {
            assert_eq!(a, "vested-to");
            assert_eq!(x[0].amount, 500000);
            assert_eq!(b, "addr0002");
            assert_eq!(y[0].amount, 500000);
        },
        _ => panic!("expected two bank sends"),
    }
}

#[test]
fn register_refusals() {
    let mut state = TokenVestingState::new();
    let two = register_funded_vesting_account(
        &mut state,
        50,
        &vec![coin(1, "a"), coin(1, "b")],
        None,
        "addr".to_string(),
        linear(100, 110, 1),
    );
    assert!(matches!(two, Err(TokenVestingError::OneDepositCoin)));
    let mismatch = register_funded_vesting_account(&mut state, 50, &vec![coin(5, "a")], None, "addr".to_string(), linear(100, 110, 6));
    assert!(matches!(
        mismatch,
        Err(TokenVestingError::Vesting(VestingError::MismatchedVestingAndDepositAmount { vesting_amount: 6, deposit_amount: 5 }))
    ));
    let zero = register_funded_vesting_account(&mut state, 50, &vec![coin(0, "a")], None, "addr".to_string(), linear(100, 110, 0));
    assert!(matches!(zero, Err(TokenVestingError::Vesting(VestingError::ZeroVestingAmount))));
    let range = register_funded_vesting_account(&mut state, 50, &vec![coin(5, "a")], None, "addr".to_string(), linear(110, 110, 5));
    assert!(matches!(range, Err(TokenVestingError::Vesting(VestingError::InvalidTimeRange { start_time: 110, end_time: 110 }))));
    let cliff = VestingSchedule::LinearVestingWithCliff {
        start_time: 100,
        end_time: 110,
        vesting_amount: 5,
        cliff_amount: 6,
        cliff_time: 105,
    };
    let excessive = register_funded_vesting_account(&mut state, 50, &vec![coin(5, "a")], None, "addr".to_string(), cliff);
    assert!(matches!(excessive, Err(TokenVestingError::Vesting(VestingError::Cliff(_)))));
    register_funded_vesting_account(&mut state, 50, &vec![coin(5, "a")], None, "addr".to_string(), linear(100, 110, 5)).unwrap();
    let dup = register_funded_vesting_account(&mut state, 50, &vec![coin(5, "a")], None, "addr".to_string(), linear(100, 110, 5));
    assert!(matches!(dup, Err(TokenVestingError::AccountExists)));
}

#[test]
fn claim_pays_what_vested_once() {
    let mut state = TokenVestingState::new();
    register(&mut state, 50);
    let token = Denom::Native("token".to_string());
    let res = claim(&mut state, "addr0001", 103, &vec![denom_copy(&token)], None).unwrap();
    assert_eq!(res.messages.len(), 1);
    match &res.messages[0] {
        CosmosMsg::BankSend { to_address, amount } => {
            assert_eq!(to_address, "addr0001");
            assert_eq!(amount[0].amount, 300000);
        },
        _ => panic!("expected a bank send"),
    }
    assert_eq!(res.attributes.len(), 6);
    assert!(matches!(res.attributes[5].value, AttrValue::Amount(300000)));
    // Claiming again at the same time pays nothing.
    let res = claim(&mut state, "addr0001", 103, &vec![denom_copy(&token)], None).unwrap();
    assert_eq!(res.messages.len(), 0);
    // Once all has vested the account is paid the rest and removed.
    let res = claim(&mut state, "addr0001", 200, &vec![denom_copy(&token)], Some("elsewhere".to_string())).unwrap();
    match &res.messages[0] {
        CosmosMsg::BankSend { to_address, amount } => {
            assert_eq!(to_address, "elsewhere");
            assert_eq!(amount[0].amount, 700000);
        },
        _ => panic!("expected a bank send"),
    }
    let res = claim(&mut state, "addr0001", 200, &vec![token], None);
    assert!(matches!(res, Err(TokenVestingError::AccountNotFound(_))));
}

#[test]
fn claim_refused_as_a_whole() {
    let mut state = TokenVestingState::new();
    register(&mut state, 50);
    let res = claim(
        &mut state,
        "addr0001",
        105,
        &vec![Denom::Native("token".to_string()), Denom::Native("other".to_string())],
        None,
    );
    assert!(matches!(res, Err(TokenVestingError::AccountNotFound(Denom::Native(d))) if d == "other"));
    // The first claim was undone: the whole half is still claimable.
    let res = claim(&mut state, "addr0001", 105, &vec![Denom::Native("token".to_string())], None).unwrap();
    match &res.messages[0] {
        CosmosMsg::BankSend { amount, .. } => assert_eq!(amount[0].amount, 500000),
        _ => panic!("expected a bank send"),
    }
}

#[test]
fn cw20_deposit_and_query_in_key_order() {
    let mut state = TokenVestingState::new();
    let hook = Cw20HookMsg::RegisterVestingAccount {
        master_address: None,
        address: "addr".to_string(),
        vesting_schedule: linear(100, 110, 100),
    };
    let res = receive_cw20(&mut state, 50, "cw20contract".to_string(), 100, Some(hook)).unwrap();
    assert!(matches!(&res.attributes[3].value, AttrValue::DenomJson(Denom::Cw20(c)) if c == "cw20contract"));
    assert!(matches!(receive_cw20(&mut state, 50, "x".to_string(), 1, None), Err(TokenVestingError::InvalidHook)));
    register_funded_vesting_account(&mut state, 50, &vec![coin(10, "zeta")], None, "addr".to_string(), linear(100, 110, 10))
        .unwrap();
    register_funded_vesting_account(&mut state, 50, &vec![coin(20, "alpha")], None, "addr".to_string(), linear(100, 110, 20))
        .unwrap();
    let resp = vesting_account(&state, 105, "addr".to_string(), None, None).unwrap();
    let keys: Vec<String> = resp.vestings.iter().map(|v| denom_to_key(&v.vesting_denom)).collect();
    assert_eq!(keys, vec!["cw20-cw20contract", "native-alpha", "native-zeta"]);
    assert_eq!(resp.vestings[1].vested_amount, 10);
    assert_eq!(resp.vestings[1].claimable_amount, 10);
    let resp = vesting_account(&state, 105, "addr".to_string(), Some(Denom::Native("alpha".to_string())), None).unwrap();
    assert_eq!(resp.vestings.len(), 1);
    assert_eq!(denom_to_key(&resp.vestings[0].vesting_denom), "native-zeta");
    let resp = vesting_account(&state, 105, "addr".to_string(), None, Some(2)).unwrap();
    assert_eq!(resp.vestings.len(), 2);
    let resp = vesting_account(&state, 105, "nobody".to_string(), None, None).unwrap();
    assert_eq!(resp.vestings.len(), 0);
}

#[test]
fn query_fails_only_for_accounts_it_returns() {
    let mut state = TokenVestingState::new();
    register_funded_vesting_account(&mut state, 0, &vec![coin(10, "alpha")], None, "addr".to_string(), linear(0, 100, 10))
        .unwrap();
    // Half way through, this amount times the elapsed time overflows.
    register_funded_vesting_account(
        &mut state,
        0,
        &vec![coin(u128::MAX, "beta")],
        None,
        "addr".to_string(),
        linear(0, 100, u128::MAX),
    )
    .unwrap();
    let resp = vesting_account(&state, 50, "addr".to_string(), None, Some(1)).unwrap();
    assert_eq!(resp.vestings.len(), 1);
    assert_eq!(resp.vestings[0].vested_amount, 5);
    assert!(matches!(
        vesting_account(&state, 50, "addr".to_string(), None, Some(2)),
        Err(TokenVestingError::Math(MathError::Overflow))
    ));
}

#[test]
fn schedule_vested_amounts() {
    let s = linear(100, 110, 1000);
    assert_eq!(s.vested_amount(100).ok(), Some(0));
    assert_eq!(s.vested_amount(101).ok(), Some(100));
    assert_eq!(s.vested_amount(110).ok(), Some(1000));
    let c = VestingSchedule::LinearVestingWithCliff {
        start_time: 100,
        end_time: 110,
        vesting_amount: 1000,
        cliff_amount: 100,
        cliff_time: 105,
    };
    assert_eq!(c.vested_amount(104).ok(), Some(0));
    assert_eq!(c.vested_amount(105).ok(), Some(100));
    assert_eq!(c.vested_amount(107).ok(), Some(460));
    let big = linear(0, 10, u128::MAX);
    assert!(matches!(big.vested_amount(5), Err(MathError::Overflow)));
}
