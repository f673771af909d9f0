use cw_nibiru::airdrop::{
    check_migrate, claim, deactivate, migrate, instantiate, query_campaign, query_user_reward, reward_users, withdraw, AirdropError,
    AirdropState, InstantiateMsg, RewardUserRequest,
};
use cw_nibiru::common::{Coin, CosmosMsg, Response};

fn coins(amount: u128, denom: &str) -> Vec<Coin> {
    vec![Coin { denom: denom.to_string(), amount }]
}

fn setup(funds: u128, managers: &[&str]) -> AirdropState {
    let (state, _) = instantiate(
        "owner",
        &coins(funds, ""),
        "",
        InstantiateMsg {
            campaign_id: "campaign_id".to_string(),
            campaign_name: "campaign_name".to_string(),
            campaign_description: "campaign_description".to_string(),
            managers: managers.iter().map(|s| s.to_string()).collect(),
        },
    )
    .unwrap();
    state
}

fn single_send(resp: &Response) -> (String, u128, String) {
    assert_eq!(resp.messages.len(), 1);
    match &resp.messages[0] {
        CosmosMsg::BankSend { to_address, amount } => {
            assert_eq!(amount.len(), 1);
            (to_address.clone(), amount[0].amount, amount[0].denom.clone())
        },
        _ => panic!("expected a bank send"),
    }
}

#[test]
fn test_claim() {
    let mut state = setup(1000, &[]);
    reward_users(
        &mut state,
        "owner",
        vec![
            RewardUserRequest { user_address: "user1".to_string(), amount: 750 },
            RewardUserRequest { user_address: "user2".to_string(), amount: 250 },
        ],
    )
    .unwrap();
    let resp = claim(&mut state, "user1", "").unwrap();
    assert_eq!(single_send(&resp), ("user1".to_string(), 750, "".to_string()));
    assert!(!state.user_rewards.contains_key("user1"));
    let resp = claim(&mut state, "user2", "").unwrap();
    assert_eq!(single_send(&resp), ("user2".to_string(), 250, "".to_string()));
    assert!(!state.user_rewards.contains_key("user2"));
    let resp = claim(&mut state, "user3", "");
    assert_eq!(resp.err().unwrap().message(), "User pool does not exist");
}

#[test]
fn test_withdraw_ok() {
    let mut state = setup(1000, &["manager1", "manager2"]);
    let resp = withdraw(&mut state, "owner", 1000, 1000, "").unwrap();
    assert_eq!(single_send(&resp), ("owner".to_string(), 1000, "".to_string()));
    assert_eq!(query_campaign(&state).unallocated_amount, 0);
}

#[test]
fn test_withdraw_less_than_total_amount() {
    let mut state = setup(1500, &["manager1", "manager2"]);
    let resp = withdraw(&mut state, "owner", 500, 1000, "").unwrap();
    assert_eq!(single_send(&resp), ("owner".to_string(), 500, "".to_string()));
    assert_eq!(query_campaign(&state).unallocated_amount, 1000);
    let resp = deactivate(&mut state, "owner", 1000, "").unwrap();
    assert_eq!(single_send(&resp), ("owner".to_string(), 1000, "".to_string()));
    assert_eq!(query_campaign(&state).unallocated_amount, 0);
}

#[test]
fn test_withdraw_too_much() {
    let mut state = setup(1000, &["manager1", "manager2"]);
    let resp = withdraw(&mut state, "owner", 1001, 1000, "");
    assert_eq!(resp.err().unwrap().message(), "Not enough funds in the contract");
}

#[test]
fn test_withdraw_unauthorized() {
    let mut state = setup(1000, &["manager1", "manager2"]);
    let resp = withdraw(&mut state, "not_owner", 1000, 0, "");
    assert_eq!(resp.err().unwrap().message(), "Only contract owner can withdraw");
}

#[test]
fn test_query_campaign() {
    let state = setup(1000, &["manager1", "manager2"]);
    let campaign = query_campaign(&state);
    assert_eq!(campaign.campaign_name, "campaign_name");
    assert_eq!(campaign.campaign_description, "campaign_description");
    assert_eq!(campaign.owner, "owner");
    assert_eq!(campaign.managers, vec!["manager1".to_string(), "manager2".to_string()]);
    assert_eq!(campaign.unallocated_amount, 1000);
    assert!(campaign.is_active);
}

#[test]
fn test_query_user_pool() {
    let mut state = setup(1000, &[]);
    reward_users(&mut state, "owner", vec![RewardUserRequest { user_address: "user1".to_string(), amount: 999 }]).unwrap();
    assert_eq!(query_user_reward(&state, "user1").ok(), Some(999));
}

#[test]
fn test_query_user_pool_empty() {
    let state = setup(1000, &[]);
    let res = query_user_reward(&state, "user1");
    assert_eq!(res.err().unwrap().message(), "User reward does not exist");
}

#[test]
fn airdrop_refusals() {
    let msg = || InstantiateMsg {
        campaign_id: "c".to_string(),
        campaign_name: "n".to_string(),
        campaign_description: "d".to_string(),
        managers: vec![],
    };
    assert!(matches!(instantiate("owner", &vec![], "unibi", msg()), Err(AirdropError::OnlyOneCoin)));
    assert!(matches!(instantiate("owner", &coins(5, "other"), "unibi", msg()), Err(AirdropError::OnlyNativeTokens)));
    let mut state = setup(100, &["m"]);
    let too_much = reward_users(&mut state, "m", vec![RewardUserRequest { user_address: "u".to_string(), amount: 101 }]);
    assert!(matches!(too_much, Err(AirdropError::NotEnoughCampaignFunds)));
    let stranger = reward_users(&mut state, "x", vec![]);
    assert!(matches!(stranger, Err(AirdropError::Unauthorized)));
    // A manager may not deactivate, since deactivation withdraws.
    assert!(matches!(deactivate(&mut state, "m", 100, ""), Err(AirdropError::OnlyOwnerCanWithdraw)));
    deactivate(&mut state, "owner", 100, "").unwrap();
    assert!(matches!(claim(&mut state, "u", ""), Err(AirdropError::CampaignNotActive)));
    assert!(matches!(query_user_reward(&state, "u"), Err(AirdropError::CampaignNotActive)));
}

#[test]
fn migrate_only_to_a_newer_version_of_the_same_contract() {
    assert!(matches!(migrate("airdrop", "0.1.0", "airdrop", "0.2.0"), Some(Ok(_))));
    assert!(matches!(migrate("airdrop", "0.2.0", "airdrop", "0.2.0"), Some(Err(AirdropError::NewerVersion))));
    assert!(matches!(migrate("airdrop", "1.0.0", "airdrop", "0.2.0"), Some(Err(AirdropError::NewerVersion))));
    assert!(matches!(migrate("other", "0.1.0", "airdrop", "0.2.0"), Some(Err(AirdropError::WrongContractType))));
    assert!(matches!(migrate("airdrop", "0.1.0", "airdrop", "two"), Some(Err(AirdropError::InvalidVersionFormat))));
    assert!(migrate("airdrop", "one", "airdrop", "0.2.0").is_none());
    assert!(check_migrate("airdrop", "0.9.0", "airdrop", "0.10.0").is_ok());
    assert_eq!(AirdropError::WrongContractType.message(), "Can only upgrade from same contract type");
}
