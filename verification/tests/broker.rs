use cw_nibiru::broker_bank::{
    edit_opers, query_perms_status, toggle_halt, withdraw, withdraw_all, Action, BrokerState, ContractError, Permissions,
};
use cw_nibiru::common::{AttrValue, Coin, CosmosMsg, StringSet};
use cw_nibiru::core_compounder::{stake, unstake, StakeMsg, UnstakeMsg};
use cw_nibiru::ownable::assert_owner;

const TEST_OWNER: &str = "owner";

fn set_of(names: &[&str]) -> StringSet {
    StringSet::from_vec(names.iter().map(|s| s.to_string()).collect())
}

fn coin(amount: u128, denom: &str) -> Coin {
    Coin { denom: denom.to_string(), amount }
}

fn setup_contract(to_addrs: &[&str], opers: &[&str]) -> BrokerState {
    BrokerState {
        perms: Permissions { owner: Some(TEST_OWNER.to_string()), operators: set_of(opers) },
        to_addrs: set_of(to_addrs),
        is_halted: false,
    }
}

fn setup_default() -> BrokerState {
    setup_contract(&["mm_kucoin", "mm_bybit"], &["valid_oper"])
}

fn assert_owner_gated() {
    let want = "not the contract's current owner";
    let not_owner = "not-owner";
    let mut state = setup_default();
    let e = edit_opers(&mut state, not_owner, Action::AddOper { address: "new_oper".to_string() }, Ok("new_oper".to_string()), 1);
    assert!(e.err().unwrap().message().contains(want));
    let e = assert_owner(&state.perms.owner, not_owner);
    assert!(e.err().unwrap().message().contains(want));
    let e = withdraw(&state, not_owner, Some("mm_bybit".to_string()), &set_of(&[]), &vec![], 1);
    assert!(e.err().unwrap().message().contains(want));
    let e = toggle_halt(&mut state, not_owner);
    assert!(e.err().unwrap().message().contains(want));
    let e = withdraw_all(&state, not_owner, Some("mm_bybit".to_string()), vec![], 1);
    assert!(e.err().unwrap().message().contains(want));
}

#[test]
fn contract_test_assert_owner() {
    assert_owner_gated();
}

#[test]
fn testing_test_assert_owner() {
    assert_owner_gated();
}

fn sent(msgs: &Vec<CosmosMsg>) -> Vec<(String, Vec<(String, u128)>)> {
    msgs.iter()
        .map(|m| match m {
            CosmosMsg::BankSend { to_address, amount } => {
                (to_address.clone(), amount.iter().map(|c| (c.denom.clone(), c.amount)).collect())
            },
            _ => panic!("expected a bank send"),
        })
        .collect()
}

#[test]
fn contract_exec_withdraw() {
    let state = setup_default();
    let (resp, _) = withdraw_all(&state, TEST_OWNER, Some("mm_bybit".to_string()), vec![], 1).unwrap();
    assert_eq!(sent(&resp.messages), vec![("mm_bybit".to_string(), vec![])]);
}

#[test]
fn testing_exec_withdraw() {
    let state = setup_default();
    let (resp, _) = withdraw_all(&state, TEST_OWNER, Some("mm_bybit".to_string()), vec![], 1).unwrap();
    assert_eq!(sent(&resp.messages), vec![("mm_bybit".to_string(), vec![])]);
    let (resp, _) = withdraw_all(&state, TEST_OWNER, Some("to_addr".to_string()), vec![coin(420, "unibi")], 1).unwrap();
    assert_eq!(sent(&resp.messages), vec![("to_addr".to_string(), vec![("unibi".to_string(), 420)])]);
    let (resp, _) = withdraw(
        &state,
        TEST_OWNER,
        Some("to_addr".to_string()),
        &set_of(&["uusd"]),
        &vec![coin(420, "unibi"), coin(69, "uusd")],
        1,
    )
    .unwrap();
    assert_eq!(sent(&resp.messages), vec![("to_addr".to_string(), vec![("uusd".to_string(), 69)])]);
}

#[test]
fn exec_toggle_halt() {
    let mut state = setup_contract(&[], &["oper0", "oper1"]);
    let status = query_perms_status(&state);
    assert!(!status.is_halted);
    assert_eq!(status.perms.owner, Some(TEST_OWNER.to_string()));
    let mut opers = status.perms.operators.to_vec();
    opers.sort();
    assert_eq!(opers, vec!["oper0".to_string(), "oper1".to_string()]);
    assert!(toggle_halt(&mut state, "not_owner").is_err());
    assert!(!query_perms_status(&state).is_halted);
    toggle_halt(&mut state, TEST_OWNER).unwrap();
    assert!(query_perms_status(&state).is_halted);
    toggle_halt(&mut state, TEST_OWNER).unwrap();
    assert!(!query_perms_status(&state).is_halted);
}

#[test]
fn exec_edit_opers_add() {
    let mut state = setup_contract(&[], &["oper0", "oper1"]);
    let new_member = "new_member";
    assert!(!state.perms.is_owner(new_member));
    let (resp, log) =
        edit_opers(&mut state, TEST_OWNER, Action::AddOper { address: new_member.to_string() }, Ok(new_member.to_string()), 7)
            .unwrap();
    assert_eq!(resp.messages.len(), 0);
    assert_eq!(resp.attributes.len(), 2);
    // The change of operators is logged.
    assert_eq!(log.block_height, 7);
    assert_eq!(log.sender_addr, TEST_OWNER);
    assert_eq!(log.event.ty, "broker_bank/edit_opers");
    assert!(matches!(&log.event.attributes[1].value, AttrValue::Text(t) if t == new_member));
    assert!(state.perms.has(new_member));
    assert!(query_perms_status(&state).perms.has(TEST_OWNER));
}

#[test]
fn exec_edit_opers_remove() {
    let mut state = setup_contract(&[], &[]);
    assert_eq!(state.perms.operators.len(), 0);
    for m in ["vitalik", "musk", "satoshi"] {
        state.perms.operators.insert(m.to_string());
    }
    let (resp, log) =
        edit_opers(&mut state, TEST_OWNER, Action::RemoveOper { address: "satoshi".to_string() }, Ok("satoshi".to_string()), 8)
            .unwrap();
    assert!(matches!(&log.event.attributes[0].value, AttrValue::Text(t) if t == "remove_operator"));
    assert_eq!(resp.messages.len(), 0);
    assert_eq!(resp.attributes.len(), 2);
    let mut opers = query_perms_status(&state).perms.operators.to_vec();
    opers.sort();
    assert_eq!(opers, vec!["musk".to_string(), "vitalik".to_string()]);
}

fn delegations(msgs: &Vec<CosmosMsg>) -> Vec<(String, u128, String)> {
    msgs.iter()
        .map(|m| match m {
            CosmosMsg::Delegate { validator, amount } => (validator.clone(), amount.amount, amount.denom.clone()),
            CosmosMsg::Undelegate { validator, amount } => (validator.clone(), amount.amount, amount.denom.clone()),
            _ => panic!("expected a staking message"),
        })
        .collect()
}

fn stake_msg(share: u128, validator: &str) -> StakeMsg {
    StakeMsg { share, validator: validator.to_string() }
}

fn unstake_msg(amount: u128, validator: &str) -> UnstakeMsg {
    UnstakeMsg { amount, validator: validator.to_string() }
}

#[test]
fn exec_stake_halted() {
    let mut state = setup_default();
    state.is_halted = false;
    let resp = stake(&state, "valid_oper", vec![stake_msg(100, "mm_bybit")], 50).unwrap();
    assert_eq!(delegations(&resp.messages), vec![("mm_bybit".to_string(), 50, "unibi".to_string())]);
    state.is_halted = true;
    let res = stake(&state, "valid_oper", vec![stake_msg(100, "mm_bybit")], 50);
    assert!(matches!(res, Err(ContractError::OperationsHalted)));
}

#[test]
fn exec_stake() {
    let state = setup_default();
    let resp = stake(&state, "valid_oper", vec![stake_msg(100, "mm_bybit")], 50).unwrap();
    assert_eq!(delegations(&resp.messages), vec![("mm_bybit".to_string(), 50, "unibi".to_string())]);
    let resp = stake(&state, "valid_oper", vec![stake_msg(100, "mm_bybit"), stake_msg(100, "mm_kucoin")], 50).unwrap();
    assert_eq!(delegations(&resp.messages), vec![
        ("mm_bybit".to_string(), 25, "unibi".to_string()),
        ("mm_kucoin".to_string(), 25, "unibi".to_string())
    ]);
    let resp = stake(&state, "valid_oper", vec![stake_msg(100, "mm_bybit"), stake_msg(150, "mm_kucoin")], 50).unwrap();
    assert_eq!(delegations(&resp.messages), vec![
        ("mm_bybit".to_string(), 20, "unibi".to_string()),
        ("mm_kucoin".to_string(), 30, "unibi".to_string())
    ]);
    let err = stake(&state, "invalid_oper", vec![stake_msg(100, "mm_bybit")], 50).err().unwrap();
    assert!(err.message().contains("insufficient permissions: address is not a contract operator"));
    let err = stake(&state, "valid_oper", vec![], 50).err().unwrap();
    assert!(err.message().contains("total shares cannot be zero"));
}

#[test]
fn exec_unstake() {
    let state = setup_default();
    let resp = unstake(&state, "owner", vec![unstake_msg(100, "mm_bybit")]).unwrap();
    assert_eq!(delegations(&resp.messages), vec![("mm_bybit".to_string(), 100, "unibi".to_string())]);
    let resp = unstake(&state, "owner", vec![
        unstake_msg(100, "mm_bybit"),
        unstake_msg(20, "mm_kucoin"),
        unstake_msg(0, "mm_binance"),
    ])
    .unwrap();
    assert_eq!(delegations(&resp.messages), vec![
        ("mm_bybit".to_string(), 100, "unibi".to_string()),
        ("mm_kucoin".to_string(), 20, "unibi".to_string())
    ]);
    let err = unstake(&state, "valid_oper", vec![unstake_msg(100, "mm_bybit")]).err().unwrap();
    assert!(err.message().contains("Caller is not the contract's current owner"));
    let err = unstake(&state, "invalid_oper", vec![unstake_msg(100, "mm_bybit")]).err().unwrap();
    assert!(err.message().contains("Caller is not the contract's current owner"));
}
