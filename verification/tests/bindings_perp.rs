use cw_nibiru::bindings_perp::{execute, instantiate, ExecuteMsg, InitMsg, NibiruRoute, PerpMsg, PerpResponse, Sudoers};
use cw_nibiru::common::{Coin, CosmosMsg};

fn coin(amount: u128, denom: &str) -> Coin {
    Coin { denom: denom.to_string(), amount }
}

fn do_init(admin: &str, sender: &str) -> Sudoers {
    let (sudoers, resp) = instantiate(sender, InitMsg { admin: Some(admin.to_string()) });
    assert_eq!(resp.messages.len(), 0);
    assert_eq!(sudoers.admin, admin);
    sudoers
}

fn perp_msgs() -> Vec<ExecuteMsg> {
    let pair = "ETH:USD".to_string();
    vec![
        ExecuteMsg::MarketOrder {
            pair: pair.clone(),
            is_long: true,
            quote_amount: 420,
            leverage: 5_000_000_000_000_000_000,
            base_amount_limit: 0,
        },
        ExecuteMsg::ClosePosition { pair: pair.clone() },
        ExecuteMsg::AddMargin { pair: pair.clone(), margin: coin(420, "token") },
        ExecuteMsg::RemoveMargin { pair, margin: coin(420, "token") },
    ]
}

#[test]
fn contract_msg_init() {
    let (sudoers, resp) = instantiate("sender", InitMsg { admin: Some("admin".to_string()) });
    assert_eq!(resp.messages.len(), 0);
    assert_eq!(sudoers.admin, "admin");
}

#[test]
fn contract_msg_init_admin_as_sender() {
    let (sudoers, resp) = instantiate("sender", InitMsg { admin: None });
    assert_eq!(resp.messages.len(), 0);
    assert_eq!(sudoers.admin, "sender");
}

#[test]
fn execute_perp_msgs_happy() {
    let sudoers = do_init("admin", "admin");
    for msg in perp_msgs() {
        let resp = execute(&sudoers, "admin", &vec![], msg).unwrap();
        assert_eq!(resp.messages.len(), 1, "resp.messages: {:?}", resp.messages);
        match &resp.messages[0] {
            PerpMsg::Custom(m) => assert_eq!(m.route, NibiruRoute::Perp),
            _ => panic!("expected a custom message"),
        }
    }
}

#[test]
fn execute_perp_msgs_no_permission() {
    let sudoers = do_init("admin", "sender");
    for msg in perp_msgs() {
        let resp = execute(&sudoers, "sender", &vec![], msg);
        assert!(resp.is_err(), "resp.err: {:?}", resp.err());
    }
}

fn claim(sudoers: &Sudoers, funds: Option<Coin>, claim_all: Option<bool>, balances: &Vec<Coin>) -> Result<PerpResponse, String> {
    execute(sudoers, "recipient_address", balances, ExecuteMsg::Claim { funds, claim_all, to: "recipient_address".to_string() })
        .map_err(|e| e.message())
}

#[test]
fn execute_claim() {
    let sudoers = do_init("recipient_address", "recipient_address");
    let res = claim(&sudoers, Some(coin(50, "token")), None, &vec![coin(100, "token")]);
    assert!(res.is_ok());
    match &res.unwrap().messages[0] {
        PerpMsg::Std(CosmosMsg::BankSend { to_address, amount }) => {
            assert_eq!(to_address, "recipient_address");
            assert_eq!(amount[0].amount, 50);
        },
        _ => panic!("expected a bank send"),
    }
}

#[test]
fn execute_claim_with_no_args() {
    let sudoers = do_init("recipient_address", "recipient_address");
    let res = claim(&sudoers, None, None, &vec![coin(100, "token")]);
    assert!(res.is_err());
    assert!(res.err().unwrap().contains("arguments must be specified"));
}

#[test]
fn execute_claim_all() {
    let sudoers = do_init("recipient_address", "recipient_address");
    let balances = vec![coin(100, "token")];
    let resp = claim(&sudoers, None, Some(true), &balances).unwrap();
    assert_eq!(resp.messages.len(), 1);
    match &resp.messages[0] {
        PerpMsg::Std(CosmosMsg::BankSend { amount, .. }) => {
            assert_eq!(amount[0].denom, "token");
            assert_eq!(amount[0].amount, 100);
        },
        _ => panic!("expected a bank send"),
    }
}

#[test]
fn execute_claim_all_set_to_false() {
    let sudoers = do_init("recipient_address", "recipient_address");
    let res = claim(&sudoers, None, Some(false), &vec![]);
    assert!(res.is_err());
    assert!(res.err().unwrap().contains("false causes an error"));
}

#[test]
fn claim_only_by_admin_and_noop_by_anyone() {
    let sudoers = do_init("admin", "admin");
    let res = execute(&sudoers, "stranger", &vec![], ExecuteMsg::Claim { funds: Some(coin(1, "a")), claim_all: None, to: "x".to_string() });
    assert_eq!(res.err().unwrap().message(), "unauthorized : sender stranger is not an admin");
    let resp = execute(&sudoers, "stranger", &vec![], ExecuteMsg::NoOp {}).unwrap();
    match &resp.messages[0] {
        PerpMsg::Custom(m) => assert_eq!(m.route, NibiruRoute::NoOp),
        _ => panic!("expected a custom message"),
    }
}
