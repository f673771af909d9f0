use cw_nibiru::bindings_perp::{instantiate, InitMsg, Sudoers};
use cw_nibiru::common::{Coin, CosmosMsg};
use cw_nibiru::nibi_stargate_perp::{execute, ExecuteMsg, StargateMsg};

fn coin(amount: u128, denom: &str) -> Coin {
    Coin { denom: denom.to_string(), amount }
}

fn do_init(admin: &str, sender: &str) -> Sudoers {
    let (sudoers, resp) = instantiate(sender, InitMsg { admin: Some(admin.to_string()) });
    assert_eq!(resp.messages.len(), 0);
    assert_eq!(sudoers.admin, admin);
    sudoers
}

fn perp_msgs() -> Vec<ExecuteMsg> {
    let pair = "ETH:USD".to_string();
    vec![
        ExecuteMsg::MarketOrder {
            pair: pair.clone(),
            is_long: true,
            quote_amount: 420,
            leverage: 5_000_000_000_000_000_000,
            base_amount_limit: 0,
        },
        ExecuteMsg::ClosePosition { pair: pair.clone() },
        ExecuteMsg::AddMargin { pair: pair.clone(), margin: coin(420, "token") },
        ExecuteMsg::RemoveMargin { pair, margin: coin(420, "token") },
    ]
}

#[test]
fn exec_stargate() {
    let sudoers = do_init("admin", "admin");
    for msg in perp_msgs() {
        let resp = execute(&sudoers, "admin", "contract".to_string(), &vec![], msg).unwrap();
        assert_eq!(resp.messages.len(), 1, "resp.messages: {:?}", resp.messages);
        assert!(matches!(resp.messages[0], StargateMsg::Perp(_)));
    }
    for msg in perp_msgs() {
        let resp = execute(&sudoers, "not-admin", "contract".to_string(), &vec![], msg);
        assert!(resp.is_err(), "resp.err: {:?}", resp.err());
    }
}

#[test]
fn exec_claim() {
    let to = "recipient_address";
    let sudoers = do_init(to, to);
    let balances = vec![coin(100, "token")];
    let cases: Vec<(Option<Coin>, Option<bool>, Option<&str>, Option<u128>)> = vec![
        (None, None, Some("arguments must be specified"), None),
        (Some(coin(50, "token")), None, None, Some(50)),
        (None, Some(true), None, Some(100)),
        (None, Some(false), Some("false causes an error"), None),
    ];
    for (funds, claim_all, err, sent) in cases {
        let res = execute(&sudoers, to, "contract".to_string(), &balances, ExecuteMsg::Claim { funds, claim_all, to: to.to_string() });
        if let Some(err) = err {
            assert!(res.err().unwrap().message().contains(err));
            continue;
        }
        let resp = res.unwrap();
        assert_eq!(resp.messages.len(), 1);
        match &resp.messages[0] {
            StargateMsg::Std(CosmosMsg::BankSend { amount, .. }) => {
                assert_eq!(amount[0].denom, "token");
                assert_eq!(Some(amount[0].amount), sent);
            },
            _ => panic!("expected a bank send"),
        }
    }
}
