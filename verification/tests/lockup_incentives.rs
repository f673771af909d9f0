use cw_nibiru::common::{AttrValue, Coin, CosmosMsg, Response};
use cw_nibiru::incentives::{
    add_coins, coin_fits, compute_distribution, compute_payout, EpochInfo, Funding, execute_create_program, execute_fund_program, execute_process_epoch, execute_withdraw_rewards,
    pending_epoch, pending_withdrawal_epochs, program_fundings, query_epoch_info, IncentivesError, IncentivesState,
};
use cw_nibiru::lockup::{
    execute_initiate_unlock, execute_lock, execute_withdraw_funds, query, Lock, LockupError, LockupState, QueryMsg,
    NOT_UNLOCKING_BLOCK_IDENTIFIER,
};

fn coin(amount: u128, denom: &str) -> Coin {
    Coin { denom: denom.to_string(), amount }
}

fn coins_of(locks: &[Lock]) -> Vec<(u128, String)> {
    locks.iter().map(|l| (l.coin.amount, l.coin.denom.clone())).collect()
}

#[test]
fn queries() {
    let mut state = LockupState::new();
    let height = 12345;
    execute_lock(&mut state, "alice", &vec![coin(100, "ATOM"), coin(300, "LUNA")], 100, height).unwrap();
    execute_lock(&mut state, "bob", &vec![coin(200, "ATOM"), coin(700, "OSMO")], 50, height).unwrap();
    let all = query(
        &state,
        &QueryMsg::LocksByDenomUnlockingAfter { denom: "ATOM".to_string(), unlocking_after: 1_000_000 },
        height,
    );
    assert_eq!(vec![(100, "ATOM".to_string()), (200, "ATOM".to_string())], coins_of(&all));
    let alice = query(
        &state,
        &QueryMsg::LocksByDenomAndAddressUnlockingAfter {
            denom: "ATOM".to_string(),
            unlocking_after: 1_000_000,
            address: "alice".to_string(),
        },
        height,
    );
    assert_eq!(vec![(100, "ATOM".to_string())], coins_of(&alice));
}

#[test]
fn lock_ids_and_events() {
    let mut state = LockupState::new();
    let res = execute_lock(&mut state, "alice", &vec![coin(1, "A"), coin(2, "B")], 10, 7).unwrap();
    assert_eq!(res.events.len(), 2);
    assert_eq!(res.events[1].ty, "coins_locked");
    assert!(matches!(res.events[1].attributes[0].value, AttrValue::Amount(2)));
    assert_eq!(state.locks[1].id, 2);
    assert_eq!(state.locks[1].end_block, NOT_UNLOCKING_BLOCK_IDENTIFIER);
    assert!(matches!(execute_lock(&mut state, "a", &vec![coin(1, "A")], 0, 7), Err(LockupError::InvalidLockDuration)));
    assert!(matches!(execute_lock(&mut state, "a", &vec![], 1, 7), Err(LockupError::NoFunds)));
    assert!(matches!(
        execute_lock(&mut state, "a", &vec![coin(1, "A"), coin(0, "Z")], 1, 7),
        Err(LockupError::ZeroCoins(d)) if d == "Z"
    ));
    assert_eq!(state.locks.len(), 2);
}

#[test]
fn unlock_once_and_withdraw_once() {
    let mut state = LockupState::new();
    execute_lock(&mut state, "alice", &vec![coin(5, "A")], 10, 100).unwrap();
    let res = execute_initiate_unlock(&mut state, 1, 200).unwrap();
    assert!(matches!(res.events[0].attributes[2].value, AttrValue::Amount(210)));
    assert_eq!(state.locks[0].end_block, 210);
    assert!(matches!(execute_initiate_unlock(&mut state, 1, 300), Err(LockupError::AlreadyUnlocking(1))));
    assert!(matches!(execute_initiate_unlock(&mut state, 9, 300), Err(LockupError::NotFound(9))));
    // The end block still lies ahead: the lock has not matured.
    assert!(matches!(execute_withdraw_funds(&mut state, 1, 209), Err(LockupError::NotMatured(1))));
    let res = execute_withdraw_funds(&mut state, 1, 210).unwrap();
    match &res.messages[0] {
        CosmosMsg::BankSend { to_address, amount } => {
            assert_eq!(to_address, "alice");
            assert_eq!(amount[0].amount, 5);
        },
        _ => panic!("expected a bank send"),
    }
    assert!(matches!(execute_withdraw_funds(&mut state, 1, 300), Err(LockupError::FundsAlreadyWithdrawn(1))));
}

#[test]
fn lock_never_unlocked_has_not_matured() {
    let mut state = LockupState::new();
    execute_lock(&mut state, "bob", &vec![coin(7, "B")], 10, 100).unwrap();
    assert!(matches!(execute_withdraw_funds(&mut state, 1, 100), Err(LockupError::NotMatured(1))));
    assert!(matches!(execute_withdraw_funds(&mut state, 1, 1_000_000), Err(LockupError::NotMatured(1))));
    assert!(!state.locks[0].funds_withdrawn);
}

#[test]
fn between_queries_order_by_start() {
    let mut state = LockupState::new();
    execute_lock(&mut state, "a", &vec![coin(1, "X")], 10, 30).unwrap();
    execute_lock(&mut state, "b", &vec![coin(2, "X")], 10, 20).unwrap();
    execute_lock(&mut state, "a", &vec![coin(3, "X")], 1, 10).unwrap();
    let q = QueryMsg::LocksByDenomBetween { denom: "X".to_string(), locked_before: 30, unlocking_after: 40 };
    let r = query(&state, &q, 35);
    // Started by block 30, and 35 + 10 > 40; the short lock does not qualify.
    assert_eq!(r.iter().map(|l| l.id).collect::<Vec<u64>>(), vec![2, 1]);
    let q = QueryMsg::LocksByDenomAndAddressBetween {
        denom: "X".to_string(),
        address: "a".to_string(),
        locked_before: 29,
        unlocking_after: 0,
    };
    let r = query(&state, &q, 35);
    assert_eq!(r.iter().map(|l| l.id).collect::<Vec<u64>>(), vec![3]);
}

#[test]
fn add_coins_merges_by_denom() {
    let mut coins = vec![coin(1, "A"), coin(2, "B")];
    add_coins(&mut coins, coin(5, "B"));
    add_coins(&mut coins, coin(7, "C"));
    assert_eq!(coins.iter().map(|c| (c.denom.clone(), c.amount)).collect::<Vec<_>>(), vec![
        ("A".to_string(), 1),
        ("B".to_string(), 7),
        ("C".to_string(), 7)
    ]);
}

fn paid(res: &Response) -> Vec<(String, u128)> {
    match &res.messages[0] {
        CosmosMsg::BankSend { amount, .. } => amount.iter().map(|c| (c.denom.clone(), c.amount)).collect(),
        _ => panic!("expected a bank send"),
    }
}

fn process(inc: &mut IncentivesState, lock: &LockupState, height: u64) {
    let (denom, locked_before, unlocking_after) = pending_epoch(inc, 1, height).unwrap();
    let locks = query(lock, &QueryMsg::LocksByDenomBetween { denom, locked_before, unlocking_after }, height);
    execute_process_epoch(inc, 1, height, &locks).unwrap();
}

fn withdraw(inc: &mut IncentivesState, lock: &LockupState, user: &str, height: u64, balance: &mut Vec<Coin>) {
    let epochs = pending_withdrawal_epochs(inc, 1, user).unwrap();
    let qualified: Vec<Vec<Lock>> = epochs
        .iter()
        .map(|(locked_before, unlocking_after)| {
            query(
                lock,
                &QueryMsg::LocksByDenomAndAddressBetween {
                    denom: "NIBI_LP".to_string(),
                    address: user.to_string(),
                    locked_before: *locked_before,
                    unlocking_after: *unlocking_after,
                },
                height,
            )
        })
        .collect();
    let res = execute_withdraw_rewards(inc, 1, user, &qualified).unwrap();
    for (d, a) in paid(&res) {
        add_coins(balance, coin(a, &d));
    }
    balance.sort_by(|x, y| x.denom.cmp(&y.denom));
}

fn amounts(balance: &Vec<Coin>) -> Vec<(String, u128)> {
    balance.iter().filter(|c| c.amount > 0).map(|c| (c.denom.clone(), c.amount)).collect()
}

#[test]
fn flow() {
    let mut lock = LockupState::new();
    let mut inc = IncentivesState::new();
    let mut h: u64 = 12345;
    let mut alice: Vec<Coin> = vec![];
    let mut bob: Vec<Coin> = vec![];

    execute_lock(&mut lock, "alice", &vec![coin(100, "NIBI_LP")], 100, h).unwrap();
    execute_create_program(&mut inc, h, "NIBI_LP".to_string(), 5, 5, 50, h);
    execute_fund_program(&mut inc, 1, &vec![coin(1_000, "ATOM")], h).unwrap();
    let funding = program_fundings(&inc, 1);
    assert_eq!(funding.len(), 1);
    assert_eq!(funding[0].to_pay_each_epoch, 200);

    h += 6;
    process(&mut inc, &lock, h);
    withdraw(&mut inc, &lock, "alice", h, &mut alice);
    assert_eq!(amounts(&alice), vec![("ATOM".to_string(), 200)]);

    execute_lock(&mut lock, "bob", &vec![coin(200, "NIBI_LP")], 300, h).unwrap();
    h += 5;
    process(&mut inc, &lock, h);
    withdraw(&mut inc, &lock, "alice", h, &mut alice);
    assert_eq!(amounts(&alice), vec![("ATOM".to_string(), 200 + 66)]);
    withdraw(&mut inc, &lock, "bob", h, &mut bob);
    assert_eq!(amounts(&bob), vec![("ATOM".to_string(), 133)]);

    h += 1;
    execute_fund_program(&mut inc, 1, &vec![coin(1000, "OSMO")], h).unwrap();
    h += 4;
    process(&mut inc, &lock, h);
    h += 5;
    process(&mut inc, &lock, h);
    withdraw(&mut inc, &lock, "alice", h, &mut alice);
    withdraw(&mut inc, &lock, "bob", h, &mut bob);
    assert_eq!(amounts(&bob), vec![("ATOM".to_string(), 399), ("OSMO".to_string(), 442)]);
    assert_eq!(amounts(&alice), vec![("ATOM".to_string(), 398), ("OSMO".to_string(), 220)]);

    execute_fund_program(&mut inc, 1, &vec![coin(1000, "OSMO")], h).unwrap();
    h += 5;
    h += 5;
    process(&mut inc, &lock, h);
    withdraw(&mut inc, &lock, "alice", h, &mut alice);
    assert_eq!(amounts(&alice), vec![("ATOM".to_string(), 464), ("OSMO".to_string(), 664)]);
    withdraw(&mut inc, &lock, "bob", h, &mut bob);
    assert_eq!(amounts(&bob), vec![("ATOM".to_string(), 532), ("OSMO".to_string(), 1330)]);

    // Everything is paid: nothing is left to withdraw, and no epoch is left.
    let again = execute_withdraw_rewards(&mut inc, 1, "alice", &vec![]);
    assert!(matches!(again, Err(IncentivesError::NothingToWithdraw)));
    assert!(matches!(pending_epoch(&inc, 1, h + 100), Err(IncentivesError::EpochOutOfBounds(6, 1))));
    let e = query_epoch_info(&inc, 1, 5).unwrap();
    assert_eq!(e.total_locked, 300);
    assert!(query_epoch_info(&inc, 1, 6).is_err());
}

#[test]
fn incentives_refusals() {
    let mut inc = IncentivesState::new();
    assert!(matches!(execute_fund_program(&mut inc, 1, &vec![], 0), Err(IncentivesError::FundsRequired)));
    assert!(matches!(execute_fund_program(&mut inc, 1, &vec![coin(1, "A")], 0), Err(IncentivesError::NotFound(1))));
    execute_create_program(&mut inc, 100, "LP".to_string(), 2, 10, 0, 100);
    assert!(matches!(execute_fund_program(&mut inc, 1, &vec![coin(1, "A")], 120), Err(IncentivesError::ProgramFinished(1))));
    assert!(matches!(pending_epoch(&inc, 1, 110), Err(IncentivesError::EpochProcessBlock(1, 1, 110))));
    assert!(matches!(pending_epoch(&inc, 2, 110), Err(IncentivesError::NotFound(2))));
    // A funding late in the program pays over the epochs left, a partial
    // one counted whole.
    execute_fund_program(&mut inc, 1, &vec![coin(9, "A")], 105).unwrap();
    let f = program_fundings(&inc, 1);
    assert_eq!(f[0].pay_from_epoch, 1);
    assert_eq!(f[0].to_pay_each_epoch, 4);
    execute_fund_program(&mut inc, 1, &vec![coin(9, "B")], 115).unwrap();
    let f = program_fundings(&inc, 1);
    assert_eq!(f[1].pay_from_epoch, 2);
    assert_eq!(f[1].to_pay_each_epoch, 9);
}

#[test]
fn payout_and_distribution_overflow_is_detected() {
    assert!(coin_fits(&vec![coin(1, "A")], &coin(u128::MAX - 1, "A")));
    assert!(!coin_fits(&vec![coin(2, "A")], &coin(u128::MAX - 1, "A")));
    assert!(coin_fits(&vec![coin(2, "A")], &coin(u128::MAX, "B")));
    let f = |id: u64, pay_from: u64, denom: &str, each: u128| Funding {
        id,
        program_id: 1,
        pay_from_epoch: pay_from,
        denom: denom.to_string(),
        initial_amount: each,
        to_pay_each_epoch: each,
    };
    let sel = vec![f(1, 1, "A", 5), f(2, 2, "B", 7), f(3, 3, "A", 1)];
    let d = compute_distribution(&sel, 2).unwrap();
    assert_eq!(d.iter().map(|c| (c.denom.clone(), c.amount)).collect::<Vec<_>>(), vec![
        ("A".to_string(), 5),
        ("B".to_string(), 7)
    ]);
    let too_much = vec![f(1, 1, "A", u128::MAX), f(2, 1, "A", 1)];
    assert!(compute_distribution(&too_much, 1).is_none());
    let epoch = |total: u128| EpochInfo {
        epoch_identifier: 1,
        for_coins_unlocking_after: 0,
        to_distribute: vec![coin(300, "A")],
        total_locked: total,
    };
    let lock = |amount: u128| Lock {
        id: 1,
        coin: coin(amount, "LP"),
        owner: "a".to_string(),
        duration_blocks: 1,
        start_block: 0,
        end_block: NOT_UNLOCKING_BLOCK_IDENTIFIER,
        funds_withdrawn: false,
    };
    let paid = compute_payout(&vec![epoch(3)], 0, &vec![vec![lock(1)]]).unwrap();
    assert_eq!(paid[0].amount, 99);
    assert!(compute_payout(&vec![epoch(0)], 0, &vec![vec![lock(1)]]).is_none());
    assert!(compute_payout(&vec![epoch(3)], 0, &vec![vec![lock(u128::MAX), lock(1)]]).is_none());
}
