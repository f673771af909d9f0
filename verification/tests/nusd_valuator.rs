use cw_nibiru::common::{AttrValue, StringSet};
use cw_nibiru::nusd_valuator::{query_accepted_denoms, ContractError, ValuatorState};
use cw_nibiru::nusd_valuator as valuator;

const TEST_DENOM: &str = "testdenom";

fn setup(denoms: &[&str]) -> ValuatorState {
    ValuatorState {
        owner: Some("owner".to_string()),
        accepted_denoms: StringSet::from_vec(denoms.iter().map(|s| s.to_string()).collect()),
    }
}

fn denoms(state: &ValuatorState) -> Vec<String> {
    let mut v = query_accepted_denoms(state).to_vec();
    v.sort();
    v
}

#[test]
fn add_denom() {
    let mut state = setup(&[]);
    let res = valuator::add_denom(&mut state, "owner", "testdenom".to_string()).unwrap();
    assert_eq!(0, res.messages.len());
    let event = &res.events[0];
    assert_eq!(event.ty, "nusd_valuator/add_denom");
    assert_eq!(event.attributes.len(), 2);
    assert_eq!(denoms(&state), vec!["testdenom".to_string()]);
}

#[test]
fn add_denom_err_existent() {
    let mut state = setup(&[TEST_DENOM]);
    let err = valuator::add_denom(&mut state, "owner", TEST_DENOM.to_string()).err().expect("Expected error");
    match err {
        ContractError::AddExistentDenom { denom, denom_set } => {
            assert_eq!(denom, TEST_DENOM);
            assert_eq!(denom_set.to_vec(), vec![TEST_DENOM.to_string()]);
        },
        _ => panic!("unexpected error"),
    }
    assert_eq!(denoms(&state), vec![TEST_DENOM.to_string()]);
}

#[test]
fn remove_denom() {
    let mut state = setup(&[TEST_DENOM]);
    let res = valuator::remove_denom(&mut state, "owner", TEST_DENOM.to_string()).unwrap();
    assert_eq!(0, res.messages.len());
    let event = &res.events[0];
    assert_eq!(event.ty, "nusd_valuator/remove_denom");
    assert_eq!(event.attributes.len(), 2);
    assert!(matches!(&event.attributes[1].value, AttrValue::Denoms(d) if d.is_empty()));
    assert_eq!(denoms(&state), Vec::<String>::new());
    let err = valuator::remove_denom(&mut state, "owner", TEST_DENOM.to_string()).err().unwrap();
    match err {
        ContractError::RemoveNonexistentDenom { denom, denom_set } => {
            assert_eq!(denom, TEST_DENOM);
            assert_eq!(denom_set.to_vec(), Vec::<String>::new());
        },
        _ => panic!("unexpected error"),
    }
    assert_eq!(denoms(&state), Vec::<String>::new());
}

#[test]
fn remove_denom_err_nonexistent() {
    let mut state = setup(&[TEST_DENOM]);
    let err = valuator::remove_denom(&mut state, "owner", "denom_not_in_set".to_string()).err().unwrap();
    match err {
        ContractError::RemoveNonexistentDenom { denom, denom_set } => {
            assert_eq!(denom, "denom_not_in_set");
            assert_eq!(denom_set.to_vec(), vec![TEST_DENOM.to_string()]);
        },
        _ => panic!("unexpected error"),
    }
    assert_eq!(denoms(&state), vec![TEST_DENOM.to_string()]);
}

#[test]
fn add_then_remove_restores_the_set() {
    let mut state = setup(&["a", "b"]);
    valuator::add_denom(&mut state, "owner", "c".to_string()).unwrap();
    valuator::remove_denom(&mut state, "owner", "c".to_string()).unwrap();
    assert_eq!(denoms(&state), vec!["a".to_string(), "b".to_string()]);
    assert!(matches!(valuator::add_denom(&mut state, "stranger", "d".to_string()), Err(ContractError::Ownership(_))));
}

#[test]
fn denom_set_is_reported_in_order() {
    let mut state = setup(&["zeta", "alpha"]);
    let resp = valuator::add_denom(&mut state, "owner", "mu".to_string()).unwrap();
    match &resp.events[0].attributes[1].value {
        AttrValue::Denoms(d) => assert_eq!(d, &vec!["alpha".to_string(), "mu".to_string(), "zeta".to_string()]),
        _ => panic!("expected the denomination set"),
    }
}
