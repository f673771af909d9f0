use cw_nibiru::common::StringSet;
use cw_nibiru::core_shifter::{
    edit_opers, instantiate_perms, query_has_perms, Action, CanExecute, ContractError, Permissions,
};

const TEST_OWNER: &str = "owner";

fn perms_with(opers: &[&str]) -> Permissions {
    let mut p = instantiate_perms(Some(TEST_OWNER.to_string()));
    for o in opers {
        p.operators.insert(o.to_string());
    }
    p
}

#[test]
fn test_instantiate() {
    let perms = instantiate_perms(Some("admin".to_string()));
    assert_eq!(perms.owner, Some("admin".to_string()));
    assert_eq!(perms.operators.len(), 0);
}

#[test]
fn test_exec_unauthorized() {
    let check = CanExecute::new(perms_with(&[]), "unauthorized");
    let result = edit_opers(&check, Action::AddOper { address: "addr0001".to_string() }, Ok("addr0001".to_string()));
    assert!(result.is_err());
}

#[test]
fn test_exec_edit_opers_add() {
    let perms = perms_with(&[]);
    let new_member = "new_member";
    assert!(!perms.is_owner(new_member));
    let check = CanExecute::new(perms, TEST_OWNER);
    let (ops, resp) =
        edit_opers(&check, Action::AddOper { address: new_member.to_string() }, Ok(new_member.to_string())).unwrap();
    assert_eq!(resp.messages.len(), 0);
    assert_eq!(resp.attributes.len(), 2);
    let perms = Permissions { owner: Some(TEST_OWNER.to_string()), operators: ops };
    assert!(perms.has(new_member));
    let response = query_has_perms(perms, new_member.to_string());
    assert!(response.has_perms);
}

#[test]
fn test_exec_edit_opers_remove() {
    let perms = perms_with(&["vitalik", "musk", "satoshi"]);
    let check = CanExecute::new(perms, TEST_OWNER);
    let (ops, resp) =
        edit_opers(&check, Action::RemoveOper { address: "satoshi".to_string() }, Ok("satoshi".to_string())).unwrap();
    assert_eq!(resp.messages.len(), 0);
    assert_eq!(resp.attributes.len(), 2);
    let mut opers = ops.to_vec();
    opers.sort();
    assert_eq!(opers, vec!["musk".to_string(), "vitalik".to_string()]);
}

#[test]
fn operators_may_edit_and_bad_addresses_are_refused() {
    let check = CanExecute::new(perms_with(&["oper"]), "oper");
    let bad = edit_opers(&check, Action::AddOper { address: "x".to_string() }, Err("invalid address".to_string()));
    assert!(bad.is_err());
    let (ops, _) = edit_opers(&check, Action::AddOper { address: "y".to_string() }, Ok("y".to_string())).unwrap();
    assert!(ops.contains("y"));
    let empty = StringSet::new();
    assert_eq!(empty.len(), 0);
}

#[test]
fn owner_has_operator_permissions() {
    let perms = perms_with(&["oper"]);
    assert!(query_has_perms(perms, TEST_OWNER.to_string()).has_perms);
    assert!(query_has_perms(perms_with(&["oper"]), "oper".to_string()).has_perms);
    assert!(!query_has_perms(perms_with(&["oper"]), "stranger".to_string()).has_perms);
}

#[test]
fn refused_edit_names_the_sender() {
    let check = CanExecute::new(perms_with(&[]), "unauthorized");
    let res = edit_opers(&check, Action::AddOper { address: "addr0001".to_string() }, Ok("addr0001".to_string()));
    assert!(matches!(res, Err(ContractError::NoOperatorPerms { sender }) if sender == "unauthorized"));
}
