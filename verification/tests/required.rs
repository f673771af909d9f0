use cw_nibiru::bindings_perp::Sudoers;
use cw_nibiru::common::StringSet;
use cw_nibiru::core_shifter::{instantiate_perms, Permissions};
use cw_nibiru::incentives::{execute_create_program, IncentivesState};
use cw_nibiru::nusd_valuator::ValuatorState;
use cw_nibiru::ownable::{assert_owner, OwnershipError};

fn set_of(names: &[&str]) -> StringSet {
    StringSet::from_vec(names.iter().map(|s| s.to_string()).collect())
}

fn init_mock_sudoers() -> Sudoers {
    Sudoers { members: set_of(&["alice", "brock", "david"]), admin: "cait".to_string() }
}

fn init_mock_perms() -> Permissions {
    Permissions { operators: set_of(&["alice", "brock", "david"]), owner: Some("cait".to_string()) }
}

#[test]
fn sudoers_is_admin() {
    let sudoers = init_mock_sudoers();
    assert!(!sudoers.is_admin("alice"));
    assert!(sudoers.is_admin("cait"));
    assert!(!sudoers.is_admin("david"));
    assert!(!sudoers.is_admin("brock"));
}

#[test]
fn sudoers_is_member() {
    let sudoers = init_mock_sudoers();
    assert!(sudoers.is_member("alice"));
    assert!(!sudoers.is_member("cait"));
    assert!(sudoers.is_member("david"));
    assert!(sudoers.is_member("brock"));
}

#[test]
fn sudoers_has() {
    let sudoers = init_mock_sudoers();
    for name in ["alice", "brock", "cait", "david"].iter() {
        assert!(sudoers.has(name));
    }
    for name in ["xxx", "not-sudoersed"].iter() {
        assert!(!sudoers.has(name));
    }
}

#[test]
fn perms_is_owner() {
    let perms = init_mock_perms();
    assert!(!perms.is_owner("alice"));
    assert!(perms.is_owner("cait"));
    assert!(!perms.is_owner("david"));
    assert!(!perms.is_owner("brock"));
}

#[test]
fn perms_is_member() {
    let perms = init_mock_perms();
    assert!(perms.is_operator("alice"));
    assert!(!perms.is_operator("cait"));
    assert!(perms.is_operator("david"));
    assert!(perms.is_operator("brock"));
}

#[test]
fn perms_has() {
    let perms = init_mock_perms();
    for name in ["alice", "brock", "cait", "david"].iter() {
        assert!(perms.has(name));
    }
    for name in ["xxx", "not-permsed"].iter() {
        assert!(!perms.has(name));
    }
}

#[test]
fn test_has_admin_power() {
    let perms = instantiate_perms(Some("owner".to_string()));
    let sender = "not-admin";
    assert!(!perms.is_owner(sender));
    let sender = "owner";
    assert!(perms.is_owner(sender));
}

#[test]
fn test_exec_change_admin() {
    // The owner is whoever instantiation names.
    let perms = instantiate_perms(Some("new-admin".to_string()));
    assert!(perms.is_owner("new-admin"));
    assert!(!perms.is_owner("owner"));
}

#[test]
fn create_program() {
    let mut state = IncentivesState::new();
    let resp = execute_create_program(&mut state, 100, "NIBI_LP".to_string(), 5, 5, 50, 100);
    assert_eq!(state.programs.len(), 1);
    assert_eq!(state.programs[0].program.id, 1);
    assert_eq!(state.programs[0].program.end_block, 125);
    assert_eq!(resp.events.len(), 1);
}

#[test]
fn contract_it_works() {
    let result = 2 + 2;
    assert_eq!(result, 4);
}

#[test]
fn lib_it_works() {
    let result = 2 + 2;
    assert_eq!(result, 4);
}

#[test]
fn change_denom() {
    let mut state = ValuatorState { owner: Some("owner".to_string()), accepted_denoms: set_of(&["usdc"]) };
    assert!(cw_nibiru::nusd_valuator::change_denom(&mut state, "owner", "usdc".to_string(), "usdt".to_string()).is_ok());
    assert!(state.accepted_denoms.contains("usdt"));
    assert!(!state.accepted_denoms.contains("usdc"));
}

#[test]
fn update_ownership() {
    assert!(assert_owner(&Some("owner".to_string()), "owner").is_ok());
    assert!(matches!(assert_owner(&Some("owner".to_string()), "other"), Err(OwnershipError::NotOwner)));
    assert!(matches!(assert_owner(&None, "owner"), Err(OwnershipError::NoOwner)));
}
