//! The shifter: an owner and a set of operators may shift the swap
//! invariant and the peg multiplier of perp markets, and edit the
//! operator set.
use vstd::prelude::*;

use crate::common::{attr_text, str_eq, AttrValue, Attribute, Response, StringSet};
use crate::ownable::{is_owner_spec, OwnershipError};

verus! {

/// An edit of the operator set.
#[derive(Debug)]
pub enum Action {
    AddOper { address: String },
    RemoveOper { address: String },
}

/// The contract owner and the set of operators.
#[derive(Debug)]
pub struct Permissions {
    pub owner: Option<String>,
    pub operators: StringSet,
}

/// The owner and the operators.
#[derive(Debug)]
pub struct PermsResponse {
    pub perms: Permissions,
}

/// Whether an address is an operator, with the permissions.
#[derive(Debug)]
pub struct HasPermsResponse {
    pub has_perms: bool,
    pub addr: String,
    pub perms: Permissions,
}

/// The arguments of instantiation.
#[derive(Debug)]
pub struct InitMsg {
    pub owner: String,
}

/// Why a shifter call was refused.
#[derive(Debug)]
pub enum ContractError {
    Std(String),
    Ownership(OwnershipError),
    NoOperatorPerms { sender: String },
    MathError(String),
}

/// A perp-module message the shifter sends on behalf of the contract.
#[derive(Debug)]
pub enum ShiftMsg {
    ShiftSwapInvariant { sender: String, pair: String, new_swap_invariant: String },
    ShiftPegMultiplier { sender: String, pair: String, new_peg_mult: String },
}

impl Permissions {
    pub open spec fn wf(&self) -> bool {
        self.operators.wf()
    }

    pub open spec fn is_owner_spec(&self, addr: Seq<char>) -> bool {
        is_owner_spec(self.owner, addr)
    }

    pub open spec fn has_spec(&self, addr: Seq<char>) -> bool {
        self.operators@.contains(addr) || self.is_owner_spec(addr)
    }

    /// Whether `addr` is an operator or the owner.
    pub fn has(&self, addr: &str) -> (r: bool)
        ensures
            r == self.has_spec(addr@),
    {
        self.operators.contains(addr) || self.is_owner(addr)
    }

    /// Whether `addr` is the owner.
    pub fn is_owner(&self, addr: &str) -> (r: bool)
        ensures
            r == self.is_owner_spec(addr@),
    {
        match &self.owner {
            Some(owner) => str_eq(owner.as_str(), addr),
            None => false,
        }
    }

    /// Whether `addr` is an operator.
    pub fn is_operator(&self, addr: &str) -> (r: bool)
        ensures
            r == self.operators@.contains(addr@),
    {
        self.operators.contains(addr)
    }
}

/// The permissions of a new contract: the given owner and no operator.
pub fn instantiate_perms(owner: Option<String>) -> (r: Permissions)
    ensures
        r.wf(),
        r.owner == owner,
        r.operators@ == Set::<Seq<char>>::empty(),
{
    Permissions { owner, operators: StringSet::new() }
}

/// What a sender may do.
#[derive(Debug)]
pub struct CanExecute {
    pub is_owner: bool,
    pub is_operator: bool,
    pub sender: String,
    pub perms: Permissions,
}

impl CanExecute {
    /// The rights of `sender` under `perms`.
    pub fn new(perms: Permissions, sender: &str) -> (r: CanExecute)
        ensures
            r.is_owner == perms.is_owner_spec(sender@),
            r.is_operator == perms.operators@.contains(sender@),
            r.sender@ == sender@,
            r.perms == perms,
    {
        let is_owner = perms.is_owner(sender);
        let is_operator = perms.is_operator(sender);
        CanExecute { is_owner, is_operator, sender: String::from_str(sender), perms }
    }

    /// Errors if the sender does not have operator permissions.
    pub fn check_perms_operator(&self) -> (r: Result<(), ContractError>)
        ensures
            (self.is_operator || self.is_owner) ==> r is Ok,
            !(self.is_operator || self.is_owner) ==> (r matches Err(
                ContractError::NoOperatorPerms { sender },
            ) && sender@ == self.sender@),
    {
        if self.is_operator || self.is_owner {
            Ok(())
        } else {
            Err(ContractError::NoOperatorPerms { sender: self.sender.clone() })
        }
    }
}

/// Shifts the swap invariant of `pair`; operators and the owner may. The
/// contract sends the shift as itself (`contract_addr`).
pub fn shift_swap_invariant(
    check: &CanExecute,
    contract_addr: String,
    pair: String,
    new_swap_invariant: String,
) -> (r: Result<(ShiftMsg, Response), ContractError>)
    ensures
        (check.is_operator || check.is_owner) <==> r is Ok,
        r matches Ok((m, resp)) ==> (m matches ShiftMsg::ShiftSwapInvariant { sender, pair: p, new_swap_invariant: n }
            && sender@ == contract_addr@ && p@ == pair@ && n@ == new_swap_invariant@)
            && is_action_reply(resp, "shift_swap_invariant"@),
{
    check.check_perms_operator()?;
    let m = ShiftMsg::ShiftSwapInvariant { sender: contract_addr, pair, new_swap_invariant };
    Ok((m, action_reply("shift_swap_invariant")))
}

/// Shifts the peg multiplier of `pair`; operators and the owner may.
/// `new_peg_mult` is the multiplier in the chain's decimal encoding.
pub fn shift_peg_multiplier(
    check: &CanExecute,
    contract_addr: String,
    pair: String,
    new_peg_mult: String,
) -> (r: Result<(ShiftMsg, Response), ContractError>)
    ensures
        (check.is_operator || check.is_owner) <==> r is Ok,
        r matches Ok((m, resp)) ==> (m matches ShiftMsg::ShiftPegMultiplier { sender, pair: p, new_peg_mult: n }
            && sender@ == contract_addr@ && p@ == pair@ && n@ == new_peg_mult@)
            && is_action_reply(resp, "shift_peg_multiplier"@),
{
    check.check_perms_operator()?;
    let m = ShiftMsg::ShiftPegMultiplier { sender: contract_addr, pair, new_peg_mult };
    Ok((m, action_reply("shift_peg_multiplier")))
}

/// A reply with the one attribute `action`.
pub open spec fn is_action_reply(r: Response, action: Seq<char>) -> bool {
    &&& r.messages@.len() == 0
    &&& r.events@.len() == 0
    &&& r.attributes@.len() == 1
    &&& r.attributes@[0].key@ == "action"@
    &&& r.attributes@[0].value matches AttrValue::Text(t) && t@ == action
}

fn action_reply(action: &str) -> (r: Response)
    ensures
        is_action_reply(r, action@),
{
    let mut attributes: Vec<Attribute> = Vec::new();
    attributes.push(attr_text("action", String::from_str(action)));
    Response { messages: Vec::new(), attributes, events: Vec::new() }
}

/// A reply with no message and the two attributes of an operator edit.
pub open spec fn is_edit_reply(r: Response, action: Seq<char>, address: Seq<char>) -> bool {
    &&& r.messages@.len() == 0
    &&& r.events@.len() == 0
    &&& r.attributes@.len() == 2
    &&& r.attributes@[0].key@ == "action"@
    &&& r.attributes@[0].value matches AttrValue::Text(t) && t@ == action
    &&& r.attributes@[1].key@ == "address"@
    &&& r.attributes@[1].value matches AttrValue::Text(t) && t@ == address
}

/// Adds or removes an operator; operators and the owner may.
///
/// `checked_addr` is what the chain's address check made of the address to
/// add. It is read for `AddOper` only. The new operator set replaces the
/// stored one.
pub fn edit_opers(check: &CanExecute, action: Action, checked_addr: Result<String, String>) -> (r:
    Result<(StringSet, Response), ContractError>)
    requires
        check.perms.wf(),
    ensures
        !(check.is_operator || check.is_owner) ==> (r matches Err(ContractError::NoOperatorPerms { sender })
            && sender@ == check.sender@),
        r matches Ok((ops, _)) ==> ops.wf(),
        (check.is_operator || check.is_owner) ==> match action {
            Action::AddOper { address } => match checked_addr {
                Err(m) => r == Err::<(StringSet, Response), ContractError>(ContractError::Std(m)),
                Ok(a) => r matches Ok((ops, resp)) && is_edit_reply(resp, "add_operator"@, address@)
                    && ops@ == check.perms.operators@.insert(a@),
            },
            Action::RemoveOper { address } => r matches Ok((ops, resp)) && is_edit_reply(
                resp,
                "remove_operator"@,
                address@,
            ) && ops@ == check.perms.operators@.remove(address@),
        },
{
    check.check_perms_operator()?;
    let mut ops = check.perms.operators.copy();
    match action {
        Action::AddOper { address } => {
            let a = match checked_addr {
                Err(m) => return Err(ContractError::Std(m)),
                Ok(a) => a,
            };
            ops.insert(a);
            Ok((ops, edit_reply("add_operator", address)))
        },
        Action::RemoveOper { address } => {
            ops.remove(address.as_str());
            Ok((ops, edit_reply("remove_operator", address)))
        },
    }
}

fn edit_reply(action: &str, address: String) -> (r: Response)
    ensures
        is_edit_reply(r, action@, address@),
{
    let mut attributes: Vec<Attribute> = Vec::new();
    attributes.push(attr_text("action", String::from_str(action)));
    attributes.push(attr_text("address", address));
    Response { messages: Vec::new(), attributes, events: Vec::new() }
}

/// Whether `address` has operator permissions, which the operators and
/// the owner have, with the permissions.
pub fn query_has_perms(perms: Permissions, address: String) -> (r: HasPermsResponse)
    ensures
        r.has_perms == perms.has_spec(address@),
        r.addr == address,
        r.perms == perms,
{
    let has_perms = perms.has(address.as_str());
    HasPermsResponse { has_perms, addr: address, perms }
}

} // verus!
