//! The NUSD valuator's set of accepted collateral denominations, which only
//! the owner may change.
use vstd::prelude::*;

use crate::common::{attr_text, AttrValue, Attribute, Event, Response, StringSet};
use crate::key_order::{sorted_strings, strictly_sorted, views};
use crate::ownable::{assert_owner, is_owner_spec, owner_error, OwnershipError};

verus! {

/// The arguments of a migration (there are none; a struct, since Verus
/// takes no enum without variants).
#[derive(Debug)]
pub struct MigrateMsg {}

/// Why a valuator call was refused.
#[derive(Debug)]
pub enum ContractError {
    Std(String),
    SerdeJson(String),
    Ownership(OwnershipError),
    AddExistentDenom { denom: String, denom_set: StringSet },
    RemoveNonexistentDenom { denom: String, denom_set: StringSet },
}

/// The valuator's state: the owner and the accepted denominations.
#[derive(Debug)]
pub struct ValuatorState {
    pub owner: Option<String>,
    pub accepted_denoms: StringSet,
}

impl ValuatorState {
    pub open spec fn wf(&self) -> bool {
        self.accepted_denoms.wf()
    }
}

/// `a` is a text attribute `key` = `value`.
pub open spec fn is_text_attr(a: Attribute, key: Seq<char>, value: Seq<char>) -> bool {
    &&& a.key@ == key
    &&& a.value matches AttrValue::Text(t) && t@ == value
}

/// `a` is the attribute `new_denom_set` listing the denominations `set`
/// in order, each once.
pub open spec fn is_set_attr(a: Attribute, set: StringSet) -> bool {
    &&& a.key@ == "new_denom_set"@
    &&& a.value matches AttrValue::Denoms(d) && strictly_sorted(views(d@))
        && forall|k: Seq<char>| #[trigger] views(d@).contains(k) <==> set@.contains(k)
}

/// The event of an added denomination.
pub fn event_add_denom(denom: &str, denom_set: &StringSet) -> (r: Event)
    requires
        denom_set.wf(),
    ensures
        r.ty@ == "nusd_valuator/add_denom"@,
        r.attributes@.len() == 2,
        is_text_attr(r.attributes@[0], "denom"@, denom@),
        is_set_attr(r.attributes@[1], *denom_set),
{
    let mut attributes: Vec<Attribute> = Vec::new();
    attributes.push(attr_text("denom", String::from_str(denom)));
    attributes.push(Attribute { key: String::from_str("new_denom_set"), value: AttrValue::Denoms(sorted_strings(denom_set)) });
    Event { ty: String::from_str("nusd_valuator/add_denom"), attributes }
}

/// The event of a removed denomination.
pub fn event_remove_denom(denom: &str, denom_set: &StringSet) -> (r: Event)
    requires
        denom_set.wf(),
    ensures
        r.ty@ == "nusd_valuator/remove_denom"@,
        r.attributes@.len() == 2,
        is_text_attr(r.attributes@[0], "denom"@, denom@),
        is_set_attr(r.attributes@[1], *denom_set),
{
    let mut attributes: Vec<Attribute> = Vec::new();
    attributes.push(attr_text("denom", String::from_str(denom)));
    attributes.push(Attribute { key: String::from_str("new_denom_set"), value: AttrValue::Denoms(sorted_strings(denom_set)) });
    Event { ty: String::from_str("nusd_valuator/remove_denom"), attributes }
}

/// The event of a denomination changed into another.
pub fn event_change_denom(from_denom: &str, to_denom: &str, denom_set: &StringSet) -> (r: Event)
    requires
        denom_set.wf(),
    ensures
        r.ty@ == "nusd_valuator/change_denom"@,
        r.attributes@.len() == 3,
        is_text_attr(r.attributes@[0], "from_denom"@, from_denom@),
        is_text_attr(r.attributes@[1], "to_denom"@, to_denom@),
        is_set_attr(r.attributes@[2], *denom_set),
{
    let mut attributes: Vec<Attribute> = Vec::new();
    attributes.push(attr_text("from_denom", String::from_str(from_denom)));
    attributes.push(attr_text("to_denom", String::from_str(to_denom)));
    attributes.push(Attribute { key: String::from_str("new_denom_set"), value: AttrValue::Denoms(sorted_strings(denom_set)) });
    Event { ty: String::from_str("nusd_valuator/change_denom"), attributes }
}

fn event_reply(ev: Event) -> (r: Response)
    ensures
        r.messages@.len() == 0,
        r.attributes@.len() == 0,
        r.events@ == seq![ev],
{
    let mut events: Vec<Event> = Vec::new();
    events.push(ev);
    Response { messages: Vec::new(), attributes: Vec::new(), events }
}

/// Adds `denom` to the accepted denominations; only the owner may, and only
/// a denomination that is not accepted yet.
pub fn add_denom(state: &mut ValuatorState, sender: &str, denom: String) -> (r: Result<Response, ContractError>)
    requires
        old(state).wf(),
    ensures
        final(state).wf(),
        final(state).owner == old(state).owner,
        r is Err ==> *final(state) == *old(state),
        !is_owner_spec(old(state).owner, sender@) ==> r == Err::<Response, ContractError>(ContractError::Ownership(owner_error(old(state).owner))),
        is_owner_spec(old(state).owner, sender@) && old(state).accepted_denoms@.contains(denom@)
            ==> (r matches Err(ContractError::AddExistentDenom { denom: d, denom_set })
            && d@ == denom@ && denom_set@ == old(state).accepted_denoms@),
        r is Ok <==> (is_owner_spec(old(state).owner, sender@)
            && !old(state).accepted_denoms@.contains(denom@)),
        r matches Ok(resp) ==> {
            &&& final(state).accepted_denoms@ == old(state).accepted_denoms@.insert(denom@)
            &&& resp.messages@.len() == 0
            &&& resp.events@.len() == 1
            &&& resp.events@[0].ty@ == "nusd_valuator/add_denom"@
            &&& resp.events@[0].attributes@.len() == 2
            &&& is_text_attr(resp.events@[0].attributes@[0], "denom"@, denom@)
            &&& is_set_attr(resp.events@[0].attributes@[1], final(state).accepted_denoms)
        },
{
    match assert_owner(&state.owner, sender) {
        Err(e) => return Err(ContractError::Ownership(e)),
        Ok(()) => {},
    }
    if state.accepted_denoms.contains(denom.as_str()) {
        return Err(ContractError::AddExistentDenom { denom, denom_set: state.accepted_denoms.copy() });
    }
    state.accepted_denoms.insert(denom.clone());
    let ev = event_add_denom(denom.as_str(), &state.accepted_denoms);
    Ok(event_reply(ev))
}

/// Removes `denom` from the accepted denominations; only the owner may, and
/// only an accepted denomination.
pub fn remove_denom(state: &mut ValuatorState, sender: &str, denom: String) -> (r: Result<Response, ContractError>)
    requires
        old(state).wf(),
    ensures
        final(state).wf(),
        final(state).owner == old(state).owner,
        r is Err ==> *final(state) == *old(state),
        !is_owner_spec(old(state).owner, sender@) ==> r == Err::<Response, ContractError>(ContractError::Ownership(owner_error(old(state).owner))),
        is_owner_spec(old(state).owner, sender@) && !old(state).accepted_denoms@.contains(denom@)
            ==> (r matches Err(ContractError::RemoveNonexistentDenom { denom: d, denom_set })
            && d@ == denom@ && denom_set@ == old(state).accepted_denoms@),
        r is Ok <==> (is_owner_spec(old(state).owner, sender@)
            && old(state).accepted_denoms@.contains(denom@)),
        r matches Ok(resp) ==> {
            &&& final(state).accepted_denoms@ == old(state).accepted_denoms@.remove(denom@)
            &&& resp.messages@.len() == 0
            &&& resp.events@.len() == 1
            &&& resp.events@[0].ty@ == "nusd_valuator/remove_denom"@
            &&& resp.events@[0].attributes@.len() == 2
            &&& is_text_attr(resp.events@[0].attributes@[0], "denom"@, denom@)
            &&& is_set_attr(resp.events@[0].attributes@[1], final(state).accepted_denoms)
        },
{
    match assert_owner(&state.owner, sender) {
        Err(e) => return Err(ContractError::Ownership(e)),
        Ok(()) => {},
    }
    if !state.accepted_denoms.contains(denom.as_str()) {
        return Err(ContractError::RemoveNonexistentDenom { denom, denom_set: state.accepted_denoms.copy() });
    }
    state.accepted_denoms.remove(denom.as_str());
    let ev = event_remove_denom(denom.as_str(), &state.accepted_denoms);
    Ok(event_reply(ev))
}

/// Replaces the accepted denomination `from` by `to`; only the owner may,
/// and `from` must be accepted.
pub fn change_denom(state: &mut ValuatorState, sender: &str, from: String, to: String) -> (r: Result<Response, ContractError>)
    requires
        old(state).wf(),
    ensures
        final(state).wf(),
        final(state).owner == old(state).owner,
        r is Err ==> *final(state) == *old(state),
        !is_owner_spec(old(state).owner, sender@) ==> r == Err::<Response, ContractError>(ContractError::Ownership(owner_error(old(state).owner))),
        is_owner_spec(old(state).owner, sender@) && !old(state).accepted_denoms@.contains(from@)
            ==> (r matches Err(ContractError::RemoveNonexistentDenom { denom: d, denom_set })
            && d@ == from@ && denom_set@ == old(state).accepted_denoms@),
        r is Ok <==> (is_owner_spec(old(state).owner, sender@)
            && old(state).accepted_denoms@.contains(from@)),
        r matches Ok(resp) ==> {
            &&& final(state).accepted_denoms@ == old(state).accepted_denoms@.remove(from@).insert(to@)
            &&& resp.messages@.len() == 0
            &&& resp.events@.len() == 1
            &&& resp.events@[0].ty@ == "nusd_valuator/change_denom"@
            &&& resp.events@[0].attributes@.len() == 3
            &&& is_text_attr(resp.events@[0].attributes@[0], "from_denom"@, from@)
            &&& is_text_attr(resp.events@[0].attributes@[1], "to_denom"@, to@)
            &&& is_set_attr(resp.events@[0].attributes@[2], final(state).accepted_denoms)
        },
{
    match assert_owner(&state.owner, sender) {
        Err(e) => return Err(ContractError::Ownership(e)),
        Ok(()) => {},
    }
    if !state.accepted_denoms.contains(from.as_str()) {
        return Err(ContractError::RemoveNonexistentDenom { denom: from, denom_set: state.accepted_denoms.copy() });
    }
    state.accepted_denoms.remove(from.as_str());
    state.accepted_denoms.insert(to.clone());
    let ev = event_change_denom(from.as_str(), to.as_str(), &state.accepted_denoms);
    Ok(event_reply(ev))
}

/// The accepted denominations.
pub fn query_accepted_denoms(state: &ValuatorState) -> (r: StringSet)
    requires
        state.wf(),
    ensures
        r.wf(),
        r@ == state.accepted_denoms@,
        r.elems() == state.accepted_denoms.elems(),
{
    state.accepted_denoms.copy()
}

/// Removing a denomination undoes adding it: a denomination that was not
/// accepted, once added and removed, leaves the accepted set as it was.
pub proof fn law_remove_undoes_add(accepted: Set<Seq<char>>, denom: Seq<char>)
    requires
        !accepted.contains(denom),
    ensures
        accepted.insert(denom).remove(denom) == accepted,
        accepted.insert(denom).contains(denom),
{
    assert(accepted.insert(denom).remove(denom) =~= accepted);
}

} // verus!
