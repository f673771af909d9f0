//! The broker bank: an owner and a set of operators share a contract
//! balance. Operators may send coins to a fixed set of recipient addresses
//! unless the owner has halted them; only the owner can withdraw, toggle the
//! halt and edit the operator set.
use vstd::prelude::*;

use crate::common::{
    attr_text, coins_copy, opt_string_copy, str_eq, AttrValue, Attribute, Coin, CosmosMsg, Event,
    Response, StringSet,
};
use crate::ownable::{assert_owner, is_owner_spec, owner_error, OwnershipError};

verus! {

/// An edit of the operator set.
#[derive(Debug)]
pub enum Action {
    AddOper { address: String },
    RemoveOper { address: String },
}

/// The contract owner and the set of operators.
#[derive(Debug)]
pub struct Permissions {
    pub owner: Option<String>,
    pub operators: StringSet,
}

/// Whether an address has operator permissions, with the permissions.
#[derive(Debug)]
pub struct HasPermsResponse {
    pub has_perms: bool,
    pub addr: String,
    pub perms: Permissions,
}

/// The permissions and whether operators are halted.
#[derive(Debug)]
pub struct PermsStatus {
    pub is_halted: bool,
    pub perms: Permissions,
}

/// Why a broker call was refused.
#[derive(Debug)]
pub enum ContractError {
    Std(String),
    SerdeJson(String),
    Ownership(OwnershipError),
    NotImplemented,
    OperationsHalted,
    ToAddrNotAllowed { to_addr: String },
    UnknownRequest,
    NoOperatorPerms { addr: String },
    AddExistentDenom { denom: String, denom_set: StringSet },
}

/// What the broker records of a send, a withdrawal or an operator edit.
#[derive(Debug)]
pub struct Log {
    pub block_height: u64,
    pub sender_addr: String,
    pub event: Event,
}

/// The broker's state: permissions, allowed recipients and the halt switch.
#[derive(Debug)]
pub struct BrokerState {
    pub perms: Permissions,
    pub to_addrs: StringSet,
    pub is_halted: bool,
}

impl ContractError {
    /// The text of the error.
    pub open spec fn message_text(&self) -> Seq<char> {
        match self {
            ContractError::Std(m) => m@,
            ContractError::SerdeJson(m) => "serde_json error: "@ + m@,
            ContractError::Ownership(e) => e.message_text(),
            ContractError::NotImplemented => "not implemented"@,
            ContractError::OperationsHalted => "operations are currently halted"@,
            ContractError::ToAddrNotAllowed { to_addr } => "recipient address is not whitelisted (to_addr: "@ + to_addr@
                + "). Query permissions for more info."@,
            ContractError::UnknownRequest => "unknown request"@,
            ContractError::NoOperatorPerms { addr } => "insufficient permissions: address is not a contract operator ("@
                + addr@ + ")"@,
            ContractError::AddExistentDenom { denom, .. } => "no need to add denom "@ + denom@,
        }
    }

    /// The message of the error.
    pub fn message(&self) -> (r: String)
        ensures
            r@ == self.message_text(),
    {
        match self {
            ContractError::Std(m) => m.clone(),
            ContractError::SerdeJson(m) => String::from_str("serde_json error: ").concat(m.as_str()),
            ContractError::Ownership(e) => e.message(),
            ContractError::NotImplemented => String::from_str("not implemented"),
            ContractError::OperationsHalted => String::from_str("operations are currently halted"),
            ContractError::ToAddrNotAllowed { to_addr } => String::from_str(
                "recipient address is not whitelisted (to_addr: ",
            ).concat(to_addr.as_str()).concat("). Query permissions for more info."),
            ContractError::UnknownRequest => String::from_str("unknown request"),
            ContractError::NoOperatorPerms { addr } => String::from_str(
                "insufficient permissions: address is not a contract operator (",
            ).concat(addr.as_str()).concat(")"),
            ContractError::AddExistentDenom { denom, .. } => String::from_str("no need to add denom ").concat(
                denom.as_str(),
            ),
        }
    }
}

impl Permissions {
    /// The permission sets are well formed.
    pub open spec fn wf(&self) -> bool {
        self.operators.wf()
    }

    pub open spec fn is_owner_spec(&self, addr: Seq<char>) -> bool {
        is_owner_spec(self.owner, addr)
    }

    pub open spec fn has_spec(&self, addr: Seq<char>) -> bool {
        self.operators@.contains(addr) || self.is_owner_spec(addr)
    }

    /// Whether `addr` is an operator or the owner.
    pub fn has(&self, addr: &str) -> (r: bool)
        ensures
            r == self.has_spec(addr@),
    {
        self.operators.contains(addr) || self.is_owner(addr)
    }

    /// Whether `addr` is the owner.
    pub fn is_owner(&self, addr: &str) -> (r: bool)
        ensures
            r == self.is_owner_spec(addr@),
    {
        match &self.owner {
            Some(owner) => str_eq(owner.as_str(), addr),
            None => false,
        }
    }

    /// Whether `addr` is an operator.
    pub fn is_operator(&self, addr: &str) -> (r: bool)
        ensures
            r == self.operators@.contains(addr@),
    {
        self.operators.contains(addr)
    }

    /// Hands the permissions back when `addr` is an operator or the owner.
    pub fn assert_operator(self, addr: String) -> (r: Result<Permissions, ContractError>)
        ensures
            self.has_spec(addr@) ==> r == Ok::<Permissions, ContractError>(self),
            !self.has_spec(addr@) ==> r == Err::<Permissions, ContractError>(
                ContractError::NoOperatorPerms { addr },
            ),
    {
        if self.is_operator(addr.as_str()) || self.is_owner(addr.as_str()) {
            Ok(self)
        } else {
            Err(ContractError::NoOperatorPerms { addr })
        }
    }

    /// A copy of the permissions.
    pub fn copy(&self) -> (r: Permissions)
        requires
            self.wf(),
        ensures
            r.wf(),
            r.owner == self.owner,
            r.operators@ == self.operators@,
            r.operators.elems() == self.operators.elems(),
    {
        Permissions { owner: opt_string_copy(&self.owner), operators: self.operators.copy() }
    }
}

impl BrokerState {
    pub open spec fn wf(&self) -> bool {
        self.perms.wf() && self.to_addrs.wf()
    }
}

/// Operator calls are refused while the contract is halted.
pub fn assert_not_halted(is_halted: bool) -> (r: Result<(), ContractError>)
    ensures
        !is_halted ==> r is Ok,
        is_halted ==> r == Err::<(), ContractError>(ContractError::OperationsHalted),
{
    if is_halted {
        Err(ContractError::OperationsHalted)
    } else {
        Ok(())
    }
}

/// `ev` is the event of a send of `coins` by `caller`.
pub open spec fn is_bank_send_event(ev: Event, coins: Seq<Coin>, caller: Seq<char>) -> bool {
    &&& ev.ty@ == "broker_bank/send"@
    &&& ev.attributes@.len() == 2
    &&& ev.attributes@[0].key@ == "coins"@
    &&& ev.attributes@[0].value matches AttrValue::Coins(c) && c@ == coins
    &&& ev.attributes@[1].key@ == "caller"@
    &&& ev.attributes@[1].value matches AttrValue::Text(t) && t@ == caller
}

/// `ev` is the event of a withdrawal of `coins` to `to_addr`.
pub open spec fn is_withdraw_event(ev: Event, coins: Seq<Coin>, to_addr: Seq<char>) -> bool {
    &&& ev.ty@ == "broker_bank/withdraw"@
    &&& ev.attributes@.len() == 2
    &&& ev.attributes@[0].key@ == "coins"@
    &&& ev.attributes@[0].value matches AttrValue::Coins(c) && c@ == coins
    &&& ev.attributes@[1].key@ == "to_addr"@
    &&& ev.attributes@[1].value matches AttrValue::Text(t) && t@ == to_addr
}

/// The event of a send by an operator.
pub fn event_bank_send(coins: &Vec<Coin>, caller: &str) -> (r: Event)
    ensures
        is_bank_send_event(r, coins@, caller@),
{
    let mut attributes: Vec<Attribute> = Vec::new();
    attributes.push(Attribute { key: String::from_str("coins"), value: AttrValue::Coins(coins_copy(coins)) });
    attributes.push(attr_text("caller", String::from_str(caller)));
    Event { ty: String::from_str("broker_bank/send"), attributes }
}

/// The event of a toggle of the halt switch.
pub fn event_toggle_halt(is_halted: bool) -> (r: Event)
    ensures
        r.ty@ == "broker_bank/toggle_halt"@,
        r.attributes@.len() == 1,
        r.attributes@[0].key@ == "new_is_halted"@,
        r.attributes@[0].value == AttrValue::Flag(is_halted),
{
    let mut attributes: Vec<Attribute> = Vec::new();
    attributes.push(Attribute { key: String::from_str("new_is_halted"), value: AttrValue::Flag(is_halted) });
    Event { ty: String::from_str("broker_bank/toggle_halt"), attributes }
}

/// The event of a withdrawal by the owner.
pub fn event_withdraw(coins: &Vec<Coin>, to_addr: &str) -> (r: Event)
    ensures
        is_withdraw_event(r, coins@, to_addr@),
{
    let mut attributes: Vec<Attribute> = Vec::new();
    attributes.push(Attribute { key: String::from_str("coins"), value: AttrValue::Coins(coins_copy(coins)) });
    attributes.push(attr_text("to_addr", String::from_str(to_addr)));
    Event { ty: String::from_str("broker_bank/withdraw"), attributes }
}

/// A reply that sends `amount` to `to` and carries the one event `ev`.
pub open spec fn is_send_reply(r: Response, to: Seq<char>, amount: Seq<Coin>, ev: Event) -> bool {
    &&& r.messages@.len() == 1
    &&& r.messages@[0] matches CosmosMsg::BankSend { to_address, amount: a } && to_address@ == to
        && a@ == amount
    &&& r.attributes@.len() == 0
    &&& r.events@.len() == 1
    &&& r.events@[0] == ev
}

fn send_reply(to: String, amount: Vec<Coin>, ev: Event) -> (r: Response)
    ensures
        is_send_reply(r, to@, amount@, ev),
{
    let mut messages: Vec<CosmosMsg> = Vec::new();
    messages.push(CosmosMsg::BankSend { to_address: to, amount });
    let mut events: Vec<Event> = Vec::new();
    events.push(ev);
    Response { messages, attributes: Vec::new(), events }
}

/// Sends `coins` to the allowed recipient `to`, on behalf of an operator.
///
/// Refused when the sender is neither an operator nor the owner, when the
/// operators are halted, and when `to` is not an allowed recipient, in this
/// order. A send is logged at the given block height.
pub fn bank_send(
    state: &BrokerState,
    sender: &str,
    block_height: u64,
    coins: Vec<Coin>,
    to: String,
) -> (r: Result<(Response, Log), ContractError>)
    ensures
        !state.perms.has_spec(sender@) ==> (r matches Err(ContractError::NoOperatorPerms { addr })
            && addr@ == sender@),
        state.perms.has_spec(sender@) && state.is_halted ==> r matches Err(
            ContractError::OperationsHalted,
        ),
        state.perms.has_spec(sender@) && !state.is_halted && !state.to_addrs@.contains(to@)
            ==> (r matches Err(ContractError::ToAddrNotAllowed { to_addr }) && to_addr@ == to@),
        r is Ok <==> (state.perms.has_spec(sender@) && !state.is_halted
            && state.to_addrs@.contains(to@)),
        r matches Ok((resp, log)) ==> {
            &&& is_send_reply(resp, to@, coins@, resp.events@[0])
            &&& is_bank_send_event(resp.events@[0], coins@, sender@)
            &&& log.block_height == block_height
            &&& log.sender_addr@ == sender@
            &&& is_bank_send_event(log.event, coins@, sender@)
        },
{
    if !state.perms.has(sender) {
        return Err(ContractError::NoOperatorPerms { addr: String::from_str(sender) });
    }
    assert_not_halted(state.is_halted)?;
    if !state.to_addrs.contains(to.as_str()) {
        return Err(ContractError::ToAddrNotAllowed { to_addr: to });
    }
    let event = event_bank_send(&coins, sender);
    let log = Log {
        block_height,
        sender_addr: String::from_str(sender),
        event: event_bank_send(&coins, sender),
    };
    let resp = send_reply(to, coins, event);
    Ok((resp, log))
}

/// Flips the halt switch of the operators; only the owner may.
pub fn toggle_halt(state: &mut BrokerState, sender: &str) -> (r: Result<Response, ContractError>)
    ensures
        !old(state).perms.is_owner_spec(sender@) ==> (r == Err::<Response, ContractError>(ContractError::Ownership(owner_error(old(state).perms.owner)))
            && *final(state) == *old(state)),
        old(state).perms.is_owner_spec(sender@) ==> {
            &&& r matches Ok(resp) && resp.messages@.len() == 0 && resp.events@.len() == 1
                && resp.events@[0].ty@ == "broker_bank/toggle_halt"@
                && resp.events@[0].attributes@[0].value == AttrValue::Flag(final(state).is_halted)
            &&& final(state).is_halted == !old(state).is_halted
            &&& final(state).perms == old(state).perms
            &&& final(state).to_addrs == old(state).to_addrs
        },
{
    match assert_owner(&state.perms.owner, sender) {
        Err(e) => return Err(ContractError::Ownership(e)),
        Ok(()) => {},
    }
    state.is_halted = !state.is_halted;
    let mut events: Vec<Event> = Vec::new();
    events.push(event_toggle_halt(state.is_halted));
    Ok(Response { messages: Vec::new(), attributes: Vec::new(), events })
}

/// `ev` is the event of an operator edit `action` of `address`.
pub open spec fn is_edit_event(ev: Event, action: Seq<char>, address: Seq<char>) -> bool {
    &&& ev.ty@ == "broker_bank/edit_opers"@
    &&& ev.attributes@.len() == 2
    &&& ev.attributes@[0].key@ == "action"@
    &&& ev.attributes@[0].value matches AttrValue::Text(t) && t@ == action
    &&& ev.attributes@[1].key@ == "address"@
    &&& ev.attributes@[1].value matches AttrValue::Text(t) && t@ == address
}

/// The event of an operator edit, as logged.
pub fn event_edit_opers(action: &str, address: &str) -> (r: Event)
    ensures
        is_edit_event(r, action@, address@),
{
    let mut attributes: Vec<Attribute> = Vec::new();
    attributes.push(attr_text("action", String::from_str(action)));
    attributes.push(attr_text("address", String::from_str(address)));
    Event { ty: String::from_str("broker_bank/edit_opers"), attributes }
}

/// `log` records the operator edit `action` of `address` by `sender` at
/// `block_height`.
pub open spec fn is_edit_log(log: Log, block_height: u64, sender: Seq<char>, action: Seq<char>, address: Seq<char>) -> bool {
    &&& log.block_height == block_height
    &&& log.sender_addr@ == sender
    &&& is_edit_event(log.event, action, address)
}

/// Adds or removes an operator; only the owner may. The edit is logged at
/// the given block height.
///
/// `checked_addr` is what the chain's address check made of the address to
/// add: the address, or why it is not valid. It is read for `AddOper` only.
pub fn edit_opers(
    state: &mut BrokerState,
    sender: &str,
    action: Action,
    checked_addr: Result<String, String>,
    block_height: u64,
) -> (r: Result<(Response, Log), ContractError>)
    requires
        old(state).wf(),
    ensures
        final(state).wf(),
        final(state).perms.owner == old(state).perms.owner,
        final(state).to_addrs == old(state).to_addrs,
        final(state).is_halted == old(state).is_halted,
        r is Err ==> *final(state) == *old(state),
        !old(state).perms.is_owner_spec(sender@) ==> r == Err::<(Response, Log), ContractError>(
            ContractError::Ownership(owner_error(old(state).perms.owner)),
        ),
        old(state).perms.is_owner_spec(sender@) ==> match action {
            Action::AddOper { address } => match checked_addr {
                Err(m) => r == Err::<(Response, Log), ContractError>(ContractError::Std(m)),
                Ok(a) => r matches Ok((resp, log)) && is_edit_reply(resp, "add_operator"@, address@)
                    && is_edit_log(log, block_height, sender@, "add_operator"@, address@)
                    && final(state).perms.operators@ == old(state).perms.operators@.insert(a@),
            },
            Action::RemoveOper { address } => r matches Ok((resp, log)) && is_edit_reply(
                resp,
                "remove_operator"@,
                address@,
            ) && is_edit_log(log, block_height, sender@, "remove_operator"@, address@)
                && final(state).perms.operators@ == old(state).perms.operators@.remove(address@),
        },
{
    match assert_owner(&state.perms.owner, sender) {
        Err(e) => return Err(ContractError::Ownership(e)),
        Ok(()) => {},
    }
    match action {
        Action::AddOper { address } => {
            let a = match checked_addr {
                Err(m) => return Err(ContractError::Std(m)),
                Ok(a) => a,
            };
            state.perms.operators.insert(a);
            let log = Log {
                block_height,
                sender_addr: String::from_str(sender),
                event: event_edit_opers("add_operator", address.as_str()),
            };
            Ok((edit_reply("add_operator", address), log))
        },
        Action::RemoveOper { address } => {
            state.perms.operators.remove(address.as_str());
            let log = Log {
                block_height,
                sender_addr: String::from_str(sender),
                event: event_edit_opers("remove_operator", address.as_str()),
            };
            Ok((edit_reply("remove_operator", address), log))
        },
    }
}

/// A reply with no message and the two attributes of an operator edit.
pub open spec fn is_edit_reply(r: Response, action: Seq<char>, address: Seq<char>) -> bool {
    &&& r.messages@.len() == 0
    &&& r.events@.len() == 0
    &&& r.attributes@.len() == 2
    &&& r.attributes@[0].key@ == "action"@
    &&& r.attributes@[0].value matches AttrValue::Text(t) && t@ == action
    &&& r.attributes@[1].key@ == "address"@
    &&& r.attributes@[1].value matches AttrValue::Text(t) && t@ == address
}

fn edit_reply(action: &str, address: String) -> (r: Response)
    ensures
        is_edit_reply(r, action@, address@),
{
    let mut attributes: Vec<Attribute> = Vec::new();
    attributes.push(attr_text("action", String::from_str(action)));
    attributes.push(attr_text("address", address));
    Response { messages: Vec::new(), attributes, events: Vec::new() }
}

/// The coins of `coins` whose denomination is in `denoms`, in order.
pub open spec fn coins_in(coins: Seq<Coin>, denoms: Set<Seq<char>>) -> Seq<Coin>
    decreases coins.len(),
{
    if coins.len() == 0 {
        Seq::empty()
    } else {
        let rest = coins_in(coins.drop_last(), denoms);
        if denoms.contains(coins.last().denom@) {
            rest.push(coins.last())
        } else {
            rest
        }
    }
}

/// A withdrawal in chosen denominations sends every coin of the balance
/// whose denomination is chosen, and only such coins of the balance.
pub proof fn law_withdraw_sends_every_chosen_coin(balances: Seq<Coin>, denoms: Set<Seq<char>>)
    ensures
        forall|i: int| 0 <= i < balances.len() && denoms.contains(balances[i].denom@)
            ==> #[trigger] coins_in(balances, denoms).contains(balances[i]),
        forall|j: int| 0 <= j < coins_in(balances, denoms).len()
            ==> denoms.contains((#[trigger] coins_in(balances, denoms)[j]).denom@)
            && balances.contains(coins_in(balances, denoms)[j]),
        coins_in(balances, denoms).len() <= balances.len(),
    decreases balances.len(),
{
    if balances.len() > 0 {
        let init = balances.drop_last();
        law_withdraw_sends_every_chosen_coin(init, denoms);
        let rest = coins_in(init, denoms);
        let x = balances.last();
        assert forall|i: int| 0 <= i < balances.len() && denoms.contains(balances[i].denom@)
            implies #[trigger] coins_in(balances, denoms).contains(balances[i]) by {
            if i < balances.len() - 1 {
                assert(balances[i] == init[i]);
                assert(rest.contains(init[i]));
                let k = choose|k: int| 0 <= k < rest.len() && rest[k] == init[i];
                assert(coins_in(balances, denoms)[k] == rest[k]);
            } else {
                assert(coins_in(balances, denoms)[rest.len() as int] == x);
            }
        }
        assert forall|j: int| 0 <= j < coins_in(balances, denoms).len()
            implies denoms.contains((#[trigger] coins_in(balances, denoms)[j]).denom@)
            && balances.contains(coins_in(balances, denoms)[j]) by {
            if j < rest.len() {
                assert(coins_in(balances, denoms)[j] == rest[j]);
                assert(init.contains(rest[j]));
                let k = choose|k: int| 0 <= k < init.len() && init[k] == rest[j];
                assert(balances[k] == init[k]);
            } else {
                assert(coins_in(balances, denoms)[j] == x);
                assert(balances[balances.len() - 1] == x);
            }
        }
    }
}

/// The coins chosen from two parts of a balance are those chosen from the
/// first part followed by those chosen from the second: the chosen coins
/// keep the order of the balance, each once.
pub proof fn law_withdraw_keeps_balance_order(a: Seq<Coin>, b: Seq<Coin>, denoms: Set<Seq<char>>)
    ensures
        coins_in(a + b, denoms) == coins_in(a, denoms) + coins_in(b, denoms),
        coins_in(Seq::<Coin>::empty(), denoms) == Seq::<Coin>::empty(),
        forall|c: Coin| #[trigger] coins_in(seq![c], denoms) == (if denoms.contains(c.denom@) {
            seq![c]
        } else {
            Seq::<Coin>::empty()
        }),
    decreases b.len(),
{
    assert forall|c: Coin| #[trigger] coins_in(seq![c], denoms) == (if denoms.contains(c.denom@) {
        seq![c]
    } else {
        Seq::<Coin>::empty()
    }) by {
        assert(seq![c].drop_last() =~= Seq::<Coin>::empty());
        assert(coins_in(Seq::<Coin>::empty(), denoms) == Seq::<Coin>::empty());
        assert(seq![c].last() == c);
        assert(Seq::<Coin>::empty().push(c) =~= seq![c]);
    }
    if b.len() == 0 {
        assert(a + b =~= a);
        assert(coins_in(a, denoms) + Seq::<Coin>::empty() =~= coins_in(a, denoms));
    } else {
        law_withdraw_keeps_balance_order(a, b.drop_last(), denoms);
        assert((a + b).drop_last() =~= a + b.drop_last());
        assert((a + b).last() == b.last());
        if denoms.contains(b.last().denom@) {
            assert(coins_in(a, denoms) + coins_in(b.drop_last(), denoms).push(b.last())
                =~= (coins_in(a, denoms) + coins_in(b.drop_last(), denoms)).push(b.last()));
        }
    }
}

/// Keeps the coins whose denomination is in `denoms`.
pub fn filter_coins(coins: &Vec<Coin>, denoms: &StringSet) -> (r: Vec<Coin>)
    ensures
        r@ == coins_in(coins@, denoms@),
{
    let mut r: Vec<Coin> = Vec::new();
    let mut i: usize = 0;
    while i < coins.len()
        invariant
            i <= coins@.len(),
            r@ == coins_in(coins@.subrange(0, i as int), denoms@),
        decreases coins.len() - i,
    {
        assert(coins@.subrange(0, i + 1).drop_last() =~= coins@.subrange(0, i as int));
        if denoms.contains(coins[i].denom.as_str()) {
            r.push(crate::common::coin_copy(&coins[i]));
        }
        i = i + 1;
    }
    assert(coins@.subrange(0, coins@.len() as int) =~= coins@);
    r
}

/// The recipient of a withdrawal: the given address, or else the sender.
pub open spec fn recipient(to: Option<String>, sender: Seq<char>) -> Seq<char> {
    match to {
        Some(t) => t@,
        None => sender,
    }
}

/// Withdraws the whole contract balance `balances`; only the owner may.
/// The withdrawal is logged at the given block height.
pub fn withdraw_all(
    state: &BrokerState,
    sender: &str,
    to: Option<String>,
    balances: Vec<Coin>,
    block_height: u64,
) -> (r: Result<(Response, Log), ContractError>)
    ensures
        !state.perms.is_owner_spec(sender@) ==> r == Err::<(Response, Log), ContractError>(ContractError::Ownership(owner_error(state.perms.owner))),
        state.perms.is_owner_spec(sender@) ==> (r matches Ok((resp, log)) && {
            let to_addr = recipient(to, sender@);
            &&& is_send_reply(resp, to_addr, balances@, resp.events@[0])
            &&& is_withdraw_event(resp.events@[0], balances@, to_addr)
            &&& log.block_height == block_height
            &&& log.sender_addr@ == sender@
            &&& is_withdraw_event(log.event, balances@, to_addr)
        }),
{
    match assert_owner(&state.perms.owner, sender) {
        Err(e) => return Err(ContractError::Ownership(e)),
        Ok(()) => {},
    }
    let to_addr = match to {
        Some(t) => t,
        None => String::from_str(sender),
    };
    let event = event_withdraw(&balances, to_addr.as_str());
    let log = Log {
        block_height,
        sender_addr: String::from_str(sender),
        event: event_withdraw(&balances, to_addr.as_str()),
    };
    Ok((send_reply(to_addr, balances, event), log))
}

/// Withdraws the part of the contract balance `balances` in the given
/// denominations; only the owner may. The withdrawal is logged.
pub fn withdraw(
    state: &BrokerState,
    sender: &str,
    to: Option<String>,
    denoms: &StringSet,
    balances: &Vec<Coin>,
    block_height: u64,
) -> (r: Result<(Response, Log), ContractError>)
    ensures
        !state.perms.is_owner_spec(sender@) ==> r == Err::<(Response, Log), ContractError>(ContractError::Ownership(owner_error(state.perms.owner))),
        state.perms.is_owner_spec(sender@) ==> (r matches Ok((resp, log)) && {
            let to_addr = recipient(to, sender@);
            let sent = coins_in(balances@, denoms@);
            &&& is_send_reply(resp, to_addr, sent, resp.events@[0])
            &&& is_withdraw_event(resp.events@[0], sent, to_addr)
            &&& log.block_height == block_height
            &&& log.sender_addr@ == sender@
            &&& is_withdraw_event(log.event, sent, to_addr)
        }),
{
    match assert_owner(&state.perms.owner, sender) {
        Err(e) => return Err(ContractError::Ownership(e)),
        Ok(()) => {},
    }
    let sent = filter_coins(balances, denoms);
    withdraw_all(state, sender, to, sent, block_height)
}

/// The permissions and the halt switch.
pub fn query_perms_status(state: &BrokerState) -> (r: PermsStatus)
    requires
        state.wf(),
    ensures
        r.is_halted == state.is_halted,
        r.perms.owner == state.perms.owner,
        r.perms.operators@ == state.perms.operators@,
        r.perms.wf(),
{
    PermsStatus { is_halted: state.is_halted, perms: state.perms.copy() }
}

} // verus!
