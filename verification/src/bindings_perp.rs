//! The perp bindings contract: the sudoers (an admin and members) may send
//! perp-module messages on behalf of the contract, and the admin may claim
//! the contract's funds.
use vstd::prelude::*;

use crate::common::{attr_text, coin_copy, coins_copy, str_eq, AttrValue, Attribute, Coin, CosmosMsg, StringSet};

verus! {

/// The admin and the members allowed to use the contract.
#[derive(Debug)]
pub struct Sudoers {
    pub members: StringSet,
    pub admin: String,
}

/// The sudoers, as queried.
#[derive(Debug)]
pub struct SudoersQueryResponse {
    pub sudoers: Sudoers,
}

/// The arguments of instantiation: the admin, or else the sender.
#[derive(Debug)]
pub struct InitMsg {
    pub admin: Option<String>,
}

/// A position to liquidate.
#[derive(Debug)]
pub struct LiquidationArgs {
    pub pair: String,
    pub trader: String,
}

/// A call of the contract. Decimal amounts are in atomics (1e-18).
#[derive(Debug)]
pub enum ExecuteMsg {
    MarketOrder { pair: String, is_long: bool, quote_amount: u128, leverage: u128, base_amount_limit: u128 },
    ClosePosition { pair: String },
    AddMargin { pair: String, margin: Coin },
    RemoveMargin { pair: String, margin: Coin },
    MultiLiquidate { pair: String, liquidations: Vec<LiquidationArgs> },
    DonateToInsuranceFund { donation: Coin },
    Claim { funds: Option<Coin>, claim_all: Option<bool>, to: String },
    NoOp {},
}

/// The module a custom message is routed to.
#[derive(Debug, PartialEq, Eq, Structural)]
pub enum NibiruRoute {
    Perp,
    NoOp,
}

/// A custom chain message: a call routed to a chain module.
#[derive(Debug)]
pub struct NibiruExecuteMsg {
    pub route: NibiruRoute,
    pub msg: ExecuteMsg,
}

/// A message of the contract's reply: a custom one or a standard one.
#[derive(Debug)]
pub enum PerpMsg {
    Custom(NibiruExecuteMsg),
    Std(CosmosMsg),
}

/// The reply of the contract.
#[derive(Debug)]
pub struct PerpResponse {
    pub messages: Vec<PerpMsg>,
    pub attributes: Vec<Attribute>,
}

/// Why a call was refused.
#[derive(Debug)]
pub enum PerpError {
    /// The sender is not the admin.
    NotAdmin { sender: String },
    /// The sender is not a member of the sudoers.
    NotMember { sender: String },
    /// `claim_all` was given as `false`.
    ClaimAllFalse,
    /// Neither `funds` nor `claim_all` was given.
    ClaimArgsMissing,
}

impl PerpError {
    /// The text of the error.
    pub open spec fn message_text(&self) -> Seq<char> {
        match self {
            PerpError::NotAdmin { sender } => "unauthorized : sender "@ + sender@ + " is not an admin"@,
            PerpError::NotMember { sender } => "unauthorized : sender "@ + sender@ + " is not a sudoers member"@,
            PerpError::ClaimAllFalse =>
                "setting 'claim_all' to false causes an error: try removing claim_all as an argument entirely."@,
            PerpError::ClaimArgsMissing => "either the 'funds' or 'claim_all' arguments must be specified"@,
        }
    }

    /// The message of the error.
    pub fn message(&self) -> (r: String)
        ensures
            r@ == self.message_text(),
    {
        match self {
            PerpError::NotAdmin { sender } => String::from_str("unauthorized : sender ").concat(sender.as_str()).concat(
                " is not an admin",
            ),
            PerpError::NotMember { sender } => String::from_str("unauthorized : sender ").concat(sender.as_str()).concat(
                " is not a sudoers member",
            ),
            PerpError::ClaimAllFalse => String::from_str(
                "setting 'claim_all' to false causes an error: try removing claim_all as an argument entirely.",
            ),
            PerpError::ClaimArgsMissing => String::from_str(
                "either the 'funds' or 'claim_all' arguments must be specified",
            ),
        }
    }
}

impl Sudoers {
    pub open spec fn wf(&self) -> bool {
        self.members.wf()
    }

    /// Whether `addr` is a member or the admin.
    pub fn has(&self, addr: &str) -> (r: bool)
        ensures
            r == (self.members@.contains(addr@) || self.admin@ == addr@),
    {
        self.members.contains(addr) || str_eq(self.admin.as_str(), addr)
    }

    /// Whether `addr` is the admin.
    pub fn is_admin(&self, addr: &str) -> (r: bool)
        ensures
            r == (self.admin@ == addr@),
    {
        str_eq(self.admin.as_str(), addr)
    }

    /// Whether `addr` is a member.
    pub fn is_member(&self, addr: &str) -> (r: bool)
        ensures
            r == self.members@.contains(addr@),
    {
        self.members.contains(addr)
    }
}

/// The sudoers of a new contract, whose admin is the given one or else the
/// sender, and who is also its only member; with the reply.
pub fn instantiate(sender: &str, msg: InitMsg) -> (r: (Sudoers, PerpResponse))
    ensures
        r.0.wf(),
        r.0.admin@ == (match msg.admin {
            Some(a) => a@,
            None => sender@,
        }),
        r.0.members@ == Set::<Seq<char>>::empty().insert(r.0.admin@),
        r.1.messages@.len() == 0,
        r.1.attributes@.len() == 2,
        r.1.attributes@[0].key@ == "action"@,
        r.1.attributes@[0].value matches AttrValue::Text(t) && t@ == "instantiate"@,
        r.1.attributes@[1].key@ == "owner"@,
        r.1.attributes@[1].value matches AttrValue::Text(t) && t@ == sender@,
{
    let admin = match msg.admin {
        Some(a) => a,
        None => String::from_str(sender),
    };
    let mut members = StringSet::new();
    members.insert(admin.clone());
    let mut attributes: Vec<Attribute> = Vec::new();
    attributes.push(attr_text("action", String::from_str("instantiate")));
    attributes.push(attr_text("owner", String::from_str(sender)));
    (Sudoers { members, admin }, PerpResponse { messages: Vec::new(), attributes })
}

/// What a sender may do.
#[derive(Debug)]
pub struct CanExecute {
    pub is_admin: bool,
    pub is_member: bool,
    pub sender: String,
}

impl CanExecute {
    /// Errors unless the sender is the admin.
    pub fn check_admin(&self) -> (r: Result<(), PerpError>)
        ensures
            self.is_admin <==> r is Ok,
            !self.is_admin ==> (r matches Err(PerpError::NotAdmin { sender }) && sender@ == self.sender@),
    {
        if self.is_admin {
            Ok(())
        } else {
            Err(PerpError::NotAdmin { sender: self.sender.clone() })
        }
    }

    /// Errors unless the sender is a member of the sudoers.
    pub fn check_member(&self) -> (r: Result<(), PerpError>)
        ensures
            self.is_member <==> r is Ok,
            !self.is_member ==> (r matches Err(PerpError::NotMember { sender }) && sender@ == self.sender@),
    {
        if self.is_member {
            Ok(())
        } else {
            Err(PerpError::NotMember { sender: self.sender.clone() })
        }
    }
}

/// The rights of `sender` under `sudoers`.
pub fn check_can_execute(sudoers: &Sudoers, sender: &str) -> (r: CanExecute)
    ensures
        r.is_admin == (sudoers.admin@ == sender@),
        r.is_member == sudoers.members@.contains(sender@),
        r.sender@ == sender@,
{
    CanExecute {
        is_admin: sudoers.is_admin(sender),
        is_member: sudoers.is_member(sender),
        sender: String::from_str(sender),
    }
}

/// A reply carrying the one custom message `m`.
pub fn nibiru_msg_to_cw_response(m: NibiruExecuteMsg) -> (r: PerpResponse)
    ensures
        r.messages@ == seq![PerpMsg::Custom(m)],
        r.attributes@.len() == 0,
{
    let mut messages: Vec<PerpMsg> = Vec::new();
    messages.push(PerpMsg::Custom(m));
    PerpResponse { messages, attributes: Vec::new() }
}

impl NibiruExecuteMsg {
    /// A market order routed to the perp module.
    pub fn market_order(pair: String, is_long: bool, quote_amount: u128, leverage: u128, base_amount_limit: u128) -> (r: NibiruExecuteMsg)
        ensures
            r == (NibiruExecuteMsg { route: NibiruRoute::Perp, msg: ExecuteMsg::MarketOrder { pair, is_long, quote_amount, leverage, base_amount_limit } }),
    {
        NibiruExecuteMsg { route: NibiruRoute::Perp, msg: ExecuteMsg::MarketOrder { pair, is_long, quote_amount, leverage, base_amount_limit } }
    }

    /// The close of a position routed to the perp module.
    pub fn close_position(pair: String) -> (r: NibiruExecuteMsg)
        ensures
            r == (NibiruExecuteMsg { route: NibiruRoute::Perp, msg: ExecuteMsg::ClosePosition { pair } }),
    {
        NibiruExecuteMsg { route: NibiruRoute::Perp, msg: ExecuteMsg::ClosePosition { pair } }
    }

    /// A margin addition routed to the perp module.
    pub fn add_margin(pair: String, margin: Coin) -> (r: NibiruExecuteMsg)
        ensures
            r == (NibiruExecuteMsg { route: NibiruRoute::Perp, msg: ExecuteMsg::AddMargin { pair, margin } }),
    {
        NibiruExecuteMsg { route: NibiruRoute::Perp, msg: ExecuteMsg::AddMargin { pair, margin } }
    }

    /// A margin removal routed to the perp module.
    pub fn remove_margin(pair: String, margin: Coin) -> (r: NibiruExecuteMsg)
        ensures
            r == (NibiruExecuteMsg { route: NibiruRoute::Perp, msg: ExecuteMsg::RemoveMargin { pair, margin } }),
    {
        NibiruExecuteMsg { route: NibiruRoute::Perp, msg: ExecuteMsg::RemoveMargin { pair, margin } }
    }

    /// Liquidations routed to the perp module.
    pub fn multi_liquidate(pair: String, liquidations: Vec<LiquidationArgs>) -> (r: NibiruExecuteMsg)
        ensures
            r == (NibiruExecuteMsg { route: NibiruRoute::Perp, msg: ExecuteMsg::MultiLiquidate { pair, liquidations } }),
    {
        NibiruExecuteMsg { route: NibiruRoute::Perp, msg: ExecuteMsg::MultiLiquidate { pair, liquidations } }
    }

    /// A donation to the insurance fund routed to the perp module.
    pub fn donate_to_insurance_fund(donation: Coin) -> (r: NibiruExecuteMsg)
        ensures
            r == (NibiruExecuteMsg { route: NibiruRoute::Perp, msg: ExecuteMsg::DonateToInsuranceFund { donation } }),
    {
        NibiruExecuteMsg { route: NibiruRoute::Perp, msg: ExecuteMsg::DonateToInsuranceFund { donation } }
    }

    /// The no-op message, routed nowhere.
    pub fn no_op() -> (r: NibiruExecuteMsg)
        ensures
            r == (NibiruExecuteMsg { route: NibiruRoute::NoOp, msg: ExecuteMsg::NoOp {} }),
    {
        NibiruExecuteMsg { route: NibiruRoute::NoOp, msg: ExecuteMsg::NoOp {} }
    }
}

/// The claim of the admin: with `claim_all` set to true, the whole contract
/// balance `balances`; otherwise the given `funds`.
pub open spec fn claim_outcome(funds: Option<Coin>, claim_all: Option<bool>, balances: Seq<Coin>) -> Option<Seq<Coin>> {
    match claim_all {
        Some(true) => Some(balances),
        Some(false) => None,
        None => match funds {
            Some(c) => Some(seq![c]),
            None => None,
        },
    }
}

/// Claiming all sends the whole contract balance, coin for coin, whatever
/// funds are named; claiming given funds sends exactly those funds.
pub proof fn law_claim_all_sends_whole_balance(funds: Option<Coin>, balances: Seq<Coin>, c: Coin)
    ensures
        claim_outcome(funds, Some(true), balances) is Some,
        claim_outcome(funds, Some(true), balances)->0.len() == balances.len(),
        forall|i: int| 0 <= i < balances.len() ==> #[trigger] claim_outcome(funds, Some(true), balances)->0[i]
            == balances[i],
        claim_outcome(Some(c), None, balances) is Some,
        claim_outcome(Some(c), None, balances)->0.len() == 1,
        claim_outcome(Some(c), None, balances)->0[0] == c,
{
}

/// A reply that sends `amount` to `to` with the attribute of a claim.
pub open spec fn is_claim_reply(r: PerpResponse, to: Seq<char>, amount: Seq<Coin>) -> bool {
    &&& r.messages@.len() == 1
    &&& r.messages@[0] matches PerpMsg::Std(CosmosMsg::BankSend { to_address, amount: a })
        && to_address@ == to && a@ == amount
    &&& r.attributes@.len() == 1
    &&& r.attributes@[0].key@ == "execute_claim"@
    &&& r.attributes@[0].value matches AttrValue::Text(t) && t@ == "successfully claimed to "@ + to
}

/// The admin's claim of the contract's funds to `to`.
pub fn claim(
    check: &CanExecute,
    funds: Option<Coin>,
    claim_all: Option<bool>,
    to: String,
    balances: &Vec<Coin>,
) -> (r: Result<PerpResponse, PerpError>)
    ensures
        !check.is_admin ==> (r matches Err(PerpError::NotAdmin { sender }) && sender@ == check.sender@),
        check.is_admin && claim_all == Some(false) ==> r matches Err(PerpError::ClaimAllFalse),
        check.is_admin && claim_all is None && funds is None ==> r matches Err(PerpError::ClaimArgsMissing),
        r is Ok <==> (check.is_admin && claim_outcome(funds, claim_all, balances@) is Some),
        r matches Ok(resp) ==> is_claim_reply(resp, to@, claim_outcome(funds, claim_all, balances@)->0),
        check.is_admin && claim_all == Some(true) ==> (r matches Ok(resp)
            && resp.messages@[0] matches PerpMsg::Std(CosmosMsg::BankSend { amount, .. }) && amount@ == balances@),
{
    check.check_admin()?;
    let amount: Vec<Coin> = match claim_all {
        Some(v) => {
            if !v {
                return Err(PerpError::ClaimAllFalse);
            }
            coins_copy(balances)
        },
        None => match funds {
            Some(c) => {
                let mut a: Vec<Coin> = Vec::new();
                a.push(c);
                a
            },
            None => return Err(PerpError::ClaimArgsMissing),
        },
    };
    let text = String::from_str("successfully claimed to ").concat(to.as_str());
    let mut attributes: Vec<Attribute> = Vec::new();
    attributes.push(attr_text("execute_claim", text));
    let mut messages: Vec<PerpMsg> = Vec::new();
    messages.push(PerpMsg::Std(CosmosMsg::BankSend { to_address: to, amount }));
    Ok(PerpResponse { messages, attributes })
}

/// What a call by a member routes to the perp module (all calls but claims).
pub open spec fn routed(msg: ExecuteMsg) -> bool {
    !(msg is Claim)
}

/// Handles a call of `sender`. Members may send the perp calls, which are
/// routed to the perp module as they are (the no-op to no module, and by
/// anyone); only the admin may claim funds from `balances`.
pub fn execute(sudoers: &Sudoers, sender: &str, balances: &Vec<Coin>, msg: ExecuteMsg) -> (r: Result<PerpResponse, PerpError>)
    ensures
        match msg {
            ExecuteMsg::Claim { funds, claim_all, to } => {
                &&& !(sudoers.admin@ == sender@) ==> (r matches Err(PerpError::NotAdmin { sender: s }) && s@ == sender@)
                &&& r is Ok <==> (sudoers.admin@ == sender@ && claim_outcome(funds, claim_all, balances@) is Some)
                &&& (r matches Ok(resp) ==> is_claim_reply(resp, to@, claim_outcome(funds, claim_all, balances@)->0))
                &&& (sudoers.admin@ == sender@ && claim_all == Some(false)) ==> (r matches Err(PerpError::ClaimAllFalse))
                &&& (sudoers.admin@ == sender@ && claim_all is None && funds is None) ==> (r matches Err(PerpError::ClaimArgsMissing))
            },
            ExecuteMsg::NoOp {} => r matches Ok(resp) && resp.messages@ == seq![
                PerpMsg::Custom(NibiruExecuteMsg { route: NibiruRoute::NoOp, msg: ExecuteMsg::NoOp {} })
            ] && resp.attributes@.len() == 0,
            _ => {
                &&& !sudoers.members@.contains(sender@) ==> (r matches Err(PerpError::NotMember { sender: s }) && s@ == sender@)
                &&& sudoers.members@.contains(sender@) ==> (r matches Ok(resp)
                    && resp.messages@ == seq![PerpMsg::Custom(NibiruExecuteMsg { route: NibiruRoute::Perp, msg })]
                    && resp.attributes@.len() == 0)
            },
        },
{
    let can_execute = check_can_execute(sudoers, sender);
    match msg {
        ExecuteMsg::Claim { funds, claim_all, to } => claim(&can_execute, funds, claim_all, to, balances),
        ExecuteMsg::NoOp {} => Ok(nibiru_msg_to_cw_response(NibiruExecuteMsg::no_op())),
        ExecuteMsg::MarketOrder { pair, is_long, quote_amount, leverage, base_amount_limit } => {
            can_execute.check_member()?;
            Ok(nibiru_msg_to_cw_response(NibiruExecuteMsg::market_order(pair, is_long, quote_amount, leverage, base_amount_limit)))
        },
        ExecuteMsg::ClosePosition { pair } => {
            can_execute.check_member()?;
            Ok(nibiru_msg_to_cw_response(NibiruExecuteMsg::close_position(pair)))
        },
        ExecuteMsg::AddMargin { pair, margin } => {
            can_execute.check_member()?;
            Ok(nibiru_msg_to_cw_response(NibiruExecuteMsg::add_margin(pair, margin)))
        },
        ExecuteMsg::RemoveMargin { pair, margin } => {
            can_execute.check_member()?;
            Ok(nibiru_msg_to_cw_response(NibiruExecuteMsg::remove_margin(pair, margin)))
        },
        ExecuteMsg::MultiLiquidate { pair, liquidations } => {
            can_execute.check_member()?;
            Ok(nibiru_msg_to_cw_response(NibiruExecuteMsg::multi_liquidate(pair, liquidations)))
        },
        ExecuteMsg::DonateToInsuranceFund { donation } => {
            can_execute.check_member()?;
            Ok(nibiru_msg_to_cw_response(NibiruExecuteMsg::donate_to_insurance_fund(donation)))
        },
    }
}

} // verus!
