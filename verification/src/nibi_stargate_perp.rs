//! The stargate perp contract: like the perp bindings, the sudoers may
//! trade perps on behalf of the contract, here through the chain's perp
//! module messages sent by the contract itself; the admin may claim funds.
use vstd::prelude::*;

use crate::bindings_perp::{check_can_execute, claim, claim_outcome, is_claim_reply, PerpError, Sudoers};
use crate::common::{AttrValue, Attribute, Coin, CosmosMsg};

verus! {

/// The arguments of instantiation: the admin, or else the sender.
#[derive(Debug)]
pub struct InitMsg {
    pub admin: Option<String>,
}

/// A position to liquidate.
#[derive(Debug)]
pub struct LiquidationArgs {
    pub pair: String,
    pub trader: String,
}

/// The sudoers, as queried.
#[derive(Debug)]
pub struct SudoersQueryResponse {
    pub sudoers: Sudoers,
}

/// A call of the contract. Decimal amounts are in atomics (1e-18).
#[derive(Debug)]
pub enum ExecuteMsg {
    MarketOrder { pair: String, is_long: bool, quote_amount: u128, leverage: u128, base_amount_limit: u128 },
    ClosePosition { pair: String },
    AddMargin { pair: String, margin: Coin },
    RemoveMargin { pair: String, margin: Coin },
    MultiLiquidate { liquidations: Vec<LiquidationArgs> },
    DonateToInsuranceFund { donation: Coin },
    Claim { funds: Option<Coin>, claim_all: Option<bool>, to: String },
}

/// The side of a market order.
#[derive(Debug, PartialEq, Eq, Structural)]
pub enum Direction {
    Long,
    Short,
}

/// A perp-module message sent by the contract (`sender`).
#[derive(Debug)]
pub enum PerpModuleMsg {
    MarketOrder { sender: String, pair: String, side: Direction, quote_asset_amount: u128, leverage: u128, base_asset_amount_limit: u128 },
    ClosePosition { sender: String, pair: String },
    AddMargin { sender: String, pair: String, margin: Coin },
    RemoveMargin { sender: String, pair: String, margin: Coin },
    MultiLiquidate { sender: String, liquidations: Vec<LiquidationArgs> },
    DonateToEcosystemFund { sender: String, donation: Coin },
}

/// A message of the contract's reply.
#[derive(Debug)]
pub enum StargateMsg {
    Perp(PerpModuleMsg),
    Std(CosmosMsg),
}

/// The reply of the contract.
#[derive(Debug)]
pub struct StargateResponse {
    pub messages: Vec<StargateMsg>,
    pub attributes: Vec<Attribute>,
}

/// The perp-module message that a member's call becomes, sent as `sender`.
pub open spec fn module_msg(msg: ExecuteMsg, sender: String) -> PerpModuleMsg
    recommends
        !(msg is Claim),
{
    match msg {
        ExecuteMsg::MarketOrder { pair, is_long, quote_amount, leverage, base_amount_limit } =>
            PerpModuleMsg::MarketOrder {
                sender,
                pair,
                side: if is_long { Direction::Long } else { Direction::Short },
                quote_asset_amount: quote_amount,
                leverage,
                base_asset_amount_limit: base_amount_limit,
            },
        ExecuteMsg::ClosePosition { pair } => PerpModuleMsg::ClosePosition { sender, pair },
        ExecuteMsg::AddMargin { pair, margin } => PerpModuleMsg::AddMargin { sender, pair, margin },
        ExecuteMsg::RemoveMargin { pair, margin } => PerpModuleMsg::RemoveMargin { sender, pair, margin },
        ExecuteMsg::MultiLiquidate { liquidations } => PerpModuleMsg::MultiLiquidate { sender, liquidations },
        ExecuteMsg::DonateToInsuranceFund { donation } => PerpModuleMsg::DonateToEcosystemFund { sender, donation },
        ExecuteMsg::Claim { .. } => arbitrary(),
    }
}

fn module_reply(m: PerpModuleMsg) -> (r: StargateResponse)
    ensures
        r.messages@ == seq![StargateMsg::Perp(m)],
        r.attributes@.len() == 0,
{
    let mut messages: Vec<StargateMsg> = Vec::new();
    messages.push(StargateMsg::Perp(m));
    StargateResponse { messages, attributes: Vec::new() }
}

/// Handles a call of `sender`: members' trading calls become perp-module
/// messages sent by the contract (`contract_addr`); only the admin may
/// claim funds from the contract balance `balances`.
pub fn execute(sudoers: &Sudoers, sender: &str, contract_addr: String, balances: &Vec<Coin>, msg: ExecuteMsg) -> (r: Result<StargateResponse, PerpError>)
    ensures
        match msg {
            ExecuteMsg::Claim { funds, claim_all, to } => {
                &&& !(sudoers.admin@ == sender@) ==> (r matches Err(PerpError::NotAdmin { sender: s }) && s@ == sender@)
                &&& sudoers.admin@ == sender@ && claim_all == Some(false) ==> (r matches Err(PerpError::ClaimAllFalse))
                &&& sudoers.admin@ == sender@ && claim_all is None && funds is None ==> (r matches Err(
                    PerpError::ClaimArgsMissing,
                ))
                &&& r is Ok <==> (sudoers.admin@ == sender@ && claim_outcome(funds, claim_all, balances@) is Some)
                &&& (r matches Ok(resp) ==> {
                    &&& resp.messages@.len() == 1
                    &&& resp.messages@[0] matches StargateMsg::Std(CosmosMsg::BankSend { to_address, amount })
                        && to_address@ == to@ && amount@ == claim_outcome(funds, claim_all, balances@)->0
                    &&& resp.attributes@.len() == 1
                    &&& resp.attributes@[0].key@ == "execute_claim"@
                    &&& resp.attributes@[0].value matches AttrValue::Text(t) && t@ == "successfully claimed to "@ + to@
                })
            },
            _ => {
                &&& !sudoers.members@.contains(sender@) ==> (r matches Err(PerpError::NotMember { sender: s }) && s@ == sender@)
                &&& sudoers.members@.contains(sender@) ==> (r matches Ok(resp)
                    && resp.messages@ == seq![StargateMsg::Perp(module_msg(msg, contract_addr))]
                    && resp.attributes@.len() == 0)
            },
        },
{
    let can_execute = check_can_execute(sudoers, sender);
    match msg {
        ExecuteMsg::Claim { funds, claim_all, to } => {
            let resp = claim(&can_execute, funds, claim_all, to, balances)?;
            let mut messages: Vec<StargateMsg> = Vec::new();
            let mut m = resp.messages;
            let bank = m.pop();
            match bank {
                Some(crate::bindings_perp::PerpMsg::Std(c)) => messages.push(StargateMsg::Std(c)),
                _ => {},
            }
            Ok(StargateResponse { messages, attributes: resp.attributes })
        },
        ExecuteMsg::MarketOrder { pair, is_long, quote_amount, leverage, base_amount_limit } => {
            can_execute.check_member()?;
            let side = if is_long { Direction::Long } else { Direction::Short };
            Ok(module_reply(PerpModuleMsg::MarketOrder {
                sender: contract_addr,
                pair,
                side,
                quote_asset_amount: quote_amount,
                leverage,
                base_asset_amount_limit: base_amount_limit,
            }))
        },
        ExecuteMsg::ClosePosition { pair } => {
            can_execute.check_member()?;
            Ok(module_reply(PerpModuleMsg::ClosePosition { sender: contract_addr, pair }))
        },
        ExecuteMsg::AddMargin { pair, margin } => {
            can_execute.check_member()?;
            Ok(module_reply(PerpModuleMsg::AddMargin { sender: contract_addr, pair, margin }))
        },
        ExecuteMsg::RemoveMargin { pair, margin } => {
            can_execute.check_member()?;
            Ok(module_reply(PerpModuleMsg::RemoveMargin { sender: contract_addr, pair, margin }))
        },
        ExecuteMsg::MultiLiquidate { liquidations } => {
            can_execute.check_member()?;
            Ok(module_reply(PerpModuleMsg::MultiLiquidate { sender: contract_addr, liquidations }))
        },
        ExecuteMsg::DonateToInsuranceFund { donation } => {
            can_execute.check_member()?;
            Ok(module_reply(PerpModuleMsg::DonateToEcosystemFund { sender: contract_addr, donation }))
        },
    }
}

} // verus!
