//! The staking broker: operators of a broker-bank style contract delegate
//! the contract's tokens to validators in proportion to given shares; only
//! the owner undelegates.
use vstd::prelude::*;

use crate::broker_bank::{assert_not_halted, BrokerState, ContractError};
use crate::common::{attr_amount, attr_text, AttrValue, Attribute, Coin, CosmosMsg, Response, str_eq};
use crate::ownable::{assert_owner, owner_error};

verus! {

/// The share of the staked amount that goes to a validator.
#[derive(Debug)]
pub struct StakeMsg {
    pub share: u128,
    pub validator: String,
}

/// An amount to undelegate from a validator.
#[derive(Debug)]
pub struct UnstakeMsg {
    pub amount: u128,
    pub validator: String,
}

/// The admin and managers of the compounder.
#[derive(Debug)]
pub struct Whitelist {
    pub managers: Vec<String>,
    pub admin: String,
}

impl Whitelist {
    /// Whether `addr` is the admin.
    pub fn is_admin(&self, addr: &str) -> (r: bool)
        ensures
            r == (self.admin@ == addr@),
    {
        str_eq(self.admin.as_str(), addr)
    }

    /// Whether `addr` is a manager.
    pub fn is_manager(&self, addr: &str) -> (r: bool)
        ensures
            r == (exists|i: int| 0 <= i < self.managers@.len() && self.managers@[i]@ == addr@),
    {
        crate::common::vec_contains_str(&self.managers, addr)
    }
}

/// The sum of the shares.
pub open spec fn total_shares(msgs: Seq<StakeMsg>) -> int
    decreases msgs.len(),
{
    if msgs.len() == 0 {
        0
    } else {
        total_shares(msgs.drop_last()) + msgs.last().share
    }
}

/// What a validator receives of `amount` for `share` of `total` shares.
pub open spec fn portion(amount: u128, share: u128, total: int) -> int {
    (amount * share) / total
}

/// The delegations of a stake: for each validator with a nonzero portion,
/// the validator and its portion, in the order of the messages.
pub open spec fn stake_plan(msgs: Seq<StakeMsg>, amount: u128, total: int) -> Seq<(Seq<char>, int)>
    decreases msgs.len(),
{
    if msgs.len() == 0 {
        Seq::empty()
    } else {
        let rest = stake_plan(msgs.drop_last(), amount, total);
        let p = portion(amount, msgs.last().share, total);
        if p == 0 {
            rest
        } else {
            rest.push((msgs.last().validator@, p))
        }
    }
}

/// `m` delegates `amount` of unibi to `validator`.
pub open spec fn is_delegate(m: CosmosMsg, validator: Seq<char>, amount: int) -> bool {
    m matches CosmosMsg::Delegate { validator: v, amount: c } && v@ == validator && c.denom@
        == "unibi"@ && c.amount == amount
}

/// `m` undelegates `amount` of unibi from `validator`.
pub open spec fn is_undelegate(m: CosmosMsg, validator: Seq<char>, amount: int) -> bool {
    m matches CosmosMsg::Undelegate { validator: v, amount: c } && v@ == validator && c.denom@
        == "unibi"@ && c.amount == amount
}

/// `a` records a delegation of `amount` to `validator`.
pub open spec fn is_stake_attr(a: Attribute, validator: Seq<char>, amount: int) -> bool {
    &&& a.key@ == "stake"@
    &&& a.value matches AttrValue::TextAmount(v, n) && v@ == validator && n == amount
}

/// The delegation of `amount` unibi to `validator`.
pub fn build_stake_message(amount: u128, validator: String) -> (r: CosmosMsg)
    ensures
        is_delegate(r, validator@, amount as int),
{
    CosmosMsg::Delegate { validator, amount: Coin { denom: String::from_str("unibi"), amount } }
}

/// The undelegation of `amount` unibi from `validator`.
pub fn build_unstakes_messages(amount: u128, validator: String) -> (r: CosmosMsg)
    ensures
        is_undelegate(r, validator@, amount as int),
{
    CosmosMsg::Undelegate { validator, amount: Coin { denom: String::from_str("unibi"), amount } }
}

/// Delegates `amount` unibi to the validators in proportion to their
/// shares (rounding each portion down, leaving out validators whose portion
/// is zero); operators and the owner may, unless operators are halted.
pub fn stake(state: &BrokerState, sender: &str, stake_msgs: Vec<StakeMsg>, amount: u128) -> (r:
    Result<Response, ContractError>)
    requires
        state.perms.has_spec(sender@) && !state.is_halted ==> total_shares(stake_msgs@) <= u128::MAX,
        state.perms.has_spec(sender@) && !state.is_halted && total_shares(stake_msgs@) != 0 ==> forall|i: int|
            0 <= i < stake_msgs@.len() ==> amount * #[trigger] stake_msgs@[i].share <= u128::MAX,
    ensures
        !state.perms.has_spec(sender@) ==> (r matches Err(ContractError::NoOperatorPerms { addr })
            && addr@ == sender@),
        state.perms.has_spec(sender@) && state.is_halted ==> r matches Err(
            ContractError::OperationsHalted,
        ),
        state.perms.has_spec(sender@) && !state.is_halted && total_shares(stake_msgs@) == 0
            ==> (r matches Err(ContractError::Std(m)) && m@ == "total shares cannot be zero"@),
        r is Ok <==> (state.perms.has_spec(sender@) && !state.is_halted && total_shares(stake_msgs@)
            != 0),
        r matches Ok(resp) ==> {
            let plan = stake_plan(stake_msgs@, amount, total_shares(stake_msgs@));
            &&& resp.messages@.len() == plan.len()
            &&& forall|i: int|
                0 <= i < plan.len() ==> is_delegate(#[trigger] resp.messages@[i], plan[i].0, plan[i].1)
            &&& resp.attributes@.len() == 2 + plan.len()
            &&& resp.attributes@[0].key@ == "action"@
            &&& resp.attributes@[0].value matches AttrValue::Text(t) && t@ == "stake"@
            &&& resp.attributes@[1].key@ == "amount"@
            &&& resp.attributes@[1].value == AttrValue::Amount(amount)
            &&& forall|i: int|
                0 <= i < plan.len() ==> is_stake_attr(#[trigger] resp.attributes@[2 + i], plan[i].0, plan[i].1)
            &&& resp.events@.len() == 0
        },
{
    if !state.perms.has(sender) {
        return Err(ContractError::NoOperatorPerms { addr: String::from_str(sender) });
    }
    assert_not_halted(state.is_halted)?;
    let mut total: u128 = 0;
    let mut i: usize = 0;
    while i < stake_msgs.len()
        invariant
            i <= stake_msgs@.len(),
            total == total_shares(stake_msgs@.subrange(0, i as int)),
            total_shares(stake_msgs@) <= u128::MAX,
        decreases stake_msgs.len() - i,
    {
        assert(stake_msgs@.subrange(0, i + 1).drop_last() =~= stake_msgs@.subrange(0, i as int));
        proof {
            lemma_total_shares_prefix(stake_msgs@, i as int + 1);
        }
        total = total + stake_msgs[i].share;
        i = i + 1;
    }
    assert(stake_msgs@.subrange(0, stake_msgs@.len() as int) =~= stake_msgs@);
    if total == 0 {
        return Err(ContractError::Std(String::from_str("total shares cannot be zero")));
    }
    let ghost tot = total as int;
    let mut messages: Vec<CosmosMsg> = Vec::new();
    let mut attrs: Vec<Attribute> = Vec::new();
    let mut j: usize = 0;
    while j < stake_msgs.len()
        invariant
            j <= stake_msgs@.len(),
            total > 0,
            tot == total,
            forall|i: int| 0 <= i < stake_msgs@.len() ==> amount * #[trigger] stake_msgs@[i].share <= u128::MAX,
            ({
                let plan = stake_plan(stake_msgs@.subrange(0, j as int), amount, tot);
                &&& messages@.len() == plan.len()
                &&& attrs@.len() == plan.len()
                &&& forall|k: int| 0 <= k < plan.len() ==> is_delegate(#[trigger] messages@[k], plan[k].0, plan[k].1)
                &&& forall|k: int|
                    0 <= k < plan.len() ==> is_stake_attr(#[trigger] attrs@[k], plan[k].0, plan[k].1)
            }),
        decreases stake_msgs.len() - j,
    {
        assert(stake_msgs@.subrange(0, j + 1).drop_last() =~= stake_msgs@.subrange(0, j as int));
        let share = stake_msgs[j].share;
        let prod: u128 = amount * share;
        let to_delegate: u128 = prod / total;
        if to_delegate != 0 {
            messages.push(build_stake_message(to_delegate, stake_msgs[j].validator.clone()));
            attrs.push(Attribute {
                key: String::from_str("stake"),
                value: AttrValue::TextAmount(stake_msgs[j].validator.clone(), to_delegate),
            });
        }
        j = j + 1;
    }
    assert(stake_msgs@.subrange(0, stake_msgs@.len() as int) =~= stake_msgs@);
    let mut attributes: Vec<Attribute> = Vec::new();
    attributes.push(attr_text("action", String::from_str("stake")));
    attributes.push(attr_amount("amount", amount));
    let ghost head = attributes@;
    attributes.append(&mut attrs);
    Ok(Response { messages, attributes, events: Vec::new() })
}

proof fn lemma_total_shares_prefix(msgs: Seq<StakeMsg>, n: int)
    requires
        0 <= n <= msgs.len(),
    ensures
        0 <= total_shares(msgs.subrange(0, n)) <= total_shares(msgs),
    decreases msgs.len(),
{
    if msgs.len() > 0 {
        if n == msgs.len() {
            assert(msgs.subrange(0, n) =~= msgs);
            lemma_total_shares_prefix(msgs.drop_last(), n - 1);
        } else {
            assert(msgs.drop_last().subrange(0, n) =~= msgs.subrange(0, n));
            lemma_total_shares_prefix(msgs.drop_last(), n);
        }
    }
}

/// The total amount of a stake plan.
pub open spec fn plan_total(plan: Seq<(Seq<char>, int)>) -> int
    decreases plan.len(),
{
    if plan.len() == 0 {
        0
    } else {
        plan_total(plan.drop_last()) + plan.last().1
    }
}

proof fn lemma_floor_add(x: int, y: int, t: int)
    requires
        x >= 0,
        y >= 0,
        t > 0,
    ensures
        x / t + y / t <= (x + y) / t,
{
    assert(x / t + y / t <= (x + y) / t) by (nonlinear_arith)
        requires
            x >= 0,
            y >= 0,
            t > 0,
    {
        let qx = x / t;
        let qy = y / t;
        assert(qx * t <= x);
        assert(qy * t <= y);
        assert((qx + qy) * t <= x + y);
    }
}

proof fn lemma_plan_bound(msgs: Seq<StakeMsg>, amount: u128, t: int)
    requires
        t > 0,
    ensures
        0 <= plan_total(stake_plan(msgs, amount, t)) <= (amount * total_shares(msgs)) / t,
        total_shares(msgs) >= 0,
    decreases msgs.len(),
{
    if msgs.len() == 0 {
        assert((amount * 0) / t == 0) by (nonlinear_arith)
            requires
                t > 0,
        ;
    } else {
        let rest = msgs.drop_last();
        lemma_plan_bound(rest, amount, t);
        let s = msgs.last().share;
        let ts = total_shares(rest);
        let x = amount * ts;
        let y = amount * s;
        assert(x >= 0 && y >= 0 && amount * (ts + s) == x + y) by (nonlinear_arith)
            requires
                amount >= 0,
                ts >= 0,
                s >= 0,
                x == amount * ts,
                y == amount * s,
        ;
        lemma_floor_add(x, y, t);
        assert(y / t >= 0) by (nonlinear_arith)
            requires
                y >= 0,
                t > 0,
        ;
        assert(total_shares(msgs) == ts + s);
        let rp = stake_plan(rest, amount, t);
        let p = portion(amount, s, t);
        assert(p == y / t);
        if p != 0 {
            assert(rp.push((msgs.last().validator@, p)).drop_last() =~= rp);
            assert(plan_total(stake_plan(msgs, amount, t)) == plan_total(rp) + p);
        }
    }
}

/// A stake never delegates more than the staked amount in total.
pub proof fn law_stake_within_amount(msgs: Seq<StakeMsg>, amount: u128)
    requires
        total_shares(msgs) > 0,
    ensures
        plan_total(stake_plan(msgs, amount, total_shares(msgs))) <= amount,
{
    let t = total_shares(msgs);
    lemma_plan_bound(msgs, amount, t);
    assert((amount * t) / t == amount) by (nonlinear_arith)
        requires
            t > 0,
    ;
}

/// The undelegations of an unstake: the messages with a nonzero amount.
pub open spec fn unstake_plan(msgs: Seq<UnstakeMsg>) -> Seq<UnstakeMsg>
    decreases msgs.len(),
{
    if msgs.len() == 0 {
        Seq::empty()
    } else {
        let rest = unstake_plan(msgs.drop_last());
        if msgs.last().amount == 0 {
            rest
        } else {
            rest.push(msgs.last())
        }
    }
}

/// An unstake undelegates every nonzero amount asked for, whatever comes
/// before it, and nothing else: each message with a nonzero amount is in
/// the plan, and the plan holds only such messages.
pub proof fn law_unstake_every_nonzero(msgs: Seq<UnstakeMsg>)
    ensures
        forall|i: int| 0 <= i < msgs.len() && msgs[i].amount != 0 ==> #[trigger] unstake_plan(msgs).contains(msgs[i]),
        forall|j: int| 0 <= j < unstake_plan(msgs).len() ==> (#[trigger] unstake_plan(msgs)[j]).amount != 0
            && msgs.contains(unstake_plan(msgs)[j]),
    decreases msgs.len(),
{
    if msgs.len() > 0 {
        let init = msgs.drop_last();
        law_unstake_every_nonzero(init);
        let rest = unstake_plan(init);
        let x = msgs.last();
        assert forall|i: int| 0 <= i < msgs.len() && msgs[i].amount != 0
            implies #[trigger] unstake_plan(msgs).contains(msgs[i]) by {
            if i < msgs.len() - 1 {
                assert(msgs[i] == init[i]);
                assert(rest.contains(init[i]));
                let k = choose|k: int| 0 <= k < rest.len() && rest[k] == init[i];
                assert(unstake_plan(msgs)[k] == rest[k]);
            } else {
                assert(unstake_plan(msgs)[rest.len() as int] == x);
            }
        }
        assert forall|j: int| 0 <= j < unstake_plan(msgs).len()
            implies (#[trigger] unstake_plan(msgs)[j]).amount != 0 && msgs.contains(unstake_plan(msgs)[j]) by {
            if j < rest.len() {
                assert(unstake_plan(msgs)[j] == rest[j]);
                assert(init.contains(rest[j]));
                let k = choose|k: int| 0 <= k < init.len() && init[k] == rest[j];
                assert(msgs[k] == init[k]);
            } else {
                assert(unstake_plan(msgs)[j] == x);
                assert(msgs[msgs.len() - 1] == x);
            }
        }
    }
}

/// Unstaking two lists of messages in turn plans what unstaking them
/// together does: the plan keeps the order of the messages, each once,
/// and a single message is undelegated exactly when its amount is nonzero.
pub proof fn law_unstake_keeps_order(a: Seq<UnstakeMsg>, b: Seq<UnstakeMsg>)
    ensures
        unstake_plan(a + b) == unstake_plan(a) + unstake_plan(b),
        unstake_plan(Seq::<UnstakeMsg>::empty()) == Seq::<UnstakeMsg>::empty(),
        forall|m: UnstakeMsg| #[trigger] unstake_plan(seq![m]) == (if m.amount != 0 {
            seq![m]
        } else {
            Seq::<UnstakeMsg>::empty()
        }),
    decreases b.len(),
{
    assert forall|m: UnstakeMsg| #[trigger] unstake_plan(seq![m]) == (if m.amount != 0 {
        seq![m]
    } else {
        Seq::<UnstakeMsg>::empty()
    }) by {
        assert(seq![m].drop_last() =~= Seq::<UnstakeMsg>::empty());
        assert(unstake_plan(Seq::<UnstakeMsg>::empty()) == Seq::<UnstakeMsg>::empty());
        assert(seq![m].last() == m);
        assert(Seq::<UnstakeMsg>::empty().push(m) =~= seq![m]);
    }
    if b.len() == 0 {
        assert(a + b =~= a);
        assert(unstake_plan(a) + Seq::<UnstakeMsg>::empty() =~= unstake_plan(a));
    } else {
        law_unstake_keeps_order(a, b.drop_last());
        assert((a + b).drop_last() =~= a + b.drop_last());
        assert((a + b).last() == b.last());
        if b.last().amount != 0 {
            assert(unstake_plan(a) + unstake_plan(b.drop_last()).push(b.last())
                =~= (unstake_plan(a) + unstake_plan(b.drop_last())).push(b.last()));
        }
    }
}

/// Undelegates the nonzero amounts from their validators; only the owner may.
pub fn unstake(state: &BrokerState, sender: &str, unstake_msgs: Vec<UnstakeMsg>) -> (r: Result<
    Response,
    ContractError,
>)
    ensures
        !state.perms.is_owner_spec(sender@) ==> r == Err::<Response, ContractError>(ContractError::Ownership(owner_error(state.perms.owner))),
        state.perms.is_owner_spec(sender@) ==> (r matches Ok(resp) && {
            let plan = unstake_plan(unstake_msgs@);
            &&& resp.messages@.len() == plan.len()
            &&& forall|i: int|
                0 <= i < plan.len() ==> is_undelegate(
                    #[trigger] resp.messages@[i],
                    plan[i].validator@,
                    plan[i].amount as int,
                )
            &&& resp.attributes@.len() == 1
            &&& resp.attributes@[0].key@ == "action"@
            &&& resp.attributes@[0].value matches AttrValue::Text(t) && t@ == "unstake"@
            &&& resp.events@.len() == 0
        }),
{
    match assert_owner(&state.perms.owner, sender) {
        Err(e) => return Err(ContractError::Ownership(e)),
        Ok(()) => {},
    }
    let mut messages: Vec<CosmosMsg> = Vec::new();
    let mut i: usize = 0;
    while i < unstake_msgs.len()
        invariant
            i <= unstake_msgs@.len(),
            ({
                let plan = unstake_plan(unstake_msgs@.subrange(0, i as int));
                &&& messages@.len() == plan.len()
                &&& forall|k: int|
                    0 <= k < plan.len() ==> is_undelegate(
                        #[trigger] messages@[k],
                        plan[k].validator@,
                        plan[k].amount as int,
                    )
            }),
        decreases unstake_msgs.len() - i,
    {
        assert(unstake_msgs@.subrange(0, i + 1).drop_last() =~= unstake_msgs@.subrange(0, i as int));
        if unstake_msgs[i].amount != 0 {
            messages.push(build_unstakes_messages(unstake_msgs[i].amount, unstake_msgs[i].validator.clone()));
        }
        i = i + 1;
    }
    assert(unstake_msgs@.subrange(0, unstake_msgs@.len() as int) =~= unstake_msgs@);
    let mut attributes: Vec<Attribute> = Vec::new();
    attributes.push(attr_text("action", String::from_str("unstake")));
    Ok(Response { messages, attributes, events: Vec::new() })
}

} // verus!
