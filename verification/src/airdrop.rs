//! The airdrop campaign: an owner funds a campaign in the bond denomination,
//! the owner and managers allocate rewards to users out of the unallocated
//! funds, users claim their rewards, and the owner withdraws funds or,
//! with the managers, deactivates the campaign.
use vstd::prelude::*;

use crate::common::{
    attr_text, seq_has, str_eq, strings_copy, vec_contains_str, AttrValue, Attribute, Coin, CosmosMsg,
    Response, StrMap,
};

verus! {

/// The campaign.
#[derive(Debug)]
pub struct Campaign {
    pub campaign_name: String,
    pub campaign_description: String,
    pub unallocated_amount: u128,
    pub owner: String,
    pub managers: Vec<String>,
    pub is_active: bool,
}

/// The arguments of instantiation.
#[derive(Debug)]
pub struct InstantiateMsg {
    pub campaign_id: String,
    pub campaign_name: String,
    pub campaign_description: String,
    pub managers: Vec<String>,
}

/// A reward to allocate to a user.
#[derive(Debug)]
pub struct RewardUserRequest {
    pub user_address: String,
    pub amount: u128,
}

/// The outcome of one allocation.
#[derive(Debug)]
pub struct RewardUserResponse {
    pub user_address: String,
    pub success: bool,
    pub error_msg: String,
}

/// Why a call was refused.
#[derive(Debug, PartialEq, Eq, Structural)]
pub enum AirdropError {
    OnlyOneCoin,
    OnlyNativeTokens,
    Unauthorized,
    CampaignNotActive,
    NotEnoughCampaignFunds,
    UserPoolNotFound,
    OnlyOwnerCanWithdraw,
    NotEnoughContractFunds,
    UserRewardNotFound,
    /// The new contract version is not a semantic version.
    InvalidVersionFormat,
    /// The stored contract is another contract.
    WrongContractType,
    /// The stored version is not older than the new one.
    NewerVersion,
}

impl AirdropError {
    /// The text of the error.
    pub open spec fn message_text(&self) -> Seq<char> {
        match self {
            AirdropError::OnlyOneCoin => "Only one coin is allowed"@,
            AirdropError::OnlyNativeTokens => "Only native tokens are allowed"@,
            AirdropError::Unauthorized => "Unauthorized"@,
            AirdropError::CampaignNotActive => "Campaign is not active"@,
            AirdropError::NotEnoughCampaignFunds => "Not enough funds in the campaign"@,
            AirdropError::UserPoolNotFound => "User pool does not exist"@,
            AirdropError::OnlyOwnerCanWithdraw => "Only contract owner can withdraw"@,
            AirdropError::NotEnoughContractFunds => "Not enough funds in the contract"@,
            AirdropError::UserRewardNotFound => "User reward does not exist"@,
            AirdropError::InvalidVersionFormat => "Invalid contract version format"@,
            AirdropError::WrongContractType => "Can only upgrade from same contract type"@,
            AirdropError::NewerVersion => "Cannot upgrade from a newer contract version"@,
        }
    }

    /// The message of the error.
    pub fn message(&self) -> (r: String)
        ensures
            r@ == self.message_text(),
    {
        match self {
            AirdropError::OnlyOneCoin => String::from_str("Only one coin is allowed"),
            AirdropError::OnlyNativeTokens => String::from_str("Only native tokens are allowed"),
            AirdropError::Unauthorized => String::from_str("Unauthorized"),
            AirdropError::CampaignNotActive => String::from_str("Campaign is not active"),
            AirdropError::NotEnoughCampaignFunds => String::from_str("Not enough funds in the campaign"),
            AirdropError::UserPoolNotFound => String::from_str("User pool does not exist"),
            AirdropError::OnlyOwnerCanWithdraw => String::from_str("Only contract owner can withdraw"),
            AirdropError::NotEnoughContractFunds => String::from_str("Not enough funds in the contract"),
            AirdropError::UserRewardNotFound => String::from_str("User reward does not exist"),
            AirdropError::InvalidVersionFormat => String::from_str("Invalid contract version format"),
            AirdropError::WrongContractType => String::from_str("Can only upgrade from same contract type"),
            AirdropError::NewerVersion => String::from_str("Cannot upgrade from a newer contract version"),
        }
    }
}

/// The campaign and the rewards allocated to users and not yet claimed.
#[derive(Debug)]
pub struct AirdropState {
    pub campaign: Campaign,
    pub user_rewards: StrMap<u128>,
}

impl AirdropState {
    /// The rewards map is well formed, and no user's reward together with
    /// the unallocated funds exceeds what an amount can hold.
    pub open spec fn wf(&self) -> bool {
        &&& self.user_rewards.wf()
        &&& forall|u: Seq<char>|
            self.user_rewards@.contains_key(u) ==> self.user_rewards@[u]
                + self.campaign.unallocated_amount <= u128::MAX
    }
}

/// Whether `sender` may allocate rewards and deactivate the campaign.
pub open spec fn can_manage(c: Campaign, sender: Seq<char>) -> bool {
    c.owner@ == sender || seq_has(c.managers@, sender)
}

/// The reward `user` holds in `m` (zero when none).
pub open spec fn reward_of(m: Map<Seq<char>, u128>, user: Seq<char>) -> int {
    if m.contains_key(user) {
        m[user] as int
    } else {
        0
    }
}

/// `m` with `amount` added to the reward of `user`.
pub open spec fn credit(m: Map<Seq<char>, u128>, user: Seq<char>, amount: u128) -> Map<Seq<char>, u128> {
    m.insert(user, (reward_of(m, user) + amount) as u128)
}

/// `m` after the allocations `reqs`, in order.
pub open spec fn apply_rewards(m: Map<Seq<char>, u128>, reqs: Seq<RewardUserRequest>) -> Map<Seq<char>, u128>
    decreases reqs.len(),
{
    if reqs.len() == 0 {
        m
    } else {
        credit(apply_rewards(m, reqs.drop_last()), reqs.last().user_address@, reqs.last().amount)
    }
}

/// The total amount requested by `reqs`.
pub open spec fn total_requested(reqs: Seq<RewardUserRequest>) -> int
    decreases reqs.len(),
{
    if reqs.len() == 0 {
        0
    } else {
        total_requested(reqs.drop_last()) + reqs.last().amount
    }
}

/// A new campaign funded by the single coin sent, which must be of the bond
/// denomination; `sender` becomes its owner.
pub fn instantiate(sender: &str, funds: &Vec<Coin>, bond_denom: &str, msg: InstantiateMsg) -> (r: Result<(AirdropState, Response), AirdropError>)
    ensures
        funds@.len() != 1 ==> r == Err::<(AirdropState, Response), AirdropError>(AirdropError::OnlyOneCoin),
        funds@.len() == 1 && funds@[0].denom@ != bond_denom@ ==> r == Err::<(AirdropState, Response), AirdropError>(AirdropError::OnlyNativeTokens),
        r is Ok <==> (funds@.len() == 1 && funds@[0].denom@ == bond_denom@),
        r matches Ok((st, resp)) ==> {
            &&& st.wf()
            &&& st.campaign.campaign_name == msg.campaign_name
            &&& st.campaign.campaign_description == msg.campaign_description
            &&& st.campaign.owner@ == sender@
            &&& st.campaign.managers == msg.managers
            &&& st.campaign.unallocated_amount == funds@[0].amount
            &&& st.campaign.is_active
            &&& st.user_rewards@ == Map::<Seq<char>, u128>::empty()
            &&& resp.messages@.len() == 0
            &&& resp.attributes@.len() == 2
            &&& resp.attributes@[0].key@ == "method"@
            &&& resp.attributes@[0].value matches AttrValue::Text(t) && t@ == "instantiate"@
            &&& resp.attributes@[1].key@ == "owner"@
            &&& resp.attributes@[1].value matches AttrValue::Text(t) && t@ == sender@
        },
{
    if funds.len() != 1 {
        return Err(AirdropError::OnlyOneCoin);
    }
    if !str_eq(funds[0].denom.as_str(), bond_denom) {
        return Err(AirdropError::OnlyNativeTokens);
    }
    let campaign = Campaign {
        campaign_name: msg.campaign_name,
        campaign_description: msg.campaign_description,
        owner: String::from_str(sender),
        managers: msg.managers,
        unallocated_amount: funds[0].amount,
        is_active: true,
    };
    let mut attributes: Vec<Attribute> = Vec::new();
    attributes.push(attr_text("method", String::from_str("instantiate")));
    attributes.push(attr_text("owner", String::from_str(sender)));
    let st = AirdropState { campaign, user_rewards: StrMap::new() };
    Ok((st, Response { messages: Vec::new(), attributes, events: Vec::new() }))
}

proof fn lemma_total_prefix(reqs: Seq<RewardUserRequest>, n: int)
    requires
        0 <= n <= reqs.len(),
    ensures
        0 <= total_requested(reqs.subrange(0, n)) <= total_requested(reqs),
    decreases reqs.len(),
{
    if reqs.len() > 0 {
        if n == reqs.len() {
            assert(reqs.subrange(0, n) =~= reqs);
            lemma_total_prefix(reqs.drop_last(), n - 1);
        } else {
            assert(reqs.drop_last().subrange(0, n) =~= reqs.subrange(0, n));
            lemma_total_prefix(reqs.drop_last(), n);
        }
    }
}

proof fn lemma_credit_bound(m: Map<Seq<char>, u128>, reqs: Seq<RewardUserRequest>, unalloc: int)
    requires
        forall|u: Seq<char>| m.contains_key(u) ==> m[u] + unalloc <= u128::MAX,
        0 <= total_requested(reqs) <= unalloc <= u128::MAX,
    ensures
        forall|u: Seq<char>| #[trigger] apply_rewards(m, reqs).contains_key(u) ==> apply_rewards(m, reqs)[u]
            + unalloc - total_requested(reqs) <= u128::MAX,
    decreases reqs.len(),
{
    if reqs.len() > 0 {
        let rest = reqs.drop_last();
        lemma_total_prefix(reqs, reqs.len() - 1);
        assert(reqs.subrange(0, reqs.len() - 1) =~= rest);
        lemma_credit_bound(m, rest, unalloc);
        let r = apply_rewards(m, rest);
        let t = total_requested(rest);
        let last = reqs.last();
        let user = last.user_address@;
        assert(total_requested(reqs) == t + last.amount);
        assert(reward_of(r, user) + unalloc - t <= u128::MAX);
        assert forall|u: Seq<char>| #[trigger] apply_rewards(m, reqs).contains_key(u) implies apply_rewards(m, reqs)[u]
            + unalloc - total_requested(reqs) <= u128::MAX by {
            if u != user {
                assert(r.contains_key(u));
            }
        }
    }
}

/// The rewards after allocations stay within what an amount can hold.
proof fn lemma_reward_fits(m: Map<Seq<char>, u128>, reqs: Seq<RewardUserRequest>, unalloc: int, next: RewardUserRequest)
    requires
        forall|u: Seq<char>| m.contains_key(u) ==> m[u] + unalloc <= u128::MAX,
        0 <= total_requested(reqs) <= unalloc <= u128::MAX,
        total_requested(reqs) + next.amount <= unalloc,
    ensures
        reward_of(apply_rewards(m, reqs), next.user_address@) + next.amount <= u128::MAX,
{
    lemma_credit_bound(m, reqs, unalloc);
}

/// The total amount that `reqs` request for `user`.
pub open spec fn requested_for(reqs: Seq<RewardUserRequest>, user: Seq<char>) -> int
    decreases reqs.len(),
{
    if reqs.len() == 0 {
        0
    } else {
        requested_for(reqs.drop_last(), user) + if reqs.last().user_address@ == user {
            reqs.last().amount as int
        } else {
            0
        }
    }
}

/// Allocations add up: after a sequence of allocations that the
/// unallocated funds cover, each user holds their former reward plus
/// exactly what was requested for them.
pub proof fn law_rewards_add_up(m: Map<Seq<char>, u128>, reqs: Seq<RewardUserRequest>, unalloc: u128, user: Seq<char>)
    requires
        forall|u: Seq<char>| m.contains_key(u) ==> m[u] + unalloc <= u128::MAX,
        total_requested(reqs) <= unalloc,
    ensures
        reward_of(apply_rewards(m, reqs), user) == reward_of(m, user) + requested_for(reqs, user),
    decreases reqs.len(),
{
    lemma_total_prefix(reqs, 0);
    if reqs.len() > 0 {
        let rest = reqs.drop_last();
        lemma_total_prefix(reqs, reqs.len() - 1);
        assert(reqs.subrange(0, reqs.len() - 1) =~= rest);
        law_rewards_add_up(m, rest, unalloc, user);
        lemma_reward_fits(m, rest, unalloc as int, reqs.last());
    }
}

/// Allocates the rewards `requests` out of the unallocated funds; the owner
/// and the managers may, while the campaign is active. Refused as a whole
/// when the funds do not cover all requests in turn.
pub fn reward_users(state: &mut AirdropState, sender: &str, requests: Vec<RewardUserRequest>) -> (r: Result<(Response, Vec<RewardUserResponse>), AirdropError>)
    requires
        old(state).wf(),
    ensures
        final(state).wf(),
        r is Err ==> *final(state) == *old(state),
        !can_manage(old(state).campaign, sender@) ==> r == Err::<(Response, Vec<RewardUserResponse>), AirdropError>(AirdropError::Unauthorized),
        can_manage(old(state).campaign, sender@) && !old(state).campaign.is_active ==> r == Err::<(Response, Vec<RewardUserResponse>), AirdropError>(AirdropError::CampaignNotActive),
        can_manage(old(state).campaign, sender@) && old(state).campaign.is_active && total_requested(requests@) > old(state).campaign.unallocated_amount
            ==> r == Err::<(Response, Vec<RewardUserResponse>), AirdropError>(AirdropError::NotEnoughCampaignFunds),
        r is Ok <==> (can_manage(old(state).campaign, sender@) && old(state).campaign.is_active
            && total_requested(requests@) <= old(state).campaign.unallocated_amount),
        r matches Ok((resp, outcomes)) ==> {
            &&& final(state).user_rewards@ == apply_rewards(old(state).user_rewards@, requests@)
            &&& final(state).campaign.unallocated_amount == old(state).campaign.unallocated_amount - total_requested(requests@)
            &&& final(state).campaign.owner == old(state).campaign.owner
            &&& final(state).campaign.managers == old(state).campaign.managers
            &&& final(state).campaign.is_active == old(state).campaign.is_active
            &&& final(state).campaign.campaign_name == old(state).campaign.campaign_name
            &&& final(state).campaign.campaign_description == old(state).campaign.campaign_description
            &&& outcomes@.len() == requests@.len()
            &&& forall|i: int| 0 <= i < requests@.len() ==> (#[trigger] outcomes@[i]).user_address@ == requests@[i].user_address@
                && outcomes@[i].success && outcomes@[i].error_msg@.len() == 0
            &&& resp.messages@.len() == 0
            &&& resp.attributes@.len() == 1
            &&& resp.attributes@[0].key@ == "method"@
            &&& resp.attributes@[0].value matches AttrValue::Text(t) && t@ == "reward_users"@
        },
{
    let c = &state.campaign;
    if !str_eq(c.owner.as_str(), sender) && !vec_contains_str(&c.managers, sender) {
        return Err(AirdropError::Unauthorized);
    }
    if !c.is_active {
        return Err(AirdropError::CampaignNotActive);
    }
    // Every request in turn must be covered by what remains unallocated.
    let unalloc = c.unallocated_amount;
    let mut remaining: u128 = unalloc;
    let mut i: usize = 0;
    while i < requests.len()
        invariant
            i <= requests@.len(),
            remaining == unalloc - total_requested(requests@.subrange(0, i as int)),
            *state == *old(state),
            state.wf(),
            unalloc == state.campaign.unallocated_amount,
            can_manage(state.campaign, sender@),
            state.campaign.is_active,
        decreases requests.len() - i,
    {
        assert(requests@.subrange(0, i + 1).drop_last() =~= requests@.subrange(0, i as int));
        if remaining < requests[i].amount {
            proof {
                lemma_total_prefix(requests@, i + 1);
            }
            return Err(AirdropError::NotEnoughCampaignFunds);
        }
        remaining = remaining - requests[i].amount;
        i = i + 1;
    }
    assert(requests@.subrange(0, requests@.len() as int) =~= requests@);
    let ghost m0 = state.user_rewards@;
    proof {
        lemma_total_prefix(requests@, 0);
    }
    let mut outcomes: Vec<RewardUserResponse> = Vec::new();
    let mut j: usize = 0;
    while j < requests.len()
        invariant
            j <= requests@.len(),
            state.user_rewards.wf(),
            state.user_rewards@ == apply_rewards(m0, requests@.subrange(0, j as int)),
            state.campaign == old(state).campaign,
            m0 == old(state).user_rewards@,
            unalloc == old(state).campaign.unallocated_amount,
            remaining == unalloc - total_requested(requests@),
            forall|u: Seq<char>| m0.contains_key(u) ==> m0[u] + unalloc <= u128::MAX,
            0 <= total_requested(requests@) <= unalloc,
            outcomes@.len() == j,
            forall|k: int| 0 <= k < j ==> (#[trigger] outcomes@[k]).user_address@ == requests@[k].user_address@
                && outcomes@[k].success && outcomes@[k].error_msg@.len() == 0,
        decreases requests.len() - j,
    {
        let ghost pre = requests@.subrange(0, j as int);
        assert(requests@.subrange(0, j + 1).drop_last() =~= pre);
        proof {
            lemma_total_prefix(requests@, j as int);
            lemma_total_prefix(requests@, j + 1);
            assert(total_requested(requests@.subrange(0, j + 1)) == total_requested(pre) + requests@[j as int].amount);
            lemma_reward_fits(m0, pre, unalloc as int, requests@[j as int]);
        }
        let user = &requests[j].user_address;
        let amount = requests[j].amount;
        let current: u128 = match state.user_rewards.get(user.as_str()) {
            Some(v) => *v,
            None => 0,
        };
        state.user_rewards.set(user.clone(), current + amount);
        outcomes.push(RewardUserResponse { user_address: user.clone(), success: true, error_msg: String::new() });
        j = j + 1;
    }
    assert(requests@.subrange(0, requests@.len() as int) =~= requests@);
    state.campaign.unallocated_amount = remaining;
    proof {
        lemma_credit_bound(m0, requests@, unalloc as int);
    }
    let mut attributes: Vec<Attribute> = Vec::new();
    attributes.push(attr_text("method", String::from_str("reward_users")));
    Ok((Response { messages: Vec::new(), attributes, events: Vec::new() }, outcomes))
}

/// A reply that sends `amount` of `denom` to `to`, with the attribute
/// `method` = `method`.
pub open spec fn is_payout(r: Response, method: Seq<char>, to: Seq<char>, denom: Seq<char>, amount: u128) -> bool {
    &&& r.messages@.len() == 1
    &&& r.messages@[0] matches CosmosMsg::BankSend { to_address, amount: a } && to_address@ == to
        && a@.len() == 1 && a@[0].denom@ == denom && a@[0].amount == amount
    &&& r.attributes@.len() == 1
    &&& r.attributes@[0].key@ == "method"@
    &&& r.attributes@[0].value matches AttrValue::Text(t) && t@ == method
    &&& r.events@.len() == 0
}

fn payout(method: &str, to: &str, denom: &str, amount: u128) -> (r: Response)
    ensures
        is_payout(r, method@, to@, denom@, amount),
{
    let mut coins: Vec<Coin> = Vec::new();
    coins.push(Coin { denom: String::from_str(denom), amount });
    let mut messages: Vec<CosmosMsg> = Vec::new();
    messages.push(CosmosMsg::BankSend { to_address: String::from_str(to), amount: coins });
    let mut attributes: Vec<Attribute> = Vec::new();
    attributes.push(attr_text("method", String::from_str(method)));
    Response { messages, attributes, events: Vec::new() }
}

/// Pays the sender the whole reward allocated to them, in the bond
/// denomination, and forgets it; only while the campaign is active.
pub fn claim(state: &mut AirdropState, sender: &str, bond_denom: &str) -> (r: Result<Response, AirdropError>)
    requires
        old(state).wf(),
    ensures
        final(state).wf(),
        final(state).campaign == old(state).campaign,
        r is Err ==> *final(state) == *old(state),
        !old(state).campaign.is_active ==> r == Err::<Response, AirdropError>(AirdropError::CampaignNotActive),
        old(state).campaign.is_active && !old(state).user_rewards@.contains_key(sender@)
            ==> r == Err::<Response, AirdropError>(AirdropError::UserPoolNotFound),
        r is Ok <==> (old(state).campaign.is_active && old(state).user_rewards@.contains_key(sender@)),
        r matches Ok(resp) ==> is_payout(resp, "claim"@, sender@, bond_denom@, old(state).user_rewards@[sender@])
            && final(state).user_rewards@ == old(state).user_rewards@.remove(sender@),
{
    if !state.campaign.is_active {
        return Err(AirdropError::CampaignNotActive);
    }
    if !state.user_rewards.contains_key(sender) {
        return Err(AirdropError::UserPoolNotFound);
    }
    match state.user_rewards.remove(sender) {
        Some(reward) => Ok(payout("claim", sender, bond_denom, reward)),
        None => Err(AirdropError::UserPoolNotFound),
    }
}

/// The unallocated funds after a withdrawal of `amount`: what remains, or
/// nothing when more than the unallocated funds is withdrawn.
pub open spec fn after_withdraw(unallocated: u128, amount: u128) -> u128 {
    if amount > unallocated {
        0
    } else {
        (unallocated - amount) as u128
    }
}

/// Sends `amount` of the bond denomination to the owner, out of the
/// contract balance `own_balance`; only the owner may. The unallocated
/// funds shrink by the amount, down to zero.
pub fn withdraw(state: &mut AirdropState, sender: &str, amount: u128, own_balance: u128, bond_denom: &str) -> (r: Result<Response, AirdropError>)
    requires
        old(state).wf(),
    ensures
        final(state).wf(),
        r is Err ==> *final(state) == *old(state),
        old(state).campaign.owner@ != sender@ ==> r == Err::<Response, AirdropError>(AirdropError::OnlyOwnerCanWithdraw),
        old(state).campaign.owner@ == sender@ && amount > own_balance ==> r == Err::<Response, AirdropError>(AirdropError::NotEnoughContractFunds),
        r is Ok <==> (old(state).campaign.owner@ == sender@ && amount <= own_balance),
        r matches Ok(resp) ==> {
            &&& is_payout(resp, "withdraw"@, sender@, bond_denom@, amount)
            &&& final(state).campaign.unallocated_amount == after_withdraw(old(state).campaign.unallocated_amount, amount)
            &&& final(state).campaign.is_active == old(state).campaign.is_active
            &&& final(state).campaign.owner == old(state).campaign.owner
            &&& final(state).campaign.managers == old(state).campaign.managers
            &&& final(state).user_rewards == old(state).user_rewards
        },
{
    if !str_eq(state.campaign.owner.as_str(), sender) {
        return Err(AirdropError::OnlyOwnerCanWithdraw);
    }
    if amount > own_balance {
        return Err(AirdropError::NotEnoughContractFunds);
    }
    if amount > state.campaign.unallocated_amount {
        state.campaign.unallocated_amount = 0;
    } else {
        state.campaign.unallocated_amount = state.campaign.unallocated_amount - amount;
    }
    Ok(payout("withdraw", sender, bond_denom, amount))
}

/// Deactivates the campaign and withdraws the whole contract balance
/// `own_balance` to the owner. The owner and the managers may ask, but the
/// withdrawal is the owner's only, so a manager's call is refused as a
/// whole. An inactive campaign is left as it is.
pub fn deactivate(state: &mut AirdropState, sender: &str, own_balance: u128, bond_denom: &str) -> (r: Result<Response, AirdropError>)
    requires
        old(state).wf(),
    ensures
        final(state).wf(),
        r is Err ==> *final(state) == *old(state),
        !can_manage(old(state).campaign, sender@) ==> r == Err::<Response, AirdropError>(AirdropError::Unauthorized),
        can_manage(old(state).campaign, sender@) && !old(state).campaign.is_active ==> (r matches Ok(resp)
            && *final(state) == *old(state) && resp.messages@.len() == 0 && resp.attributes@.len() == 2
            && resp.attributes@[0].key@ == "method"@ && resp.attributes@[1].key@ == "message"@),
        can_manage(old(state).campaign, sender@) && old(state).campaign.is_active && old(state).campaign.owner@ != sender@
            ==> r == Err::<Response, AirdropError>(AirdropError::OnlyOwnerCanWithdraw),
        can_manage(old(state).campaign, sender@) && old(state).campaign.is_active && old(state).campaign.owner@ == sender@
            ==> (r matches Ok(resp) && is_payout(resp, "withdraw"@, sender@, bond_denom@, own_balance)
            && !final(state).campaign.is_active
            && final(state).campaign.unallocated_amount == after_withdraw(old(state).campaign.unallocated_amount, own_balance)
            && final(state).campaign.owner == old(state).campaign.owner
            && final(state).campaign.managers == old(state).campaign.managers
            && final(state).user_rewards == old(state).user_rewards),
{
    if !str_eq(state.campaign.owner.as_str(), sender) && !vec_contains_str(&state.campaign.managers, sender) {
        return Err(AirdropError::Unauthorized);
    }
    if !state.campaign.is_active {
        let mut attributes: Vec<Attribute> = Vec::new();
        attributes.push(attr_text("method", String::from_str("deactivate")));
        attributes.push(attr_text("message", String::from_str("Campaign is already deactivated")));
        return Ok(Response { messages: Vec::new(), attributes, events: Vec::new() });
    }
    if !str_eq(state.campaign.owner.as_str(), sender) {
        return Err(AirdropError::OnlyOwnerCanWithdraw);
    }
    state.campaign.is_active = false;
    withdraw(state, sender, own_balance, own_balance, bond_denom)
}

/// A copy of the campaign.
pub fn query_campaign(state: &AirdropState) -> (r: Campaign)
    ensures
        r.campaign_name == state.campaign.campaign_name,
        r.campaign_description == state.campaign.campaign_description,
        r.unallocated_amount == state.campaign.unallocated_amount,
        r.owner == state.campaign.owner,
        r.managers@ == state.campaign.managers@,
        r.is_active == state.campaign.is_active,
{
    let c = &state.campaign;
    let managers = strings_copy(&c.managers);
    Campaign {
        campaign_name: c.campaign_name.clone(),
        campaign_description: c.campaign_description.clone(),
        unallocated_amount: c.unallocated_amount,
        owner: c.owner.clone(),
        managers,
        is_active: c.is_active,
    }
}

/// The reward allocated to `user`; only while the campaign is active.
pub fn query_user_reward(state: &AirdropState, user: &str) -> (r: Result<u128, AirdropError>)
    requires
        state.wf(),
    ensures
        !state.campaign.is_active ==> r == Err::<u128, AirdropError>(AirdropError::CampaignNotActive),
        state.campaign.is_active && !state.user_rewards@.contains_key(user@) ==> r == Err::<u128, AirdropError>(AirdropError::UserRewardNotFound),
        state.campaign.is_active && state.user_rewards@.contains_key(user@) ==> r == Ok::<u128, AirdropError>(state.user_rewards@[user@]),
{
    if !state.campaign.is_active {
        return Err(AirdropError::CampaignNotActive);
    }
    match state.user_rewards.get(user) {
        Some(v) => Ok(*v),
        None => Err(AirdropError::UserRewardNotFound),
    }
}

/// Whether `v` parses as a semantic version.
pub uninterp spec fn semver_valid(v: Seq<char>) -> bool;

/// Whether the semantic version `a` precedes `b` in semver's order.
pub uninterp spec fn semver_lt(a: Seq<char>, b: Seq<char>) -> bool;

/// Whether `v` parses as a `semver::Version` (`Version::from_str`). The
/// contract claims only that the answer is the same for the same text.
#[verifier::external_body]
fn version_valid(v: &str) -> (r: bool)
    ensures
        r == semver_valid(v@),
{
    v.parse::<semver::Version>().is_ok()
}

/// Whether the version `a` is lower than `b`, both parsed by
/// `Version::from_str` and compared by `semver::Version`'s order. Both must
/// parse, or the parse would fail. The contract claims only that the answer
/// is the same for the same texts.
#[verifier::external_body]
fn version_lt(a: &str, b: &str) -> (r: bool)
    requires
        semver_valid(a@),
        semver_valid(b@),
    ensures
        r == semver_lt(a@, b@),
{
    a.parse::<semver::Version>().unwrap() < b.parse::<semver::Version>().unwrap()
}

/// Whether a migration from the stored contract and version to
/// `contract_name` at `new_version` is allowed: the new version must be a
/// semantic version, the stored contract the same contract, and the stored
/// version older than the new one, checked in this order.
pub fn check_migrate(stored_contract: &str, stored_version: &str, contract_name: &str, new_version: &str) -> (r: Result<(), AirdropError>)
    requires
        semver_valid(new_version@) && stored_contract@ == contract_name@ ==> semver_valid(stored_version@),
    ensures
        !semver_valid(new_version@) ==> r == Err::<(), AirdropError>(AirdropError::InvalidVersionFormat),
        semver_valid(new_version@) && stored_contract@ != contract_name@ ==> r == Err::<(), AirdropError>(
            AirdropError::WrongContractType,
        ),
        semver_valid(new_version@) && stored_contract@ == contract_name@ ==> {
            &&& r is Ok <==> semver_lt(stored_version@, new_version@)
            &&& !semver_lt(stored_version@, new_version@) ==> r == Err::<(), AirdropError>(AirdropError::NewerVersion)
        },
{
    if !version_valid(new_version) {
        return Err(AirdropError::InvalidVersionFormat);
    }
    if !str_eq(stored_contract, contract_name) {
        return Err(AirdropError::WrongContractType);
    }
    if !version_lt(stored_version, new_version) {
        return Err(AirdropError::NewerVersion);
    }
    Ok(())
}

/// Migrates the stored contract to `contract_name` at `new_version`, as
/// `check_migrate` decides, replying with the method. `None` where the
/// stored version itself is not a semantic version (and the checks before
/// it pass): no decision can be made there.
pub fn migrate(stored_contract: &str, stored_version: &str, contract_name: &str, new_version: &str) -> (r: Option<Result<Response, AirdropError>>)
    ensures
        r is None <==> (semver_valid(new_version@) && stored_contract@ == contract_name@ && !semver_valid(stored_version@)),
        !semver_valid(new_version@) ==> r == Some(Err::<Response, AirdropError>(AirdropError::InvalidVersionFormat)),
        semver_valid(new_version@) && stored_contract@ != contract_name@ ==> r == Some(
            Err::<Response, AirdropError>(AirdropError::WrongContractType),
        ),
        semver_valid(new_version@) && stored_contract@ == contract_name@ && semver_valid(stored_version@) ==> {
            &&& (r matches Some(Ok(_))) <==> semver_lt(stored_version@, new_version@)
            &&& !semver_lt(stored_version@, new_version@) ==> r == Some(Err::<Response, AirdropError>(AirdropError::NewerVersion))
            &&& r matches Some(Ok(resp)) ==> resp.messages@.len() == 0 && resp.events@.len() == 0
                && resp.attributes@.len() == 1 && resp.attributes@[0].key@ == "method"@
                && (resp.attributes@[0].value matches AttrValue::Text(t) && t@ == "migrate"@)
        },
{
    if version_valid(new_version) && str_eq(stored_contract, contract_name) && !version_valid(stored_version) {
        return None;
    }
    match check_migrate(stored_contract, stored_version, contract_name, new_version) {
        Err(e) => Some(Err(e)),
        Ok(()) => {
            let mut attributes: Vec<Attribute> = Vec::new();
            attributes.push(attr_text("method", String::from_str("migrate")));
            Some(Ok(Response { messages: Vec::new(), attributes, events: Vec::new() }))
        },
    }
}

} // verus!
