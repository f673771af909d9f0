//! The token vesting contract: vesting accounts funded in native or cw20
//! tokens that vest linearly (with or without a cliff) and that their owners
//! claim as they vest, and reward campaigns whose owners and managers
//! allocate rewards to users out of the campaign funds.
use vstd::prelude::*;

use crate::airdrop::{apply_rewards, reward_of, total_requested, RewardUserRequest, RewardUserResponse};
use crate::common::{
    attr_amount, attr_text, denom_copy, opt_string_copy, seq_has, str_eq, vec_contains_str, AttrValue,
    Attribute, Coin, CosmosMsg, Denom, Response, StrMap,
};
use crate::key_order::{after, first_keys, first_keys_after, lemma_first_keys_unique, opt_view};
use crate::vesting::{lemma_part_le, vested_spec, Cliff, MathError, VestingError};

verus! {

/// A vesting schedule; times are in seconds.
#[derive(Debug, PartialEq, Eq, Structural, Clone, Copy)]
pub enum VestingSchedule {
    /// Vests linearly from the start to the end.
    LinearVesting { start_time: u64, end_time: u64, vesting_amount: u128 },
    /// Vests the cliff amount at the cliff time, then the rest linearly up
    /// to the end.
    LinearVestingWithCliff {
        start_time: u64,
        end_time: u64,
        vesting_amount: u128,
        cliff_amount: u128,
        cliff_time: u64,
    },
}

/// The amount of a linear vesting that has vested at time `t`: nothing up
/// to the start, everything from the end on, and in between the amount in
/// proportion to the time elapsed, rounded down. `None` when the product
/// exceeds the largest amount.
pub open spec fn linear_vested_spec(vesting_amount: u128, start_time: u64, end_time: u64, t: u64) -> Option<int> {
    if t <= start_time {
        Some(0)
    } else if t >= end_time {
        Some(vesting_amount as int)
    } else if vesting_amount * (t - start_time) > u128::MAX {
        None
    } else {
        Some(vesting_amount * (t - start_time) / (end_time - start_time))
    }
}

/// The amount of a schedule that has vested at time `t`, `None` when it
/// cannot be computed.
pub open spec fn schedule_vested(s: VestingSchedule, t: u64) -> Option<int> {
    match s {
        VestingSchedule::LinearVesting { start_time, end_time, vesting_amount } =>
            linear_vested_spec(vesting_amount, start_time, end_time, t),
        VestingSchedule::LinearVestingWithCliff { end_time, vesting_amount, cliff_amount, cliff_time, .. } =>
            vested_spec(vesting_amount, cliff_amount, cliff_time, end_time, t),
    }
}

/// Why a schedule is refused for a deposit at a block time: the checks in
/// their order, `None` when it is accepted.
pub open spec fn schedule_error(s: VestingSchedule, block_time: u64, deposit_amount: u128) -> Option<VestingError> {
    match s {
        VestingSchedule::LinearVesting { start_time, end_time, vesting_amount } => {
            if vesting_amount == 0 {
                Some(VestingError::ZeroVestingAmount)
            } else if end_time <= start_time {
                Some(VestingError::InvalidTimeRange { start_time, end_time })
            } else if vesting_amount != deposit_amount {
                Some(VestingError::MismatchedVestingAndDepositAmount { vesting_amount, deposit_amount })
            } else {
                None
            }
        },
        VestingSchedule::LinearVestingWithCliff { start_time, end_time, vesting_amount, cliff_amount, cliff_time } => {
            if vesting_amount == 0 {
                Some(VestingError::ZeroVestingAmount)
            } else if end_time <= start_time {
                Some(VestingError::InvalidTimeRange { start_time, end_time })
            } else if vesting_amount != deposit_amount {
                Some(VestingError::MismatchedVestingAndDepositAmount { vesting_amount, deposit_amount })
            } else if cliff_time < block_time {
                Some(VestingError::Cliff(crate::vesting::CliffError::InvalidTime { cliff_time, block_time }))
            } else if cliff_amount > vesting_amount {
                Some(VestingError::Cliff(crate::vesting::CliffError::ExcessiveAmount { cliff_amount, vesting_amount }))
            } else {
                None
            }
        },
    }
}

impl VestingSchedule {
    /// The amount vested at `block_time` (seconds).
    pub fn vested_amount(&self, block_time: u64) -> (r: Result<u128, MathError>)
        ensures
            match schedule_vested(*self, block_time) {
                Some(v) => r == Ok::<u128, MathError>(v as u128) && 0 <= v <= u128::MAX,
                None => r == Err::<u128, MathError>(MathError::Overflow),
            },
    {
        match self {
            VestingSchedule::LinearVesting { start_time, end_time, vesting_amount } => {
                if block_time <= *start_time {
                    return Ok(0);
                }
                if block_time >= *end_time {
                    return Ok(*vesting_amount);
                }
                let elapsed: u128 = (block_time - *start_time) as u128;
                let span: u128 = (*end_time - *start_time) as u128;
                match vesting_amount.checked_mul(elapsed) {
                    None => Err(MathError::Overflow),
                    Some(prod) => {
                        proof {
                            lemma_part_le(*vesting_amount as int, elapsed as int, span as int);
                        }
                        Ok(prod / span)
                    },
                }
            },
            VestingSchedule::LinearVestingWithCliff { start_time: _, end_time, vesting_amount, cliff_amount, cliff_time } => {
                let account = crate::vesting::VestingAccount {
                    address: String::new(),
                    start_time: 0,
                    cliff_time: *cliff_time,
                    end_time: *end_time,
                    cliff_amount: *cliff_amount,
                    vesting_amount: *vesting_amount,
                    claimed_amount: 0,
                };
                account.vested_amount(block_time)
            },
        }
    }

    /// Checks the schedule of a deposit of `deposit_amount` at `block_time`:
    /// a vesting amount that is not zero and equals the deposit, an end
    /// after the start, and for a cliff, a cliff time not before the block
    /// time and a cliff amount not above the vesting amount.
    pub fn validate(&self, block_time: u64, deposit_amount: u128) -> (r: Result<(), VestingError>)
        ensures
            match schedule_error(*self, block_time, deposit_amount) {
                Some(e) => r == Err::<(), VestingError>(e),
                None => r is Ok,
            },
    {
        match self {
            VestingSchedule::LinearVesting { start_time, end_time, vesting_amount } => {
                if *vesting_amount == 0 {
                    return Err(VestingError::ZeroVestingAmount);
                }
                if *end_time <= *start_time {
                    return Err(VestingError::InvalidTimeRange { start_time: *start_time, end_time: *end_time });
                }
                if *vesting_amount != deposit_amount {
                    return Err(VestingError::MismatchedVestingAndDepositAmount { vesting_amount: *vesting_amount, deposit_amount });
                }
                Ok(())
            },
            VestingSchedule::LinearVestingWithCliff { start_time, end_time, vesting_amount, cliff_amount, cliff_time } => {
                if *vesting_amount == 0 {
                    return Err(VestingError::ZeroVestingAmount);
                }
                if *end_time <= *start_time {
                    return Err(VestingError::InvalidTimeRange { start_time: *start_time, end_time: *end_time });
                }
                if *vesting_amount != deposit_amount {
                    return Err(VestingError::MismatchedVestingAndDepositAmount { vesting_amount: *vesting_amount, deposit_amount });
                }
                let cliff = Cliff { amount: *cliff_amount, time: *cliff_time };
                match cliff.ok_time(block_time) {
                    Err(e) => {
                        return Err(VestingError::Cliff(e));
                    },
                    Ok(()) => {},
                }
                match cliff.ok_amount(*vesting_amount) {
                    Err(e) => Err(VestingError::Cliff(e)),
                    Ok(()) => Ok(()),
                }
            },
        }
    }
}

/// A vesting account of an address in one denomination.
#[derive(Debug)]
pub struct VestingAccount {
    /// Who registered the account and may deregister it.
    pub master_address: Option<String>,
    pub address: String,
    pub vesting_denom: Denom,
    pub vesting_amount: u128,
    pub vesting_schedule: VestingSchedule,
    pub claimed_amount: u128,
}

/// A reward campaign.
#[derive(Debug)]
pub struct Campaign {
    pub campaign_id: String,
    pub campaign_name: String,
    pub campaign_description: String,
    pub owner: String,
    pub managers: Vec<String>,
    pub unallocated_amount: u128,
    pub denom: Denom,
    pub is_active: bool,
}

/// Why a call of the contract was refused.
#[derive(Debug)]
pub enum TokenVestingError {
    CampaignExists,
    OneDenomRequired,
    /// The campaign could not be loaded.
    CampaignNotFound,
    Unauthorized,
    UnauthorizedDeactivate,
    CampaignNotActive,
    InsufficientFunds,
    /// The campaign to withdraw from does not exist.
    CampaignMissing,
    OnlyOwnerCanWithdraw,
    /// The contract does not hold the amount asked for.
    NotEnoughContractFunds,
    AccountExists,
    /// No vesting account of the denomination.
    AccountNotFound(Denom),
    /// The sender is not the master of the account.
    NotMaster,
    OneDepositCoin,
    InvalidHook,
    Vesting(VestingError),
    Math(MathError),
}

impl TokenVestingError {
    /// The text of the error.
    pub open spec fn message_text(&self) -> Seq<char> {
        match self {
            TokenVestingError::CampaignExists => "Campaign already exists"@,
            TokenVestingError::OneDenomRequired => "one denom sent required"@,
            TokenVestingError::CampaignNotFound => "Failed to load campaign data"@,
            TokenVestingError::Unauthorized => "Unauthorized"@,
            TokenVestingError::UnauthorizedDeactivate =>
                "Unauthorized. Only the campaign owner or managers can deactivate the campaign"@,
            TokenVestingError::CampaignNotActive => "Campaign is not active"@,
            TokenVestingError::InsufficientFunds => "Insufficient funds for all rewards"@,
            TokenVestingError::CampaignMissing => "Campaign not found"@,
            TokenVestingError::OnlyOwnerCanWithdraw => "Only contract owner can withdraw"@,
            TokenVestingError::NotEnoughContractFunds => "Not enough funds in the contract"@,
            TokenVestingError::AccountExists => "already exists"@,
            TokenVestingError::AccountNotFound(_) => "vesting entry is not found for denom"@,
            TokenVestingError::NotMaster => "unauthorized"@,
            TokenVestingError::OneDepositCoin => "must deposit only one type of token"@,
            TokenVestingError::InvalidHook => "invalid cw20 hook message"@,
            TokenVestingError::Vesting(_) => "vesting schedule is not valid"@,
            TokenVestingError::Math(_) => "vesting amount cannot be computed"@,
        }
    }

    /// The message of the error.
    pub fn message(&self) -> (r: String)
        ensures
            r@ == self.message_text(),
    {
        match self {
            TokenVestingError::CampaignExists => String::from_str("Campaign already exists"),
            TokenVestingError::OneDenomRequired => String::from_str("one denom sent required"),
            TokenVestingError::CampaignNotFound => String::from_str("Failed to load campaign data"),
            TokenVestingError::Unauthorized => String::from_str("Unauthorized"),
            TokenVestingError::UnauthorizedDeactivate => String::from_str(
                "Unauthorized. Only the campaign owner or managers can deactivate the campaign",
            ),
            TokenVestingError::CampaignNotActive => String::from_str("Campaign is not active"),
            TokenVestingError::InsufficientFunds => String::from_str("Insufficient funds for all rewards"),
            TokenVestingError::CampaignMissing => String::from_str("Campaign not found"),
            TokenVestingError::OnlyOwnerCanWithdraw => String::from_str("Only contract owner can withdraw"),
            TokenVestingError::NotEnoughContractFunds => String::from_str("Not enough funds in the contract"),
            TokenVestingError::AccountExists => String::from_str("already exists"),
            TokenVestingError::AccountNotFound(_) => String::from_str("vesting entry is not found for denom"),
            TokenVestingError::NotMaster => String::from_str("unauthorized"),
            TokenVestingError::OneDepositCoin => String::from_str("must deposit only one type of token"),
            TokenVestingError::InvalidHook => String::from_str("invalid cw20 hook message"),
            TokenVestingError::Vesting(_) => String::from_str("vesting schedule is not valid"),
            TokenVestingError::Math(_) => String::from_str("vesting amount cannot be computed"),
        }
    }
}

/// The key under which an account of a denomination is stored.
pub open spec fn denom_key(d: Denom) -> Seq<char> {
    match d {
        Denom::Native(s) => "native-"@ + s@,
        Denom::Cw20(s) => "cw20-"@ + s@,
    }
}

/// The key under which an account of `denom` is stored.
pub fn denom_to_key(denom: &Denom) -> (r: String)
    ensures
        r@ == denom_key(*denom),
{
    match denom {
        Denom::Native(s) => String::from_str("native-").concat(s.as_str()),
        Denom::Cw20(s) => String::from_str("cw20-").concat(s.as_str()),
    }
}

/// The message that sends `amount` of `denom` to `to`: a bank send for a
/// native denomination, a cw20 transfer for a cw20 token.
pub open spec fn is_send_msg(m: CosmosMsg, denom: Denom, amount: u128, to: Seq<char>) -> bool {
    match denom {
        Denom::Native(d) => m matches CosmosMsg::BankSend { to_address, amount: coins }
            && to_address@ == to && coins@.len() == 1 && coins@[0].denom@ == d@ && coins@[0].amount == amount,
        Denom::Cw20(addr) => m matches CosmosMsg::Cw20Transfer { contract_addr, recipient, amount: a }
            && contract_addr@ == addr@ && recipient@ == to && a == amount,
    }
}

/// The message that sends `amount` of `denom` to `to`.
pub fn build_send_msg(denom: &Denom, amount: u128, to: &str) -> (r: CosmosMsg)
    ensures
        is_send_msg(r, *denom, amount, to@),
{
    match denom {
        Denom::Native(d) => {
            let mut coins: Vec<Coin> = Vec::new();
            coins.push(Coin { denom: d.clone(), amount });
            CosmosMsg::BankSend { to_address: String::from_str(to), amount: coins }
        },
        Denom::Cw20(addr) => CosmosMsg::Cw20Transfer {
            contract_addr: addr.clone(),
            recipient: String::from_str(to),
            amount,
        },
    }
}

/// The campaigns, the rewards allocated to users, and the vesting accounts
/// of each address by the key of their denomination.
#[derive(Debug)]
pub struct TokenVestingState {
    pub campaigns: StrMap<Campaign>,
    pub user_rewards: StrMap<u128>,
    pub accounts: StrMap<StrMap<VestingAccount>>,
}

/// The accounts of `addr` (none when it has no entry).
pub open spec fn accounts_of(accounts: Map<Seq<char>, StrMap<VestingAccount>>, addr: Seq<char>) -> Map<Seq<char>, VestingAccount> {
    if accounts.contains_key(addr) {
        accounts[addr]@
    } else {
        Map::empty()
    }
}

/// Each account is stored under the key of its own denomination.
pub open spec fn keys_match(m: Map<Seq<char>, VestingAccount>) -> bool {
    forall|k: Seq<char>| #[trigger] m.contains_key(k) ==> denom_key(m[k].vesting_denom) == k
}

impl TokenVestingState {
    /// The maps are well formed and each account is stored under the key of
    /// its denomination.
    pub open spec fn wf(&self) -> bool {
        &&& self.campaigns.wf()
        &&& self.user_rewards.wf()
        &&& self.accounts.wf()
        &&& forall|a: Seq<char>| #[trigger] self.accounts@.contains_key(a) ==> self.accounts@[a].wf()
            && keys_match(self.accounts@[a]@)
    }

    /// Whether the two states hold the same campaigns, rewards and accounts.
    pub open spec fn same_as(&self, other: TokenVestingState) -> bool {
        &&& self.campaigns@ == other.campaigns@
        &&& self.user_rewards@ == other.user_rewards@
        &&& forall|a: Seq<char>| #[trigger] accounts_of(self.accounts@, a) == accounts_of(other.accounts@, a)
    }

    /// The state of a new contract: nothing at all.
    pub fn new() -> (r: TokenVestingState)
        ensures
            r.wf(),
            r.campaigns@ == Map::<Seq<char>, Campaign>::empty(),
            r.user_rewards@ == Map::<Seq<char>, u128>::empty(),
            r.accounts@ == Map::<Seq<char>, StrMap<VestingAccount>>::empty(),
    {
        TokenVestingState { campaigns: StrMap::new(), user_rewards: StrMap::new(), accounts: StrMap::new() }
    }
}

/// Whether `sender` may allocate the rewards of `c` and deactivate it.
pub open spec fn tv_can_manage(c: Campaign, sender: Seq<char>) -> bool {
    c.owner@ == sender || seq_has(c.managers@, sender)
}

/// Creates the campaign `campaign_id`, funded by the single coin sent;
/// `sender` becomes its owner.
pub fn create_campaign(
    state: &mut TokenVestingState,
    sender: &str,
    funds: &Vec<Coin>,
    campaign_id: String,
    campaign_name: String,
    campaign_description: String,
    managers: Vec<String>,
) -> (r: Result<Response, TokenVestingError>)
    requires
        old(state).wf(),
    ensures
        final(state).wf(),
        r is Err ==> *final(state) == *old(state),
        old(state).campaigns@.contains_key(campaign_id@) ==> (r matches Err(TokenVestingError::CampaignExists)),
        !old(state).campaigns@.contains_key(campaign_id@) && funds@.len() != 1 ==> (r matches Err(TokenVestingError::OneDenomRequired)),
        r is Ok <==> (!old(state).campaigns@.contains_key(campaign_id@) && funds@.len() == 1),
        r matches Ok(resp) ==> {
            let c = final(state).campaigns@[campaign_id@];
            &&& final(state).campaigns@ == old(state).campaigns@.insert(campaign_id@, c)
            &&& final(state).user_rewards == old(state).user_rewards
            &&& final(state).accounts == old(state).accounts
            &&& c.campaign_id@ == campaign_id@
            &&& c.campaign_name == campaign_name
            &&& c.campaign_description == campaign_description
            &&& c.owner@ == sender@
            &&& c.managers == managers
            &&& c.unallocated_amount == funds@[0].amount
            &&& c.denom == Denom::Native(funds@[0].denom)
            &&& c.is_active
            &&& resp.messages@.len() == 0
            &&& resp.attributes@.len() == 4
            &&& resp.attributes@[0].key@ == "method"@
            &&& resp.attributes@[0].value matches AttrValue::Text(t) && t@ == "create_campaign"@
            &&& resp.attributes@[1].key@ == "campaign_id"@
            &&& resp.attributes@[1].value matches AttrValue::Text(t) && t@ == campaign_id@
            &&& resp.attributes@[2].key@ == "campaign_name"@
            &&& resp.attributes@[2].value matches AttrValue::Text(t) && t@ == campaign_name@
            &&& resp.attributes@[3].key@ == "initial_unallocated_amount"@
            &&& resp.attributes@[3].value == AttrValue::Amount(funds@[0].amount)
        },
{
    if state.campaigns.contains_key(campaign_id.as_str()) {
        return Err(TokenVestingError::CampaignExists);
    }
    if funds.len() != 1 {
        return Err(TokenVestingError::OneDenomRequired);
    }
    let amount = funds[0].amount;
    let mut attributes: Vec<Attribute> = Vec::new();
    attributes.push(attr_text("method", String::from_str("create_campaign")));
    attributes.push(attr_text("campaign_id", campaign_id.clone()));
    attributes.push(attr_text("campaign_name", campaign_name.clone()));
    attributes.push(attr_amount("initial_unallocated_amount", amount));
    let key = campaign_id.clone();
    let campaign = Campaign {
        campaign_id,
        campaign_name,
        campaign_description,
        owner: String::from_str(sender),
        managers,
        unallocated_amount: amount,
        denom: Denom::Native(funds[0].denom.clone()),
        is_active: true,
    };
    state.campaigns.set(key, campaign);
    Ok(Response { messages: Vec::new(), attributes, events: Vec::new() })
}

/// Whether no reward overflows when the allocations `reqs` are applied to
/// `m` in turn.
pub open spec fn rewards_fit(m: Map<Seq<char>, u128>, reqs: Seq<RewardUserRequest>) -> bool
    decreases reqs.len(),
{
    if reqs.len() == 0 {
        true
    } else {
        rewards_fit(m, reqs.drop_last())
            && reward_of(apply_rewards(m, reqs.drop_last()), reqs.last().user_address@) + reqs.last().amount <= u128::MAX
    }
}

proof fn lemma_fit_prefix(m: Map<Seq<char>, u128>, reqs: Seq<RewardUserRequest>, n: int)
    requires
        rewards_fit(m, reqs),
        0 <= n <= reqs.len(),
    ensures
        rewards_fit(m, reqs.subrange(0, n)),
    decreases reqs.len(),
{
    if n < reqs.len() {
        assert(reqs.drop_last().subrange(0, n) =~= reqs.subrange(0, n));
        lemma_fit_prefix(m, reqs.drop_last(), n);
    } else {
        assert(reqs.subrange(0, n) =~= reqs);
    }
}

proof fn lemma_total_prefix(reqs: Seq<RewardUserRequest>, n: int)
    requires
        0 <= n <= reqs.len(),
    ensures
        0 <= total_requested(reqs.subrange(0, n)) <= total_requested(reqs),
    decreases reqs.len(),
{
    if reqs.len() > 0 {
        if n == reqs.len() {
            assert(reqs.subrange(0, n) =~= reqs);
            lemma_total_prefix(reqs.drop_last(), n - 1);
        } else {
            assert(reqs.drop_last().subrange(0, n) =~= reqs.subrange(0, n));
            lemma_total_prefix(reqs.drop_last(), n);
        }
    }
}

/// Allocates the rewards `requests` out of the unallocated funds of the
/// campaign; its owner and managers may, while it is active. Refused as a
/// whole when the funds do not cover all requests.
pub fn reward_users(state: &mut TokenVestingState, sender: &str, campaign_id: &str, requests: Vec<RewardUserRequest>) -> (r: Result<(Response, Vec<RewardUserResponse>), TokenVestingError>)
    requires
        old(state).wf(),
        old(state).campaigns@.contains_key(campaign_id@)
            && tv_can_manage(old(state).campaigns@[campaign_id@], sender@)
            && old(state).campaigns@[campaign_id@].is_active
            && total_requested(requests@) <= old(state).campaigns@[campaign_id@].unallocated_amount
            ==> rewards_fit(old(state).user_rewards@, requests@),
    ensures
        final(state).wf(),
        r is Err ==> *final(state) == *old(state),
        !old(state).campaigns@.contains_key(campaign_id@) ==> (r matches Err(TokenVestingError::CampaignNotFound)),
        ({
            let c = old(state).campaigns@[campaign_id@];
            &&& old(state).campaigns@.contains_key(campaign_id@) && !tv_can_manage(c, sender@)
                ==> (r matches Err(TokenVestingError::Unauthorized))
            &&& old(state).campaigns@.contains_key(campaign_id@) && tv_can_manage(c, sender@) && !c.is_active
                ==> (r matches Err(TokenVestingError::CampaignNotActive))
            &&& old(state).campaigns@.contains_key(campaign_id@) && tv_can_manage(c, sender@) && c.is_active
                && total_requested(requests@) > c.unallocated_amount ==> (r matches Err(TokenVestingError::InsufficientFunds))
            &&& r is Ok <==> (old(state).campaigns@.contains_key(campaign_id@) && tv_can_manage(c, sender@) && c.is_active
                && total_requested(requests@) <= c.unallocated_amount)
        }),
        r matches Ok((resp, outcomes)) ==> {
            let c = old(state).campaigns@[campaign_id@];
            let nc = final(state).campaigns@[campaign_id@];
            &&& final(state).user_rewards@ == apply_rewards(old(state).user_rewards@, requests@)
            &&& final(state).campaigns@ == old(state).campaigns@.insert(campaign_id@, nc)
            &&& nc.unallocated_amount == c.unallocated_amount - total_requested(requests@)
            &&& nc.campaign_id == c.campaign_id
            &&& nc.campaign_name == c.campaign_name
            &&& nc.campaign_description == c.campaign_description
            &&& nc.owner == c.owner
            &&& nc.managers == c.managers
            &&& nc.denom == c.denom
            &&& nc.is_active == c.is_active
            &&& final(state).accounts == old(state).accounts
            &&& outcomes@.len() == requests@.len()
            &&& forall|i: int| 0 <= i < requests@.len() ==> (#[trigger] outcomes@[i]).user_address@ == requests@[i].user_address@
                && outcomes@[i].success && outcomes@[i].error_msg@.len() == 0
            &&& resp.messages@.len() == 0
            &&& resp.attributes@.len() == 1
            &&& resp.attributes@[0].key@ == "method"@
            &&& resp.attributes@[0].value matches AttrValue::Text(t) && t@ == "reward_users"@
        },
{
    let unalloc: u128 = match state.campaigns.get(campaign_id) {
        None => {
            return Err(TokenVestingError::CampaignNotFound);
        },
        Some(c) => {
            if !str_eq(c.owner.as_str(), sender) && !vec_contains_str(&c.managers, sender) {
                return Err(TokenVestingError::Unauthorized);
            }
            if !c.is_active {
                return Err(TokenVestingError::CampaignNotActive);
            }
            c.unallocated_amount
        },
    };
    // The requests together must be covered by the unallocated funds.
    let mut remaining: u128 = unalloc;
    let mut i: usize = 0;
    while i < requests.len()
        invariant
            i <= requests@.len(),
            remaining == unalloc - total_requested(requests@.subrange(0, i as int)),
            *state == *old(state),
            state.wf(),
            state.campaigns@.contains_key(campaign_id@),
            tv_can_manage(state.campaigns@[campaign_id@], sender@),
            state.campaigns@[campaign_id@].is_active,
            unalloc == state.campaigns@[campaign_id@].unallocated_amount,
        decreases requests.len() - i,
    {
        assert(requests@.subrange(0, i + 1).drop_last() =~= requests@.subrange(0, i as int));
        if remaining < requests[i].amount {
            proof {
                lemma_total_prefix(requests@, i + 1);
            }
            return Err(TokenVestingError::InsufficientFunds);
        }
        remaining = remaining - requests[i].amount;
        i = i + 1;
    }
    assert(requests@.subrange(0, requests@.len() as int) =~= requests@);
    let ghost m0 = state.user_rewards@;
    let mut outcomes: Vec<RewardUserResponse> = Vec::new();
    let mut j: usize = 0;
    while j < requests.len()
        invariant
            j <= requests@.len(),
            state.wf(),
            state.user_rewards@ == apply_rewards(m0, requests@.subrange(0, j as int)),
            state.campaigns == old(state).campaigns,
            state.accounts == old(state).accounts,
            m0 == old(state).user_rewards@,
            rewards_fit(m0, requests@),
            outcomes@.len() == j,
            forall|k: int| 0 <= k < j ==> (#[trigger] outcomes@[k]).user_address@ == requests@[k].user_address@
                && outcomes@[k].success && outcomes@[k].error_msg@.len() == 0,
        decreases requests.len() - j,
    {
        let ghost pre = requests@.subrange(0, j as int);
        assert(requests@.subrange(0, j + 1).drop_last() =~= pre);
        proof {
            lemma_fit_prefix(m0, requests@, j + 1);
        }
        let user = &requests[j].user_address;
        let amount = requests[j].amount;
        let current: u128 = match state.user_rewards.get(user.as_str()) {
            Some(v) => *v,
            None => 0,
        };
        state.user_rewards.set(user.clone(), current + amount);
        outcomes.push(RewardUserResponse { user_address: user.clone(), success: true, error_msg: String::new() });
        j = j + 1;
    }
    assert(requests@.subrange(0, requests@.len() as int) =~= requests@);
    let mut c = match state.campaigns.remove(campaign_id) {
        Some(c) => c,
        None => {
            return Err(TokenVestingError::CampaignNotFound);
        },
    };
    c.unallocated_amount = remaining;
    state.campaigns.set(String::from_str(campaign_id), c);
    let mut attributes: Vec<Attribute> = Vec::new();
    attributes.push(attr_text("method", String::from_str("reward_users")));
    Ok((Response { messages: Vec::new(), attributes, events: Vec::new() }, outcomes))
}


/// Sends `amount` of the campaign's denomination to its owner; only the
/// owner may, and only an amount that the contract's balance `own_balance`
/// holds. The unallocated funds shrink by the amount, down to zero.
pub fn withdraw(state: &mut TokenVestingState, sender: &str, amount: u128, campaign_id: &str, own_balance: u128) -> (r: Result<Response, TokenVestingError>)
    requires
        old(state).wf(),
    ensures
        final(state).wf(),
        r is Err ==> *final(state) == *old(state),
        !old(state).campaigns@.contains_key(campaign_id@) ==> (r matches Err(TokenVestingError::CampaignMissing)),
        old(state).campaigns@.contains_key(campaign_id@) && old(state).campaigns@[campaign_id@].owner@ != sender@
            ==> (r matches Err(TokenVestingError::OnlyOwnerCanWithdraw)),
        old(state).campaigns@.contains_key(campaign_id@) && old(state).campaigns@[campaign_id@].owner@ == sender@
            && amount > own_balance ==> (r matches Err(TokenVestingError::NotEnoughContractFunds)),
        r is Ok <==> (old(state).campaigns@.contains_key(campaign_id@) && old(state).campaigns@[campaign_id@].owner@ == sender@
            && amount <= own_balance),
        r matches Ok(resp) ==> {
            let c = old(state).campaigns@[campaign_id@];
            let nc = final(state).campaigns@[campaign_id@];
            &&& final(state).campaigns@ == old(state).campaigns@.insert(campaign_id@, nc)
            &&& nc.unallocated_amount == after_withdraw(c.unallocated_amount, amount)
            &&& nc.campaign_id == c.campaign_id
            &&& nc.campaign_name == c.campaign_name
            &&& nc.campaign_description == c.campaign_description
            &&& nc.owner == c.owner
            &&& nc.managers == c.managers
            &&& nc.denom == c.denom
            &&& nc.is_active == c.is_active
            &&& final(state).user_rewards == old(state).user_rewards
            &&& final(state).accounts == old(state).accounts
            &&& resp.messages@.len() == 1
            &&& is_send_msg(resp.messages@[0], c.denom, amount, sender@)
            &&& resp.attributes@.len() == 2
            &&& resp.attributes@[0].key@ == "withdraw"@
            &&& resp.attributes@[0].value == AttrValue::Amount(amount)
            &&& resp.attributes@[1].key@ == "campaign_unallocated_amount"@
            &&& resp.attributes@[1].value == AttrValue::Amount(c.unallocated_amount)
        },
{
    match state.campaigns.get(campaign_id) {
        None => {
            return Err(TokenVestingError::CampaignMissing);
        },
        Some(c) => {
            if !str_eq(c.owner.as_str(), sender) {
                return Err(TokenVestingError::OnlyOwnerCanWithdraw);
            }
        },
    }
    if amount > own_balance {
        return Err(TokenVestingError::NotEnoughContractFunds);
    }
    let mut c = match state.campaigns.remove(campaign_id) {
        None => {
            return Err(TokenVestingError::CampaignMissing);
        },
        Some(c) => c,
    };
    let before = c.unallocated_amount;
    if amount > c.unallocated_amount {
        c.unallocated_amount = 0;
    } else {
        c.unallocated_amount = c.unallocated_amount - amount;
    }
    let msg = build_send_msg(&c.denom, amount, sender);
    state.campaigns.set(String::from_str(campaign_id), c);
    assert(state.campaigns@ =~= old(state).campaigns@.insert(campaign_id@, state.campaigns@[campaign_id@]));
    let mut messages: Vec<CosmosMsg> = Vec::new();
    messages.push(msg);
    let mut attributes: Vec<Attribute> = Vec::new();
    attributes.push(attr_amount("withdraw", amount));
    attributes.push(attr_amount("campaign_unallocated_amount", before));
    Ok(Response { messages, attributes, events: Vec::new() })
}

/// Deactivates the campaign and sends all its unallocated funds to its
/// owner, replying as a withdrawal does; the owner and the managers may
/// ask. Nothing is sent when nothing is unallocated. An inactive campaign
/// is left as it is.
pub fn deactivate_campaign(state: &mut TokenVestingState, sender: &str, campaign_id: &str) -> (r: Result<Response, TokenVestingError>)
    requires
        old(state).wf(),
    ensures
        final(state).wf(),
        r is Err ==> *final(state) == *old(state),
        !old(state).campaigns@.contains_key(campaign_id@) ==> (r matches Err(TokenVestingError::CampaignNotFound)),
        r is Ok <==> (old(state).campaigns@.contains_key(campaign_id@)
            && tv_can_manage(old(state).campaigns@[campaign_id@], sender@)),
        ({
            let c = old(state).campaigns@[campaign_id@];
            &&& old(state).campaigns@.contains_key(campaign_id@) && !tv_can_manage(c, sender@)
                ==> (r matches Err(TokenVestingError::UnauthorizedDeactivate))
            &&& old(state).campaigns@.contains_key(campaign_id@) && tv_can_manage(c, sender@) && !c.is_active
                ==> (r matches Ok(resp) && *final(state) == *old(state) && resp.messages@.len() == 0
                && resp.attributes@.len() == 2 && resp.attributes@[0].key@ == "method"@
                && resp.attributes@[1].key@ == "message"@)
            &&& old(state).campaigns@.contains_key(campaign_id@) && tv_can_manage(c, sender@) && c.is_active ==> {
                let nc = final(state).campaigns@[campaign_id@];
                &&& r matches Ok(resp)
                &&& final(state).campaigns@ == old(state).campaigns@.insert(campaign_id@, nc)
                &&& !nc.is_active
                &&& nc.unallocated_amount == 0
                &&& nc.campaign_id == c.campaign_id
                &&& nc.campaign_name == c.campaign_name
                &&& nc.campaign_description == c.campaign_description
                &&& nc.owner == c.owner
                &&& nc.managers == c.managers
                &&& nc.denom == c.denom
                &&& final(state).user_rewards == old(state).user_rewards
                &&& final(state).accounts == old(state).accounts
                &&& c.unallocated_amount == 0 ==> resp.messages@.len() == 0
                &&& c.unallocated_amount != 0 ==> resp.messages@.len() == 1
                    && is_send_msg(resp.messages@[0], c.denom, c.unallocated_amount, c.owner@)
                &&& resp.attributes@.len() == 2
                &&& resp.attributes@[0].key@ == "withdraw"@
                &&& resp.attributes@[0].value == AttrValue::Amount(c.unallocated_amount)
                &&& resp.attributes@[1].key@ == "campaign_unallocated_amount"@
                &&& resp.attributes@[1].value == AttrValue::Amount(c.unallocated_amount)
            }
        }),
{
    match state.campaigns.get(campaign_id) {
        None => {
            return Err(TokenVestingError::CampaignNotFound);
        },
        Some(c) => {
            if !str_eq(c.owner.as_str(), sender) && !vec_contains_str(&c.managers, sender) {
                return Err(TokenVestingError::UnauthorizedDeactivate);
            }
            if !c.is_active {
                let mut attributes: Vec<Attribute> = Vec::new();
                attributes.push(attr_text("method", String::from_str("deactivate")));
                attributes.push(attr_text("message", String::from_str("Campaign is already deactivated")));
                return Ok(Response { messages: Vec::new(), attributes, events: Vec::new() });
            }
        },
    }
    let mut c = match state.campaigns.remove(campaign_id) {
        None => {
            return Err(TokenVestingError::CampaignNotFound);
        },
        Some(c) => c,
    };
    let amount = c.unallocated_amount;
    let mut messages: Vec<CosmosMsg> = Vec::new();
    if amount != 0 {
        messages.push(build_send_msg(&c.denom, amount, c.owner.as_str()));
    }
    c.is_active = false;
    c.unallocated_amount = 0;
    state.campaigns.set(String::from_str(campaign_id), c);
    assert(state.campaigns@ =~= old(state).campaigns@.insert(campaign_id@, state.campaigns@[campaign_id@]));
    let mut attributes: Vec<Attribute> = Vec::new();
    attributes.push(attr_amount("withdraw", amount));
    attributes.push(attr_amount("campaign_unallocated_amount", amount));
    Ok(Response { messages, attributes, events: Vec::new() })
}

/// The unallocated funds after a withdrawal of `amount`: what remains, or
/// nothing when more than the unallocated funds is withdrawn.
pub open spec fn after_withdraw(unallocated: u128, amount: u128) -> u128 {
    if amount > unallocated {
        0
    } else {
        (unallocated - amount) as u128
    }
}

/// `o`'s text, or `d` when there is none.
pub open spec fn text_or(o: Option<String>, d: Seq<char>) -> Seq<char> {
    match o {
        Some(s) => s@,
        None => d,
    }
}

/// What registering an account of `address` in `deposit_denom` for
/// `deposit_amount` under `vesting_schedule` at `block_time` does: refused
/// when the account exists or the schedule does not fit the deposit, else
/// the account is added with nothing claimed.
pub open spec fn register_outcome(
    pre: TokenVestingState,
    post: TokenVestingState,
    r: Result<Response, TokenVestingError>,
    block_time: u64,
    master_address: Option<String>,
    address: String,
    deposit_denom: Denom,
    deposit_amount: u128,
    vesting_schedule: VestingSchedule,
) -> bool {
    &&& (r is Err ==> post == pre)
    &&& (accounts_of(pre.accounts@, address@).contains_key(denom_key(deposit_denom))
            ==> (r matches Err(TokenVestingError::AccountExists)))
    &&& (!accounts_of(pre.accounts@, address@).contains_key(denom_key(deposit_denom))
            && schedule_error(vesting_schedule, block_time, deposit_amount) is Some
            ==> r == Err::<Response, TokenVestingError>(TokenVestingError::Vesting(
            schedule_error(vesting_schedule, block_time, deposit_amount)->0)))
    &&& (r is Ok <==> (!accounts_of(pre.accounts@, address@).contains_key(denom_key(deposit_denom))
            && schedule_error(vesting_schedule, block_time, deposit_amount) is None))
    &&& (r matches Ok(resp) ==> {
            let acc = accounts_of(post.accounts@, address@)[denom_key(deposit_denom)];
            &&& post.accounts@ == pre.accounts@.insert(address@, post.accounts@[address@])
            &&& accounts_of(post.accounts@, address@)
                == accounts_of(pre.accounts@, address@).insert(denom_key(deposit_denom), acc)
            &&& acc.master_address == master_address
            &&& acc.address == address
            &&& acc.vesting_denom == deposit_denom
            &&& acc.vesting_amount == deposit_amount
            &&& acc.vesting_schedule == vesting_schedule
            &&& acc.claimed_amount == 0
            &&& post.campaigns == pre.campaigns
            &&& post.user_rewards == pre.user_rewards
            &&& resp.messages@.len() == 0
            &&& resp.attributes@.len() == 5
            &&& resp.attributes@[0].key@ == "action"@
            &&& resp.attributes@[0].value matches AttrValue::Text(t) && t@ == "register_vesting_account"@
            &&& resp.attributes@[1].key@ == "master_address"@
            &&& resp.attributes@[1].value matches AttrValue::Text(t) && t@ == text_or(master_address, Seq::empty())
            &&& resp.attributes@[2].key@ == "address"@
            &&& resp.attributes@[2].value matches AttrValue::Text(t) && t@ == address@
            &&& resp.attributes@[3].key@ == "vesting_denom"@
            &&& resp.attributes@[3].value == AttrValue::DenomJson(deposit_denom)
            &&& resp.attributes@[4].key@ == "vesting_amount"@
            &&& resp.attributes@[4].value == AttrValue::Amount(deposit_amount)
        })
}

/// Registers a vesting account of `address` for a deposit of
/// `deposit_amount` in `deposit_denom`, under the given schedule, with
/// `master_address` as the one who may deregister it.
pub fn register_vesting_account(
    state: &mut TokenVestingState,
    block_time: u64,
    master_address: Option<String>,
    address: String,
    deposit_denom: Denom,
    deposit_amount: u128,
    vesting_schedule: VestingSchedule,
) -> (r: Result<Response, TokenVestingError>)
    requires
        old(state).wf(),
    ensures
        final(state).wf(),
        register_outcome(*old(state), *final(state), r, block_time, master_address, address, deposit_denom,
            deposit_amount, vesting_schedule),
{
    let key = denom_to_key(&deposit_denom);
    let exists = match state.accounts.get(address.as_str()) {
        Some(m) => m.contains_key(key.as_str()),
        None => false,
    };
    if exists {
        return Err(TokenVestingError::AccountExists);
    }
    match vesting_schedule.validate(block_time, deposit_amount) {
        Err(e) => {
            return Err(TokenVestingError::Vesting(e));
        },
        Ok(()) => {},
    }
    let mut attributes: Vec<Attribute> = Vec::new();
    attributes.push(attr_text("action", String::from_str("register_vesting_account")));
    let master_text = match &master_address {
        Some(m) => m.clone(),
        None => String::new(),
    };
    attributes.push(attr_text("master_address", master_text));
    attributes.push(attr_text("address", address.clone()));
    attributes.push(Attribute { key: String::from_str("vesting_denom"), value: AttrValue::DenomJson(denom_copy(&deposit_denom)) });
    attributes.push(attr_amount("vesting_amount", deposit_amount));
    let mut inner: StrMap<VestingAccount> = match state.accounts.remove(address.as_str()) {
        Some(m) => m,
        None => StrMap::new(),
    };
    let outer_key = address.clone();
    let account = VestingAccount {
        master_address,
        address,
        vesting_denom: deposit_denom,
        vesting_amount: deposit_amount,
        vesting_schedule,
        claimed_amount: 0,
    };
    inner.set(key, account);
    state.accounts.set(outer_key, inner);
    assert(state.accounts@ =~= old(state).accounts@.insert(outer_key@, state.accounts@[outer_key@]));
    Ok(Response { messages: Vec::new(), attributes, events: Vec::new() })
}

/// Why deregistering `a` by `sender` at time `t` fails, `None` when it
/// succeeds: only its master may, and the vested amount must be computable
/// and lie between the claimed and the vesting amount.
pub open spec fn deregister_error(a: VestingAccount, sender: Seq<char>, t: u64) -> Option<TokenVestingError> {
    if a.master_address is None || a.master_address->0@ != sender {
        Some(TokenVestingError::NotMaster)
    } else {
        match schedule_vested(a.vesting_schedule, t) {
            None => Some(TokenVestingError::Math(MathError::Overflow)),
            Some(v) => if v < a.claimed_amount || a.vesting_amount < v {
                Some(TokenVestingError::Math(MathError::Overflow))
            } else {
                None
            },
        }
    }
}

/// The messages that send `first` to `to1` and then `second` to `to2` in
/// `denom`, each only when it is not zero.
pub open spec fn two_sends(msgs: Seq<CosmosMsg>, denom: Denom, first: int, to1: Seq<char>, second: int, to2: Seq<char>) -> bool {
    let n1: int = if first > 0 { 1 } else { 0 };
    &&& msgs.len() == n1 + if second > 0 { 1int } else { 0int }
    &&& first > 0 ==> is_send_msg(msgs[0], denom, first as u128, to1)
    &&& second > 0 ==> is_send_msg(msgs[n1], denom, second as u128, to2)
}

/// Deregisters the vesting account of `address` in `denom`; only its master
/// may. What has vested and is not claimed goes to `vested_token_recipient`
/// (the address by default), what has not vested to
/// `left_vesting_token_recipient` (the sender by default).
pub fn deregister_vesting_account(
    state: &mut TokenVestingState,
    sender: &str,
    block_time: u64,
    address: &str,
    denom: &Denom,
    vested_token_recipient: Option<String>,
    left_vesting_token_recipient: Option<String>,
) -> (r: Result<Response, TokenVestingError>)
    requires
        old(state).wf(),
    ensures
        final(state).wf(),
        r is Err ==> *final(state) == *old(state),
        ({
            let m = accounts_of(old(state).accounts@, address@);
            let k = denom_key(*denom);
            &&& !m.contains_key(k) ==> r == Err::<Response, TokenVestingError>(TokenVestingError::AccountNotFound(*denom))
            &&& m.contains_key(k) && deregister_error(m[k], sender@, block_time) is Some
                ==> r == Err::<Response, TokenVestingError>(deregister_error(m[k], sender@, block_time)->0)
            &&& r is Ok <==> (m.contains_key(k) && deregister_error(m[k], sender@, block_time) is None)
            &&& r matches Ok(resp) ==> {
                let a = m[k];
                let v = schedule_vested(a.vesting_schedule, block_time)->0;
                &&& final(state).accounts@ == old(state).accounts@.insert(address@, final(state).accounts@[address@])
                &&& accounts_of(final(state).accounts@, address@) == m.remove(k)
                &&& final(state).campaigns == old(state).campaigns
                &&& final(state).user_rewards == old(state).user_rewards
                &&& two_sends(resp.messages@, a.vesting_denom, v - a.claimed_amount, text_or(vested_token_recipient, address@),
                    a.vesting_amount - v, text_or(left_vesting_token_recipient, sender@))
                &&& resp.attributes@.len() == 6
                &&& resp.attributes@[0].key@ == "action"@
                &&& resp.attributes@[0].value matches AttrValue::Text(t) && t@ == "deregister_vesting_account"@
                &&& resp.attributes@[1].key@ == "address"@
                &&& resp.attributes@[1].value matches AttrValue::Text(t) && t@ == address@
                &&& resp.attributes@[2].key@ == "vesting_denom"@
                &&& resp.attributes@[2].value == AttrValue::DenomJson(a.vesting_denom)
                &&& resp.attributes@[3].key@ == "vesting_amount"@
                &&& resp.attributes@[3].value == AttrValue::Amount(a.vesting_amount)
                &&& resp.attributes@[4].key@ == "vested_amount"@
                &&& resp.attributes@[4].value == AttrValue::Amount(v as u128)
                &&& resp.attributes@[5].key@ == "left_vesting_amount"@
                &&& resp.attributes@[5].value == AttrValue::Amount((a.vesting_amount - v) as u128)
            }
        }),
{
    let key = denom_to_key(denom);
    let (messages, attributes) = match state.accounts.get(address) {
        None => {
            return Err(TokenVestingError::AccountNotFound(denom_copy(denom)));
        },
        Some(m) => match m.get(key.as_str()) {
            None => {
                return Err(TokenVestingError::AccountNotFound(denom_copy(denom)));
            },
            Some(a) => {
                let is_master = match &a.master_address {
                    Some(master) => str_eq(master.as_str(), sender),
                    None => false,
                };
                if !is_master {
                    return Err(TokenVestingError::NotMaster);
                }
                let vested = match a.vesting_schedule.vested_amount(block_time) {
                    Err(e) => {
                        return Err(TokenVestingError::Math(e));
                    },
                    Ok(v) => v,
                };
                if vested < a.claimed_amount {
                    return Err(TokenVestingError::Math(MathError::Overflow));
                }
                let claimable = vested - a.claimed_amount;
                if a.vesting_amount < vested {
                    return Err(TokenVestingError::Math(MathError::Overflow));
                }
                let left = a.vesting_amount - vested;
                let mut messages: Vec<CosmosMsg> = Vec::new();
                if claimable != 0 {
                    let to = match vested_token_recipient {
                        Some(s) => s,
                        None => String::from_str(address),
                    };
                    messages.push(build_send_msg(&a.vesting_denom, claimable, to.as_str()));
                }
                if left != 0 {
                    let to = match left_vesting_token_recipient {
                        Some(s) => s,
                        None => String::from_str(sender),
                    };
                    messages.push(build_send_msg(&a.vesting_denom, left, to.as_str()));
                }
                let mut attributes: Vec<Attribute> = Vec::new();
                attributes.push(attr_text("action", String::from_str("deregister_vesting_account")));
                attributes.push(attr_text("address", String::from_str(address)));
                attributes.push(Attribute {
                    key: String::from_str("vesting_denom"),
                    value: AttrValue::DenomJson(denom_copy(&a.vesting_denom)),
                });
                attributes.push(attr_amount("vesting_amount", a.vesting_amount));
                attributes.push(attr_amount("vested_amount", vested));
                attributes.push(attr_amount("left_vesting_amount", left));
                (messages, attributes)
            },
        },
    };
    let mut inner = match state.accounts.remove(address) {
        Some(m) => m,
        None => StrMap::new(),
    };
    let _ = inner.remove(key.as_str());
    state.accounts.set(String::from_str(address), inner);
    assert(state.accounts@ =~= old(state).accounts@.insert(address@, state.accounts@[address@]));
    Ok(Response { messages, attributes, events: Vec::new() })
}

/// What a claim of one vesting account pays out.
#[derive(Debug)]
pub struct ClaimRecord {
    pub denom: Denom,
    pub vesting_amount: u128,
    pub vested_amount: u128,
    pub claim_amount: u128,
}

/// A claim at time `t` of the account of `d` among the accounts `m`: the
/// accounts after it and what it paid, if anything. An account is paid what
/// has vested and is not claimed yet; once all has vested it is removed.
pub open spec fn claim_step(m: Map<Seq<char>, VestingAccount>, d: Denom, t: u64) -> Result<(Map<Seq<char>, VestingAccount>, Option<ClaimRecord>), TokenVestingError> {
    let k = denom_key(d);
    if !m.contains_key(k) {
        Err(TokenVestingError::AccountNotFound(d))
    } else {
        let a = m[k];
        match schedule_vested(a.vesting_schedule, t) {
            None => Err(TokenVestingError::Math(MathError::Overflow)),
            Some(v) => if v < a.claimed_amount {
                Err(TokenVestingError::Math(MathError::Overflow))
            } else if v == a.claimed_amount {
                Ok((m, None))
            } else {
                let na = VestingAccount {
                    master_address: a.master_address,
                    address: a.address,
                    vesting_denom: a.vesting_denom,
                    vesting_amount: a.vesting_amount,
                    vesting_schedule: a.vesting_schedule,
                    claimed_amount: v as u128,
                };
                let m2 = if v == a.vesting_amount { m.remove(k) } else { m.insert(k, na) };
                Ok((m2, Some(ClaimRecord {
                    denom: a.vesting_denom,
                    vesting_amount: a.vesting_amount,
                    vested_amount: v as u128,
                    claim_amount: (v - a.claimed_amount) as u128,
                })))
            },
        }
    }
}

/// The claims of the denominations `ds` in turn: the accounts after them
/// and what they paid, or the first error.
pub open spec fn claim_run(m: Map<Seq<char>, VestingAccount>, ds: Seq<Denom>, t: u64) -> Result<(Map<Seq<char>, VestingAccount>, Seq<ClaimRecord>), TokenVestingError>
    decreases ds.len(),
{
    if ds.len() == 0 {
        Ok((m, Seq::empty()))
    } else {
        match claim_run(m, ds.drop_last(), t) {
            Err(e) => Err(e),
            Ok((m1, recs)) => match claim_step(m1, ds.last(), t) {
                Err(e) => Err(e),
                Ok((m2, None)) => Ok((m2, recs)),
                Ok((m2, Some(rec))) => Ok((m2, recs.push(rec))),
            },
        }
    }
}

proof fn lemma_claim_err_extends(m: Map<Seq<char>, VestingAccount>, ds: Seq<Denom>, n: int, t: u64)
    requires
        0 <= n <= ds.len(),
        claim_run(m, ds.subrange(0, n), t) is Err,
    ensures
        claim_run(m, ds, t) == claim_run(m, ds.subrange(0, n), t),
    decreases ds.len(),
{
    if n < ds.len() {
        assert(ds.drop_last().subrange(0, n) =~= ds.subrange(0, n));
        lemma_claim_err_extends(m, ds.drop_last(), n, t);
    } else {
        assert(ds.subrange(0, n) =~= ds);
    }
}

/// The four attributes of the claim `rec` at position `j` of `attrs`.
pub open spec fn claim_attrs_at(attrs: Seq<Attribute>, j: int, rec: ClaimRecord) -> bool {
    &&& attrs[4 * j].key@ == "vesting_denom"@
    &&& attrs[4 * j].value == AttrValue::DenomJson(rec.denom)
    &&& attrs[4 * j + 1].key@ == "vesting_amount"@
    &&& attrs[4 * j + 1].value == AttrValue::Amount(rec.vesting_amount)
    &&& attrs[4 * j + 2].key@ == "vested_amount"@
    &&& attrs[4 * j + 2].value == AttrValue::Amount(rec.vested_amount)
    &&& attrs[4 * j + 3].key@ == "claim_amount"@
    &&& attrs[4 * j + 3].value == AttrValue::Amount(rec.claim_amount)
}

/// `m` with the accounts of `undo` put back, the last first.
pub open spec fn restore(m: Map<Seq<char>, VestingAccount>, undo: Seq<(String, VestingAccount)>) -> Map<Seq<char>, VestingAccount>
    decreases undo.len(),
{
    if undo.len() == 0 {
        m
    } else {
        restore(m.insert(undo.last().0@, undo.last().1), undo.drop_last())
    }
}

fn undo_claims(m: &mut StrMap<VestingAccount>, undo: Vec<(String, VestingAccount)>)
    requires
        old(m).wf(),
        keys_match(old(m)@),
        forall|j: int| 0 <= j < undo@.len() ==> denom_key((#[trigger] undo@[j]).1.vesting_denom) == undo@[j].0@,
    ensures
        final(m).wf(),
        keys_match(final(m)@),
        final(m)@ == restore(old(m)@, undo@),
{
    let ghost target = restore(m@, undo@);
    let mut undo = undo;
    while undo.len() > 0
        invariant
            m.wf(),
            keys_match(m@),
            forall|j: int| 0 <= j < undo@.len() ==> denom_key((#[trigger] undo@[j]).1.vesting_denom) == undo@[j].0@,
            restore(m@, undo@) == target,
        decreases undo.len(),
    {
        let ghost before = undo@;
        let (k, a) = undo.pop().unwrap();
        assert(undo@ =~= before.drop_last());
        m.set(k, a);
    }
}

fn claim_one(m: &mut StrMap<VestingAccount>, denom: &Denom, block_time: u64, recipient: &str) -> (r: Result<Option<(CosmosMsg, Vec<Attribute>, String, VestingAccount)>, TokenVestingError>)
    requires
        old(m).wf(),
        keys_match(old(m)@),
    ensures
        final(m).wf(),
        keys_match(final(m)@),
        match claim_step(old(m)@, *denom, block_time) {
            Err(e) => r == Err::<Option<(CosmosMsg, Vec<Attribute>, String, VestingAccount)>, TokenVestingError>(e)
                && *final(m) == *old(m),
            Ok((m2, None)) => (r matches Ok(None)) && *final(m) == *old(m),
            Ok((m2, Some(rec))) => (r matches Ok(Some((msg, attrs, k, a))) && {
                &&& final(m)@ == m2
                &&& is_send_msg(msg, rec.denom, rec.claim_amount, recipient@)
                &&& attrs@.len() == 4
                &&& claim_attrs_at(attrs@, 0, rec)
                &&& k@ == denom_key(*denom)
                &&& old(m)@.contains_key(k@)
                &&& a == old(m)@[k@]
                &&& denom_key(a.vesting_denom) == k@
                &&& final(m)@.insert(k@, a) == old(m)@
            }),
        },
{
    let key = denom_to_key(denom);
    let (vested, claimed, vesting_amount) = match m.get(key.as_str()) {
        None => {
            return Err(TokenVestingError::AccountNotFound(denom_copy(denom)));
        },
        Some(a) => match a.vesting_schedule.vested_amount(block_time) {
            Err(e) => {
                return Err(TokenVestingError::Math(e));
            },
            Ok(v) => (v, a.claimed_amount, a.vesting_amount),
        },
    };
    if vested < claimed {
        return Err(TokenVestingError::Math(MathError::Overflow));
    }
    let claimable = vested - claimed;
    if claimable == 0 {
        return Ok(None);
    }
    let ghost m_before = m@;
    let a = match m.remove(key.as_str()) {
        Some(a) => a,
        None => {
            return Err(TokenVestingError::AccountNotFound(denom_copy(denom)));
        },
    };
    let msg = build_send_msg(&a.vesting_denom, claimable, recipient);
    let mut attrs: Vec<Attribute> = Vec::new();
    attrs.push(Attribute { key: String::from_str("vesting_denom"), value: AttrValue::DenomJson(denom_copy(&a.vesting_denom)) });
    attrs.push(attr_amount("vesting_amount", a.vesting_amount));
    attrs.push(attr_amount("vested_amount", vested));
    attrs.push(attr_amount("claim_amount", claimable));
    if vested != vesting_amount {
        let na = VestingAccount {
            master_address: opt_string_copy(&a.master_address),
            address: a.address.clone(),
            vesting_denom: denom_copy(&a.vesting_denom),
            vesting_amount: a.vesting_amount,
            vesting_schedule: a.vesting_schedule,
            claimed_amount: vested,
        };
        m.set(key.clone(), na);
    }
    assert(m@.insert(key@, a) =~= m_before);
    Ok(Some((msg, attrs, key, a)))
}

/// Claims, for each denomination of `denoms` in turn, what has vested of
/// the sender's account and is not claimed yet, and sends it to `recipient`
/// (the sender by default). Refused as a whole when an account is missing
/// or its vested amount cannot be computed.
pub fn claim(state: &mut TokenVestingState, sender: &str, block_time: u64, denoms: &Vec<Denom>, recipient: Option<String>) -> (r: Result<Response, TokenVestingError>)
    requires
        old(state).wf(),
    ensures
        final(state).wf(),
        match claim_run(accounts_of(old(state).accounts@, sender@), denoms@, block_time) {
            Err(e) => r == Err::<Response, TokenVestingError>(e) && final(state).same_as(*old(state)),
            Ok((m2, recs)) => (r matches Ok(resp) && {
                &&& accounts_of(final(state).accounts@, sender@) == m2
                &&& forall|a: Seq<char>| a != sender@ ==> #[trigger] accounts_of(final(state).accounts@, a)
                    == accounts_of(old(state).accounts@, a)
                &&& final(state).campaigns == old(state).campaigns
                &&& final(state).user_rewards == old(state).user_rewards
                &&& resp.messages@.len() == recs.len()
                &&& forall|j: int| 0 <= j < recs.len() ==> is_send_msg(#[trigger] resp.messages@[j], recs[j].denom,
                    recs[j].claim_amount, text_or(recipient, sender@))
                &&& resp.attributes@.len() == 2 + 4 * recs.len()
                &&& resp.attributes@[0].key@ == "action"@
                &&& resp.attributes@[0].value matches AttrValue::Text(t) && t@ == "claim"@
                &&& resp.attributes@[1].key@ == "address"@
                &&& resp.attributes@[1].value matches AttrValue::Text(t) && t@ == sender@
                &&& forall|j: int| 0 <= j < recs.len() ==> #[trigger] claim_attrs_at(
                    resp.attributes@.subrange(2, resp.attributes@.len() as int), j, recs[j])
            }),
        },
{
    let to = match recipient {
        Some(s) => s,
        None => String::from_str(sender),
    };
    let ghost m0 = accounts_of(state.accounts@, sender@);
    let mut m: StrMap<VestingAccount> = match state.accounts.remove(sender) {
        Some(x) => x,
        None => StrMap::new(),
    };
    let mut messages: Vec<CosmosMsg> = Vec::new();
    let mut extra: Vec<Attribute> = Vec::new();
    let mut undo: Vec<(String, VestingAccount)> = Vec::new();
    let ghost mut recs: Seq<ClaimRecord> = Seq::empty();
    let mut i: usize = 0;
    while i < denoms.len()
        invariant
            i <= denoms@.len(),
            m.wf(),
            keys_match(m@),
            claim_run(m0, denoms@.subrange(0, i as int), block_time)
                == Ok::<(Map<Seq<char>, VestingAccount>, Seq<ClaimRecord>), TokenVestingError>((m@, recs)),
            restore(m@, undo@) == m0,
            forall|j: int| 0 <= j < undo@.len() ==> denom_key((#[trigger] undo@[j]).1.vesting_denom) == undo@[j].0@,
            messages@.len() == recs.len(),
            forall|j: int| 0 <= j < recs.len() ==> is_send_msg(#[trigger] messages@[j], recs[j].denom, recs[j].claim_amount, to@),
            extra@.len() == 4 * recs.len(),
            forall|j: int| 0 <= j < recs.len() ==> #[trigger] claim_attrs_at(extra@, j, recs[j]),
            state.accounts@ == old(state).accounts@.remove(sender@),
            old(state).wf(),
            state.accounts.wf(),
            state.campaigns.wf(),
            state.user_rewards.wf(),
            forall|a: Seq<char>| #[trigger] state.accounts@.contains_key(a) ==> state.accounts@[a].wf()
                && keys_match(state.accounts@[a]@),
            state.campaigns == old(state).campaigns,
            state.user_rewards == old(state).user_rewards,
            m0 == accounts_of(old(state).accounts@, sender@),
            to@ == text_or(recipient, sender@),
        decreases denoms.len() - i,
    {
        assert(denoms@.subrange(0, i + 1).drop_last() =~= denoms@.subrange(0, i as int));
        let ghost mb = m@;
        let ghost undo_before = undo@;
        let ghost extra_before = extra@;
        match claim_one(&mut m, &denoms[i], block_time, to.as_str()) {
            Err(e) => {
                proof {
                    lemma_claim_err_extends(m0, denoms@, i + 1, block_time);
                }
                undo_claims(&mut m, undo);
                state.accounts.set(String::from_str(sender), m);
                assert forall|a: Seq<char>| #[trigger] state.accounts@.contains_key(a) implies state.accounts@[a].wf()
                    && keys_match(state.accounts@[a]@) by {
                    if a != sender@ {
                        assert(old(state).accounts@.contains_key(a));
                    }
                }
                return Err(e);
            },
            Ok(None) => {},
            Ok(Some((msg, attrs, k, a))) => {
                proof {
                    match claim_step(mb, denoms@[i as int], block_time) {
                        Ok((_, Some(rec))) => {
                            recs = recs.push(rec);
                        },
                        _ => {},
                    }
                }
                messages.push(msg);
                let mut attrs = attrs;
                extra.append(&mut attrs);
                undo.push((k, a));
                assert(undo@.drop_last() =~= undo_before);
                assert forall|j: int| 0 <= j < recs.len() implies #[trigger] claim_attrs_at(extra@, j, recs[j]) by {
                    if j < recs.len() - 1 {
                        assert(claim_attrs_at(extra_before, j, recs[j]));
                    }
                }
            },
        }
        i = i + 1;
    }
    assert(denoms@.subrange(0, denoms@.len() as int) =~= denoms@);
    state.accounts.set(String::from_str(sender), m);
    let mut attributes: Vec<Attribute> = Vec::new();
    attributes.push(attr_text("action", String::from_str("claim")));
    attributes.push(attr_text("address", String::from_str(sender)));
    let ghost ex = extra@;
    attributes.append(&mut extra);
    assert(attributes@.subrange(2, attributes@.len() as int) =~= ex);
    Ok(Response { messages, attributes, events: Vec::new() })
}

/// A vesting account as queried.
#[derive(Debug)]
pub struct VestingData {
    pub master_address: Option<String>,
    pub vesting_denom: Denom,
    pub vesting_amount: u128,
    pub vesting_schedule: VestingSchedule,
    pub vested_amount: u128,
    pub claimable_amount: u128,
}

/// The vesting accounts of an address.
#[derive(Debug)]
pub struct VestingAccountResponse {
    pub address: String,
    pub vestings: Vec<VestingData>,
}

/// The number of accounts a query returns at most: the limit asked for
/// (ten by default), no more than thirty.
pub open spec fn query_limit(limit: Option<u32>) -> int {
    let l: int = match limit {
        Some(x) => x as int,
        None => 10,
    };
    if l < 30 {
        l
    } else {
        30
    }
}

/// The key that a query starts after, if any.
pub open spec fn start_key(d: Option<Denom>) -> Option<Seq<char>> {
    match d {
        None => None,
        Some(x) => Some(denom_key(x)),
    }
}

/// Whether the amounts of `a` at time `t` cannot be computed: the vested
/// amount overflows or lies below the claimed amount.
pub open spec fn data_fails(a: VestingAccount, t: u64) -> bool {
    match schedule_vested(a.vesting_schedule, t) {
        None => true,
        Some(v) => v < a.claimed_amount,
    }
}

/// Whether `d` shows the account `a` at time `t`.
pub open spec fn shows(d: VestingData, a: VestingAccount, t: u64) -> bool {
    &&& d.master_address == a.master_address
    &&& d.vesting_denom == a.vesting_denom
    &&& d.vesting_amount == a.vesting_amount
    &&& d.vesting_schedule == a.vesting_schedule
    &&& schedule_vested(a.vesting_schedule, t) == Some(d.vested_amount as int)
    &&& d.claimable_amount == d.vested_amount - a.claimed_amount
}

/// When an account among the first keys fails, every selection of the
/// first keys holds a failing account.
proof fn lemma_selection_fails(sel: Seq<Seq<char>>, m: Map<Seq<char>, VestingAccount>, start: Option<Seq<char>>, n: int, i: int, t: u64)
    requires
        first_keys_after(sel, m, start, n),
        0 <= i < sel.len(),
        data_fails(m[sel[i]], t),
    ensures
        forall|s2: Seq<Seq<char>>| #[trigger] first_keys_after(s2, m, start, n)
            ==> exists|j: int| 0 <= j < s2.len() && data_fails(m[#[trigger] s2[j]], t),
{
    assert forall|s2: Seq<Seq<char>>| #[trigger] first_keys_after(s2, m, start, n)
        implies exists|j: int| 0 <= j < s2.len() && data_fails(m[#[trigger] s2[j]], t) by {
        lemma_first_keys_unique(s2, sel, m, start, n);
        assert(data_fails(m[s2[i]], t));
    }
}

/// The vesting accounts of `address` whose denomination keys follow that
/// of `start_after`, in the order of their keys, at most `limit` of them,
/// with what has vested at `block_time` and what can be claimed.
#[verifier::spinoff_prover]
pub fn vesting_account(state: &TokenVestingState, block_time: u64, address: String, start_after: Option<Denom>, limit: Option<u32>) -> (r: Result<VestingAccountResponse, TokenVestingError>)
    requires
        state.wf(),
    ensures
        ({
            let m = accounts_of(state.accounts@, address@);
            let start = start_key(start_after);
            &&& r matches Ok(resp) ==> {
                &&& resp.address == address
                &&& first_keys_after(resp.vestings@.map_values(|d: VestingData| denom_key(d.vesting_denom)), m, start, query_limit(limit))
                &&& forall|i: int| 0 <= i < resp.vestings@.len() ==> shows(#[trigger] resp.vestings@[i],
                    m[denom_key(resp.vestings@[i].vesting_denom)], block_time)
            }
            &&& exists|sel: Seq<Seq<char>>| #[trigger] first_keys_after(sel, m, start, query_limit(limit))
            &&& r matches Err(e) ==> e == TokenVestingError::Math(MathError::Overflow)
            &&& r is Ok <==> forall|sel: Seq<Seq<char>>| #[trigger] first_keys_after(sel, m, start, query_limit(limit))
                ==> forall|i: int| 0 <= i < sel.len() ==> !data_fails(m[#[trigger] sel[i]], block_time)
        }),
{
    let l: u32 = match limit {
        Some(x) => x,
        None => 10,
    };
    let n: usize = if l < 30 { l as usize } else { 30 };
    let start: Option<String> = match &start_after {
        None => None,
        Some(d) => Some(denom_to_key(d)),
    };
    let ghost m = accounts_of(state.accounts@, address@);
    let mut vestings: Vec<VestingData> = Vec::new();
    match state.accounts.get(address.as_str()) {
        None => {
            assert(vestings@.map_values(|d: VestingData| denom_key(d.vesting_denom)) =~= Seq::<Seq<char>>::empty());
        },
        Some(inner) => {
            let keys = first_keys(inner, start, n);
            let ghost sel = keys@.map_values(|s: String| s@);
            let mut i: usize = 0;
            while i < keys.len()
                invariant
                    inner.wf(),
                    inner@ == m,
                    m == accounts_of(state.accounts@, address@),
                    keys_match(m),
                    sel == keys@.map_values(|s: String| s@),
                    first_keys_after(sel, m, start_key(start_after), query_limit(limit)),
                    i <= keys@.len(),
                    vestings@.len() == i,
                    forall|j: int| 0 <= j < i ==> denom_key((#[trigger] vestings@[j]).vesting_denom) == sel[j]
                        && shows(vestings@[j], m[sel[j]], block_time),
                decreases keys.len() - i,
            {
                assert(sel[i as int] == keys@[i as int]@);
                assert(m.contains_key(sel[i as int]));
                let a = match inner.get(keys[i].as_str()) {
                    Some(a) => a,
                    None => {
                        return Err(TokenVestingError::Math(MathError::Overflow));
                    },
                };
                let vested = match a.vesting_schedule.vested_amount(block_time) {
                    Err(_) => {
                        assert(m.contains_key(sel[i as int]) && after(sel[i as int], start_key(start_after))
                            && data_fails(m[sel[i as int]], block_time));
                        proof {
                            lemma_selection_fails(sel, m, start_key(start_after), query_limit(limit), i as int, block_time);
                        }
                        return Err(TokenVestingError::Math(MathError::Overflow));
                    },
                    Ok(v) => v,
                };
                if vested < a.claimed_amount {
                    assert(m.contains_key(sel[i as int]) && after(sel[i as int], start_key(start_after))
                        && data_fails(m[sel[i as int]], block_time));
                    proof {
                        lemma_selection_fails(sel, m, start_key(start_after), query_limit(limit), i as int, block_time);
                    }
                    return Err(TokenVestingError::Math(MathError::Overflow));
                }
                vestings.push(VestingData {
                    master_address: opt_string_copy(&a.master_address),
                    vesting_denom: denom_copy(&a.vesting_denom),
                    vesting_amount: a.vesting_amount,
                    vesting_schedule: a.vesting_schedule,
                    vested_amount: vested,
                    claimable_amount: vested - a.claimed_amount,
                });
                i = i + 1;
            }
            assert(vestings@.map_values(|d: VestingData| denom_key(d.vesting_denom)) =~= sel);
        },
    }
    let resp = VestingAccountResponse { address, vestings };
    assert forall|i: int| 0 <= i < resp.vestings@.len() implies shows(#[trigger] resp.vestings@[i],
        m[denom_key(resp.vestings@[i].vesting_denom)], block_time) by {}
    proof {
        let got = resp.vestings@.map_values(|d: VestingData| denom_key(d.vesting_denom));
        assert(first_keys_after(got, m, start_key(start_after), query_limit(limit)));
        assert forall|s2: Seq<Seq<char>>| #[trigger] first_keys_after(s2, m, start_key(start_after), query_limit(limit))
            implies forall|i: int| 0 <= i < s2.len() ==> !data_fails(m[#[trigger] s2[i]], block_time) by {
            lemma_first_keys_unique(s2, got, m, start_key(start_after), query_limit(limit));
            assert forall|i: int| 0 <= i < s2.len() implies !data_fails(m[#[trigger] s2[i]], block_time) by {
                assert(s2[i] == denom_key(resp.vestings@[i].vesting_denom));
                assert(shows(resp.vestings@[i], m[denom_key(resp.vestings@[i].vesting_denom)], block_time));
            }
        }
    }
    Ok(resp)
}

/// The message a cw20 token contract forwards with the tokens it sends.
#[derive(Debug)]
pub enum Cw20HookMsg {
    RegisterVestingAccount { master_address: Option<String>, address: String, vesting_schedule: VestingSchedule },
}

/// Registers a vesting account funded by the single native coin sent.
pub fn register_funded_vesting_account(
    state: &mut TokenVestingState,
    block_time: u64,
    funds: &Vec<Coin>,
    master_address: Option<String>,
    address: String,
    vesting_schedule: VestingSchedule,
) -> (r: Result<Response, TokenVestingError>)
    requires
        old(state).wf(),
    ensures
        final(state).wf(),
        funds@.len() != 1 ==> (r matches Err(TokenVestingError::OneDepositCoin)) && *final(state) == *old(state),
        funds@.len() == 1 ==> register_outcome(*old(state), *final(state), r, block_time, master_address, address,
            Denom::Native(funds@[0].denom), funds@[0].amount, vesting_schedule),
{
    if funds.len() != 1 {
        return Err(TokenVestingError::OneDepositCoin);
    }
    let denom = Denom::Native(funds[0].denom.clone());
    register_vesting_account(state, block_time, master_address, address, denom, funds[0].amount, vesting_schedule)
}

/// Handles `amount` of the cw20 token `token_contract` sent with the hook
/// message `hook` (`None` when it could not be read): registers the vesting
/// account it asks for, funded by the tokens.
pub fn receive_cw20(state: &mut TokenVestingState, block_time: u64, token_contract: String, amount: u128, hook: Option<Cw20HookMsg>) -> (r: Result<Response, TokenVestingError>)
    requires
        old(state).wf(),
    ensures
        final(state).wf(),
        match hook {
            None => (r matches Err(TokenVestingError::InvalidHook)) && *final(state) == *old(state),
            Some(Cw20HookMsg::RegisterVestingAccount { master_address, address, vesting_schedule }) =>
                register_outcome(*old(state), *final(state), r, block_time, master_address, address,
                Denom::Cw20(token_contract), amount, vesting_schedule),
        },
{
    match hook {
        None => Err(TokenVestingError::InvalidHook),
        Some(Cw20HookMsg::RegisterVestingAccount { master_address, address, vesting_schedule }) =>
            register_vesting_account(state, block_time, master_address, address, Denom::Cw20(token_contract), amount, vesting_schedule),
    }
}

proof fn lemma_schedule_vested_range(s: VestingSchedule, t: u64)
    ensures
        schedule_vested(s, t) matches Some(v) ==> 0 <= v <= u128::MAX,
{
    match s {
        VestingSchedule::LinearVesting { start_time, end_time, vesting_amount } => {
            if t > start_time && t < end_time {
                lemma_part_le(vesting_amount as int, t - start_time, end_time - start_time);
            }
        },
        VestingSchedule::LinearVestingWithCliff { end_time, vesting_amount, cliff_amount, cliff_time, .. } => {
            if t > cliff_time && t < end_time && cliff_amount <= vesting_amount {
                lemma_part_le(vesting_amount - cliff_amount, t - cliff_time, end_time - cliff_time);
            }
        },
    }
}

/// A claim settles an account: claiming it again at the same time pays
/// nothing, or finds it gone when all had vested.
pub proof fn law_claim_settles(m: Map<Seq<char>, VestingAccount>, d: Denom, t: u64)
    requires
        claim_step(m, d, t) is Ok,
    ensures
        ({
            let m2 = claim_step(m, d, t)->Ok_0.0;
            ||| claim_step(m2, d, t) == Ok::<(Map<Seq<char>, VestingAccount>, Option<ClaimRecord>), TokenVestingError>((m2, None))
            ||| claim_step(m2, d, t) == Err::<(Map<Seq<char>, VestingAccount>, Option<ClaimRecord>), TokenVestingError>(
                TokenVestingError::AccountNotFound(d))
        }),
{
    lemma_schedule_vested_range(m[denom_key(d)].vesting_schedule, t);
}

/// A schedule accepted for a deposit never vests more than the deposit.
proof fn lemma_accepted_vests_within(s: VestingSchedule, t: u64, block_time: u64, deposit: u128)
    requires
        schedule_error(s, block_time, deposit) is None,
    ensures
        schedule_vested(s, t) matches Some(v) ==> 0 <= v <= deposit,
{
    match s {
        VestingSchedule::LinearVesting { start_time, end_time, vesting_amount } => {
            if t > start_time && t < end_time {
                lemma_part_le(vesting_amount as int, t - start_time, end_time - start_time);
            }
        },
        VestingSchedule::LinearVestingWithCliff { end_time, vesting_amount, cliff_amount, cliff_time, .. } => {
            if t > cliff_time && t < end_time {
                lemma_part_le(vesting_amount - cliff_amount, t - cliff_time, end_time - cliff_time);
            }
        },
    }
}

/// Claims never pay out more than was deposited: for an account whose
/// schedule was accepted for its deposit, what was claimed before plus
/// what a claim pays stays within the vesting amount, and so does what the
/// account then records as claimed.
pub proof fn law_claims_within_vesting(m: Map<Seq<char>, VestingAccount>, d: Denom, t: u64, registered_at: u64)
    requires
        m.contains_key(denom_key(d)),
        schedule_error(m[denom_key(d)].vesting_schedule, registered_at, m[denom_key(d)].vesting_amount) is None,
        claim_step(m, d, t) is Ok,
    ensures
        ({
            let a = m[denom_key(d)];
            let (m2, rec) = claim_step(m, d, t)->Ok_0;
            &&& rec matches Some(c) ==> a.claimed_amount + c.claim_amount <= a.vesting_amount
            &&& m2.contains_key(denom_key(d)) ==> m2[denom_key(d)].claimed_amount <= m2[denom_key(d)].vesting_amount
                && m2[denom_key(d)].vesting_amount == a.vesting_amount
        }),
{
    let a = m[denom_key(d)];
    lemma_accepted_vests_within(a.vesting_schedule, t, registered_at, a.vesting_amount);
    lemma_schedule_vested_range(a.vesting_schedule, t);
}

/// Deregistering pays out exactly what the account still holds: what has
/// vested and is not claimed, plus what has not vested.
pub proof fn law_deregister_pays_rest(a: VestingAccount, sender: Seq<char>, t: u64)
    requires
        deregister_error(a, sender, t) is None,
    ensures
        ({
            let v = schedule_vested(a.vesting_schedule, t)->0;
            (v - a.claimed_amount) + (a.vesting_amount - v) == a.vesting_amount - a.claimed_amount
                && 0 <= v - a.claimed_amount && 0 <= a.vesting_amount - v
        }),
{
}

/// A linear schedule accepted for its deposit vests more and more with
/// time and never more than its vesting amount.
pub proof fn law_linear_vested_monotone(vesting_amount: u128, start_time: u64, end_time: u64, t1: u64, t2: u64)
    requires
        start_time < end_time,
        t1 <= t2,
        linear_vested_spec(vesting_amount, start_time, end_time, t1) is Some,
        linear_vested_spec(vesting_amount, start_time, end_time, t2) is Some,
    ensures
        0 <= linear_vested_spec(vesting_amount, start_time, end_time, t1)->0
            <= linear_vested_spec(vesting_amount, start_time, end_time, t2)->0 <= vesting_amount,
{
    let span = end_time - start_time;
    if t1 > start_time && t1 < end_time {
        lemma_part_le(vesting_amount as int, t1 - start_time, span);
    }
    if t2 > start_time && t2 < end_time {
        lemma_part_le(vesting_amount as int, t2 - start_time, span);
        if t1 > start_time {
            crate::vesting::lemma_part_monotone(vesting_amount as int, t1 - start_time, t2 - start_time, span);
        }
    }
}

} // verus!
