//! The lockup contract: coins locked for a number of blocks, the unlocking
//! that starts the countdown, the withdrawal of the funds, and the queries
//! of the locks of a denomination in the order of their end or start block.
use vstd::prelude::*;

use crate::common::{coin_copy, opt_string_copy, str_eq, AttrValue, Attribute, Coin, CosmosMsg, Event, Response};

verus! {

/// The end block of a lock whose unlocking has not started.
pub const NOT_UNLOCKING_BLOCK_IDENTIFIER: u64 = 0xffff_ffff_ffff_ffffu64;

/// Coins locked by their owner.
#[derive(Debug)]
pub struct Lock {
    pub id: u64,
    pub coin: Coin,
    pub owner: String,
    pub duration_blocks: u64,
    pub start_block: u64,
    /// The block at which the lock matures, or
    /// `NOT_UNLOCKING_BLOCK_IDENTIFIER` while it is not unlocking.
    pub end_block: u64,
    pub funds_withdrawn: bool,
}

/// A copy of a lock.
pub fn lock_copy(l: &Lock) -> (r: Lock)
    ensures
        r == *l,
{
    Lock {
        id: l.id,
        coin: coin_copy(&l.coin),
        owner: l.owner.clone(),
        duration_blocks: l.duration_blocks,
        start_block: l.start_block,
        end_block: l.end_block,
        funds_withdrawn: l.funds_withdrawn,
    }
}

/// Why a call was refused.
#[derive(Debug)]
pub enum LockupError {
    InvalidLockDuration,
    /// No coins were sent.
    NoFunds,
    /// A coin of this denomination was sent with a zero amount.
    ZeroCoins(String),
    NotFound(u64),
    AlreadyUnlocking(u64),
    FundsAlreadyWithdrawn(u64),
    NotMatured(u64),
}

/// The locks, by identifier: the lock of identifier `i` is the `i`-th one
/// created, and none is ever removed.
#[derive(Debug)]
pub struct LockupState {
    pub locks: Vec<Lock>,
}

impl LockupState {
    /// Each lock holds its position (counted from one) as its identifier.
    pub open spec fn wf(&self) -> bool {
        forall|i: int| 0 <= i < self.locks@.len() ==> (#[trigger] self.locks@[i]).id == i + 1
    }

    /// No locks yet.
    pub fn new() -> (r: LockupState)
        ensures
            r.wf(),
            r.locks@.len() == 0,
    {
        LockupState { locks: Vec::new() }
    }
}

/// The event of coins locked under `id`.
pub open spec fn is_locked_event(e: Event, id: u64, coin: Coin) -> bool {
    &&& e.ty@ == "coins_locked"@
    &&& e.attributes@.len() == 2
    &&& e.attributes@[0].key@ == "id"@
    &&& e.attributes@[0].value == AttrValue::Amount(id as u128)
    &&& e.attributes@[1].key@ == "coins"@
    &&& e.attributes@[1].value == AttrValue::CoinText(coin)
}

fn locked_event(id: u64, coin: &Coin) -> (r: Event)
    ensures
        is_locked_event(r, id, *coin),
{
    let mut attributes: Vec<Attribute> = Vec::new();
    attributes.push(Attribute { key: String::from_str("id"), value: AttrValue::Amount(id as u128) });
    attributes.push(Attribute { key: String::from_str("coins"), value: AttrValue::CoinText(coin_copy(coin)) });
    Event { ty: String::from_str("coins_locked"), attributes }
}

/// The lock that `execute_lock` creates for `coin`.
pub open spec fn new_lock(l: Lock, id: int, coin: Coin, owner: Seq<char>, blocks: u64, height: u64) -> bool {
    &&& l.id == id
    &&& l.coin == coin
    &&& l.owner@ == owner
    &&& l.duration_blocks == blocks
    &&& l.start_block == height
    &&& l.end_block == NOT_UNLOCKING_BLOCK_IDENTIFIER
    &&& !l.funds_withdrawn
}

/// Locks each coin sent for `blocks` blocks, from `height` on, under the
/// next identifiers; the locks do not unlock until asked to.
pub fn execute_lock(state: &mut LockupState, sender: &str, funds: &Vec<Coin>, blocks: u64, height: u64) -> (r: Result<Response, LockupError>)
    requires
        old(state).wf(),
        old(state).locks@.len() + funds@.len() <= u64::MAX,
    ensures
        final(state).wf(),
        r is Err ==> *final(state) == *old(state),
        blocks == 0 ==> (r matches Err(LockupError::InvalidLockDuration)),
        blocks != 0 && funds@.len() == 0 ==> (r matches Err(LockupError::NoFunds)),
        blocks != 0 && funds@.len() != 0 && (exists|i: int| 0 <= i < funds@.len() && (#[trigger] funds@[i]).amount == 0)
            ==> (r matches Err(LockupError::ZeroCoins(d)) && exists|i: int| 0 <= i < funds@.len()
            && (#[trigger] funds@[i]).amount == 0 && funds@[i].denom == d),
        r is Ok <==> (blocks != 0 && funds@.len() != 0 && forall|i: int| 0 <= i < funds@.len() ==> (#[trigger] funds@[i]).amount != 0),
        r matches Ok(resp) ==> {
            let n = old(state).locks@.len();
            &&& final(state).locks@.len() == n + funds@.len()
            &&& final(state).locks@.subrange(0, n as int) == old(state).locks@
            &&& forall|i: int| 0 <= i < funds@.len() ==> new_lock(#[trigger] final(state).locks@[n + i], n + i + 1,
                funds@[i], sender@, blocks, height)
            &&& resp.messages@.len() == 0
            &&& resp.attributes@.len() == 0
            &&& resp.events@.len() == funds@.len()
            &&& forall|i: int| 0 <= i < funds@.len() ==> is_locked_event(#[trigger] resp.events@[i], (n + i + 1) as u64, funds@[i])
        },
{
    if blocks == 0 {
        return Err(LockupError::InvalidLockDuration);
    }
    if funds.len() == 0 {
        return Err(LockupError::NoFunds);
    }
    let mut k: usize = 0;
    while k < funds.len()
        invariant
            k <= funds@.len(),
            forall|i: int| 0 <= i < k ==> (#[trigger] funds@[i]).amount != 0,
            *state == *old(state),
            state.wf(),
            blocks != 0,
            funds@.len() != 0,
        decreases funds.len() - k,
    {
        if funds[k].amount == 0 {
            return Err(LockupError::ZeroCoins(funds[k].denom.clone()));
        }
        k = k + 1;
    }
    let ghost n = state.locks@.len();
    let mut events: Vec<Event> = Vec::new();
    let mut i: usize = 0;
    while i < funds.len()
        invariant
            i <= funds@.len(),
            n == old(state).locks@.len(),
            n + funds@.len() <= u64::MAX,
            state.wf(),
            state.locks@.len() == n + i,
            state.locks@.subrange(0, n as int) == old(state).locks@,
            forall|j: int| 0 <= j < i ==> new_lock(#[trigger] state.locks@[n + j], n + j + 1, funds@[j], sender@, blocks, height),
            events@.len() == i,
            forall|j: int| 0 <= j < i ==> is_locked_event(#[trigger] events@[j], (n + j + 1) as u64, funds@[j]),
        decreases funds.len() - i,
    {
        let id: u64 = state.locks.len() as u64 + 1;
        let lock = Lock {
            id,
            coin: coin_copy(&funds[i]),
            owner: String::from_str(sender),
            duration_blocks: blocks,
            start_block: height,
            end_block: NOT_UNLOCKING_BLOCK_IDENTIFIER,
            funds_withdrawn: false,
        };
        events.push(locked_event(id, &funds[i]));
        let ghost before = state.locks@;
        state.locks.push(lock);
        assert(state.locks@.subrange(0, n as int) =~= before.subrange(0, n as int));
        assert forall|j: int| 0 <= j < i + 1 implies new_lock(#[trigger] state.locks@[n + j], n + j + 1, funds@[j], sender@,
            blocks, height) by {
            if j < i {
                assert(state.locks@[n + j] == before[n + j]);
            }
        }
        i = i + 1;
    }
    Ok(Response { messages: Vec::new(), attributes: Vec::new(), events })
}

/// The event of the unlocking of `id`, maturing at `unlock_block`.
pub open spec fn is_unlock_event(e: Event, id: u64, coin: Coin, unlock_block: u64) -> bool {
    &&& e.ty@ == "unlock_initiated"@
    &&& e.attributes@.len() == 3
    &&& e.attributes@[0].key@ == "id"@
    &&& e.attributes@[0].value == AttrValue::Amount(id as u128)
    &&& e.attributes@[1].key@ == "coins"@
    &&& e.attributes@[1].value == AttrValue::CoinText(coin)
    &&& e.attributes@[2].key@ == "unlock_block"@
    &&& e.attributes@[2].value == AttrValue::Amount(unlock_block as u128)
}

/// Whether `id` names a lock of `s`.
pub open spec fn has_lock(s: LockupState, id: u64) -> bool {
    1 <= id <= s.locks@.len()
}

/// The lock named `id`.
pub open spec fn lock_of(s: LockupState, id: u64) -> Lock {
    s.locks@[id - 1]
}

/// Whether the lock `id` of `locks` exists and is not unlocking yet.
pub open spec fn can_unlock(locks: Seq<Lock>, id: u64) -> bool {
    1 <= id <= locks.len() && locks[id - 1].end_block == NOT_UNLOCKING_BLOCK_IDENTIFIER
}

/// `locks` with the lock `id` unlocking at `height`: it matures after its
/// duration.
pub open spec fn unlocked(locks: Seq<Lock>, id: u64, height: u64) -> Seq<Lock> {
    let l = locks[id - 1];
    locks.update(id - 1, Lock { end_block: (height + l.duration_blocks) as u64, ..l })
}

/// Whether the funds of the lock `id` of `locks` can be withdrawn at
/// `height`: it exists, its funds are still there, and it has matured: its
/// end block has been reached (a lock that is not unlocking never matures).
pub open spec fn can_withdraw(locks: Seq<Lock>, id: u64, height: u64) -> bool {
    1 <= id <= locks.len() && !locks[id - 1].funds_withdrawn && locks[id - 1].end_block <= height
}

/// `locks` with the funds of the lock `id` withdrawn.
pub open spec fn withdrawn(locks: Seq<Lock>, id: u64) -> Seq<Lock> {
    let l = locks[id - 1];
    locks.update(id - 1, Lock { funds_withdrawn: true, ..l })
}

/// A lock unlocks only once: once its unlocking started (at a height from
/// which its duration does not reach the largest block), it cannot be
/// started again.
pub proof fn law_unlock_once(locks: Seq<Lock>, id: u64, height: u64)
    requires
        can_unlock(locks, id),
        height + locks[id - 1].duration_blocks < NOT_UNLOCKING_BLOCK_IDENTIFIER,
    ensures
        !can_unlock(unlocked(locks, id, height), id),
{
}

/// The funds of a lock are paid out only once: after a withdrawal, no
/// later one succeeds, at any height, whatever unlocking happens between.
pub proof fn law_withdraw_once(locks: Seq<Lock>, id: u64, height: u64, later: u64, unlock_height: u64)
    requires
        can_withdraw(locks, id, height),
    ensures
        !can_withdraw(withdrawn(locks, id), id, later),
        can_unlock(withdrawn(locks, id), id) ==> !can_withdraw(unlocked(withdrawn(locks, id), id, unlock_height), id, later),
{
}

/// The other locks are left as they are by an unlocking and a withdrawal.
pub proof fn law_other_locks_untouched(locks: Seq<Lock>, id: u64, other: u64, height: u64)
    requires
        1 <= id <= locks.len(),
        1 <= other <= locks.len(),
        other != id,
    ensures
        unlocked(locks, id, height)[other - 1] == locks[other - 1],
        withdrawn(locks, id)[other - 1] == locks[other - 1],
{
}

/// A lock just created is found by the query of the locks of its
/// denomination unlocking after any block, and by that of its owner.
pub proof fn law_new_lock_found(l: Lock, id: int, coin: Coin, owner: Seq<char>, blocks: u64, height: u64, q: QueryMsg, at: u64)
    requires
        new_lock(l, id, coin, owner, blocks, height),
        q is LocksByDenomUnlockingAfter || q is LocksByDenomAndAddressUnlockingAfter,
        q matches QueryMsg::LocksByDenomUnlockingAfter { denom, .. } ==> denom@ == coin.denom@,
        q matches QueryMsg::LocksByDenomAndAddressUnlockingAfter { denom, address, .. } ==> denom@ == coin.denom@
            && address@ == owner,
    ensures
        selects(q, l, at),
{
}

/// Starts the unlocking of the lock `id` at `height`: it matures after its
/// duration. Anyone may ask; a lock unlocks only once.
pub fn execute_initiate_unlock(state: &mut LockupState, id: u64, height: u64) -> (r: Result<Response, LockupError>)
    requires
        old(state).wf(),
        has_lock(*old(state), id) ==> height + lock_of(*old(state), id).duration_blocks <= u64::MAX,
    ensures
        final(state).wf(),
        r is Err ==> *final(state) == *old(state),
        !has_lock(*old(state), id) ==> (r matches Err(LockupError::NotFound(x)) && x == id),
        has_lock(*old(state), id) && lock_of(*old(state), id).end_block != NOT_UNLOCKING_BLOCK_IDENTIFIER
            ==> (r matches Err(LockupError::AlreadyUnlocking(x)) && x == id),
        r is Ok <==> can_unlock(old(state).locks@, id),
        r matches Ok(resp) ==> {
            let l = lock_of(*old(state), id);
            let end = (height + l.duration_blocks) as u64;
            &&& final(state).locks@ == unlocked(old(state).locks@, id, height)
            &&& resp.messages@.len() == 0
            &&& resp.events@.len() == 1
            &&& is_unlock_event(resp.events@[0], id, l.coin, end)
        },
{
    if id == 0 || id > state.locks.len() as u64 {
        return Err(LockupError::NotFound(id));
    }
    let idx: usize = (id - 1) as usize;
    if state.locks[idx].end_block != NOT_UNLOCKING_BLOCK_IDENTIFIER {
        return Err(LockupError::AlreadyUnlocking(id));
    }
    let mut l = lock_copy(&state.locks[idx]);
    let end: u64 = height + l.duration_blocks;
    l.end_block = end;
    let mut attributes: Vec<Attribute> = Vec::new();
    attributes.push(Attribute { key: String::from_str("id"), value: AttrValue::Amount(id as u128) });
    attributes.push(Attribute { key: String::from_str("coins"), value: AttrValue::CoinText(coin_copy(&l.coin)) });
    attributes.push(Attribute { key: String::from_str("unlock_block"), value: AttrValue::Amount(end as u128) });
    let mut events: Vec<Event> = Vec::new();
    events.push(Event { ty: String::from_str("unlock_initiated"), attributes });
    state.locks.set(idx, l);
    assert forall|i: int| 0 <= i < state.locks@.len() implies (#[trigger] state.locks@[i]).id == i + 1 by {
        if i != idx {
            assert(state.locks@[i] == old(state).locks@[i]);
        }
    }
    Ok(Response { messages: Vec::new(), attributes: Vec::new(), events })
}

/// Sends the coins of the lock `id` back to its owner, once it has matured.
/// Refused while the lock's end block lies ahead of `height`, which is the
/// case of a lock whose unlocking was never started.
pub fn execute_withdraw_funds(state: &mut LockupState, id: u64, height: u64) -> (r: Result<Response, LockupError>)
    requires
        old(state).wf(),
    ensures
        final(state).wf(),
        r is Err ==> *final(state) == *old(state),
        !has_lock(*old(state), id) ==> (r matches Err(LockupError::NotFound(x)) && x == id),
        has_lock(*old(state), id) && lock_of(*old(state), id).funds_withdrawn
            ==> (r matches Err(LockupError::FundsAlreadyWithdrawn(x)) && x == id),
        has_lock(*old(state), id) && !lock_of(*old(state), id).funds_withdrawn && height < lock_of(*old(state), id).end_block
            ==> (r matches Err(LockupError::NotMatured(x)) && x == id),
        r is Ok <==> can_withdraw(old(state).locks@, id, height),
        r matches Ok(resp) ==> {
            let l = lock_of(*old(state), id);
            &&& final(state).locks@ == withdrawn(old(state).locks@, id)
            &&& resp.messages@.len() == 1
            &&& resp.messages@[0] matches CosmosMsg::BankSend { to_address, amount }
                && to_address@ == l.owner@ && amount@ == seq![l.coin]
            &&& resp.events@.len() == 1
            &&& resp.events@[0].ty@ == "funds_withdrawn"@
            &&& resp.events@[0].attributes@.len() == 2
            &&& resp.events@[0].attributes@[0].key@ == "id"@
            &&& resp.events@[0].attributes@[0].value == AttrValue::Amount(id as u128)
            &&& resp.events@[0].attributes@[1].key@ == "coins"@
            &&& resp.events@[0].attributes@[1].value == AttrValue::CoinText(l.coin)
        },
{
    if id == 0 || id > state.locks.len() as u64 {
        return Err(LockupError::NotFound(id));
    }
    let idx: usize = (id - 1) as usize;
    if state.locks[idx].funds_withdrawn {
        return Err(LockupError::FundsAlreadyWithdrawn(id));
    }
    if height < state.locks[idx].end_block {
        return Err(LockupError::NotMatured(id));
    }
    let mut l = lock_copy(&state.locks[idx]);
    l.funds_withdrawn = true;
    let mut attributes: Vec<Attribute> = Vec::new();
    attributes.push(Attribute { key: String::from_str("id"), value: AttrValue::Amount(id as u128) });
    attributes.push(Attribute { key: String::from_str("coins"), value: AttrValue::CoinText(coin_copy(&l.coin)) });
    let mut events: Vec<Event> = Vec::new();
    events.push(Event { ty: String::from_str("funds_withdrawn"), attributes });
    let mut amount: Vec<Coin> = Vec::new();
    amount.push(coin_copy(&l.coin));
    let mut messages: Vec<CosmosMsg> = Vec::new();
    messages.push(CosmosMsg::BankSend { to_address: l.owner.clone(), amount });
    state.locks.set(idx, l);
    assert forall|i: int| 0 <= i < state.locks@.len() implies (#[trigger] state.locks@[i]).id == i + 1 by {
        if i != idx {
            assert(state.locks@[i] == old(state).locks@[i]);
        }
    }
    Ok(Response { messages, attributes: Vec::new(), events })
}

/// The queries of locks.
#[derive(Debug)]
pub enum QueryMsg {
    /// The locks of a denomination that end at `unlocking_after` or later,
    /// by end block.
    LocksByDenomUnlockingAfter { denom: String, unlocking_after: u64 },
    /// The same, of one owner only.
    LocksByDenomAndAddressUnlockingAfter { denom: String, unlocking_after: u64, address: String },
    /// The locks of a denomination that started no later than
    /// `locked_before` and, unlocked now, would mature after
    /// `unlocking_after`, by start block.
    LocksByDenomBetween { denom: String, locked_before: u64, unlocking_after: u64 },
    /// The same, of one owner only.
    LocksByDenomAndAddressBetween { denom: String, address: String, locked_before: u64, unlocking_after: u64 },
}

/// Whether the query orders its locks by start block (else by end block).
pub open spec fn by_start(q: QueryMsg) -> bool {
    q is LocksByDenomBetween || q is LocksByDenomAndAddressBetween
}

/// The block by which the query orders `l`.
pub open spec fn sort_key(q: QueryMsg, l: Lock) -> u64 {
    if by_start(q) {
        l.start_block
    } else {
        l.end_block
    }
}

/// Whether `a` comes before `b` in the order of the query: by its block,
/// then by identifier.
pub open spec fn comes_before(q: QueryMsg, a: Lock, b: Lock) -> bool {
    sort_key(q, a) < sort_key(q, b) || (sort_key(q, a) == sort_key(q, b) && a.id < b.id)
}

/// Whether a lock that started at `start` with identifier `id` lies before
/// the exclusive bound (`locked_before`, largest identifier).
pub open spec fn started_by(start: u64, id: u64, locked_before: u64) -> bool {
    start < locked_before || (start == locked_before && id < u64::MAX)
}

/// Whether the query, run at `height`, selects `l`.
pub open spec fn selects(q: QueryMsg, l: Lock, height: u64) -> bool {
    match q {
        QueryMsg::LocksByDenomUnlockingAfter { denom, unlocking_after } =>
            l.coin.denom@ == denom@ && l.end_block >= unlocking_after,
        QueryMsg::LocksByDenomAndAddressUnlockingAfter { denom, unlocking_after, address } =>
            l.coin.denom@ == denom@ && l.owner@ == address@ && l.end_block >= unlocking_after,
        QueryMsg::LocksByDenomBetween { denom, locked_before, unlocking_after } =>
            l.coin.denom@ == denom@ && started_by(l.start_block, l.id, locked_before)
                && height + l.duration_blocks > unlocking_after,
        QueryMsg::LocksByDenomAndAddressBetween { denom, address, locked_before, unlocking_after } =>
            l.coin.denom@ == denom@ && l.owner@ == address@ && started_by(l.start_block, l.id, locked_before)
                && height + l.duration_blocks > unlocking_after,
    }
}

/// The queries of locks unlocking after a block return a lock exactly when
/// it is of the denomination (and, for the owner's query, of the owner)
/// and its end block is not before that block: a lock that matured before
/// it is never returned, and a lock that is not unlocking always is.
pub proof fn law_unlocking_after_selects(q: QueryMsg, l: Lock, height: u64)
    ensures
        q matches QueryMsg::LocksByDenomUnlockingAfter { denom, unlocking_after } ==> (selects(q, l, height)
            <==> (l.coin.denom@ == denom@ && unlocking_after <= l.end_block)),
        q matches QueryMsg::LocksByDenomAndAddressUnlockingAfter { denom, unlocking_after, address } ==> (selects(
            q,
            l,
            height,
        ) <==> (l.coin.denom@ == denom@ && l.owner@ == address@ && unlocking_after <= l.end_block)),
        (q is LocksByDenomUnlockingAfter || q is LocksByDenomAndAddressUnlockingAfter) && selects(q, l, height)
            ==> !(l.end_block < (match q {
                QueryMsg::LocksByDenomUnlockingAfter { unlocking_after, .. } => unlocking_after,
                QueryMsg::LocksByDenomAndAddressUnlockingAfter { unlocking_after, .. } => unlocking_after,
                _ => 0u64,
            })),
{
}

/// The queries of locks between blocks return a lock exactly when it is of
/// the denomination (and, for the owner's query, of the owner), it started
/// no later than `locked_before` (at that block, only a lock numbered below
/// the largest number), and unlocked at `height` it would mature after
/// `unlocking_after`.
pub proof fn law_between_selects(q: QueryMsg, l: Lock, height: u64)
    ensures
        q matches QueryMsg::LocksByDenomBetween { denom, locked_before, unlocking_after } ==> (selects(q, l, height)
            <==> (l.coin.denom@ == denom@ && (l.start_block < locked_before || (l.start_block == locked_before
            && l.id < u64::MAX)) && unlocking_after < height + l.duration_blocks)),
        q matches QueryMsg::LocksByDenomAndAddressBetween { denom, address, locked_before, unlocking_after } ==> (
        selects(q, l, height) <==> (l.coin.denom@ == denom@ && l.owner@ == address@ && (l.start_block < locked_before
            || (l.start_block == locked_before && l.id < u64::MAX)) && unlocking_after < height + l.duration_blocks)),
{
}

fn selects_exec(q: &QueryMsg, l: &Lock, height: u64) -> (r: bool)
    ensures
        r == selects(*q, *l, height),
{
    match q {
        QueryMsg::LocksByDenomUnlockingAfter { denom, unlocking_after } =>
            str_eq(l.coin.denom.as_str(), denom.as_str()) && l.end_block >= *unlocking_after,
        QueryMsg::LocksByDenomAndAddressUnlockingAfter { denom, unlocking_after, address } =>
            str_eq(l.coin.denom.as_str(), denom.as_str()) && str_eq(l.owner.as_str(), address.as_str())
                && l.end_block >= *unlocking_after,
        QueryMsg::LocksByDenomBetween { denom, locked_before, unlocking_after } =>
            str_eq(l.coin.denom.as_str(), denom.as_str()) && (l.start_block < *locked_before
                || (l.start_block == *locked_before && l.id < u64::MAX))
                && (height as u128) + (l.duration_blocks as u128) > (*unlocking_after as u128),
        QueryMsg::LocksByDenomAndAddressBetween { denom, address, locked_before, unlocking_after } =>
            str_eq(l.coin.denom.as_str(), denom.as_str()) && str_eq(l.owner.as_str(), address.as_str())
                && (l.start_block < *locked_before || (l.start_block == *locked_before && l.id < u64::MAX))
                && (height as u128) + (l.duration_blocks as u128) > (*unlocking_after as u128),
    }
}

fn sort_key_exec(q: &QueryMsg, l: &Lock) -> (r: u64)
    ensures
        r == sort_key(*q, *l),
{
    match q {
        QueryMsg::LocksByDenomBetween { .. } => l.start_block,
        QueryMsg::LocksByDenomAndAddressBetween { .. } => l.start_block,
        _ => l.end_block,
    }
}

/// The locks that the query selects at `height`, each once, in its order.
pub fn query(state: &LockupState, msg: &QueryMsg, height: u64) -> (r: Vec<Lock>)
    requires
        state.wf(),
    ensures
        forall|i: int, j: int| 0 <= i < j < r@.len() ==> comes_before(*msg, #[trigger] r@[i], #[trigger] r@[j]),
        forall|i: int| 0 <= i < r@.len() ==> has_lock(*state, (#[trigger] r@[i]).id) && r@[i] == lock_of(*state, r@[i].id)
            && selects(*msg, r@[i], height),
        forall|j: int| 0 <= j < state.locks@.len() && selects(*msg, #[trigger] state.locks@[j], height)
            ==> r@.contains(state.locks@[j]),
        msg matches QueryMsg::LocksByDenomUnlockingAfter { denom, unlocking_after } ==> forall|i: int|
            0 <= i < r@.len() ==> (#[trigger] r@[i]).coin.denom@ == denom@ && unlocking_after <= r@[i].end_block,
        msg matches QueryMsg::LocksByDenomAndAddressUnlockingAfter { denom, unlocking_after, address } ==> forall|i: int|
            0 <= i < r@.len() ==> (#[trigger] r@[i]).coin.denom@ == denom@ && r@[i].owner@ == address@
                && unlocking_after <= r@[i].end_block,
{
    let mut out: Vec<Lock> = Vec::new();
    let mut j: usize = 0;
    while j < state.locks.len()
        invariant
            state.wf(),
            j <= state.locks@.len(),
            forall|a: int, b: int| 0 <= a < b < out@.len() ==> comes_before(*msg, #[trigger] out@[a], #[trigger] out@[b]),
            forall|i: int| 0 <= i < out@.len() ==> 1 <= (#[trigger] out@[i]).id <= j && out@[i] == lock_of(*state, out@[i].id)
                && selects(*msg, out@[i], height),
            forall|q: int| 0 <= q < j && selects(*msg, #[trigger] state.locks@[q], height) ==> out@.contains(state.locks@[q]),
        decreases state.locks.len() - j,
    {
        if selects_exec(msg, &state.locks[j], height) {
            let k = sort_key_exec(msg, &state.locks[j]);
            let mut p: usize = 0;
            while p < out.len() && sort_key_exec(msg, &out[p]) <= k
                invariant
                    p <= out@.len(),
                    forall|i: int| 0 <= i < p ==> sort_key(*msg, #[trigger] out@[i]) <= k,
                decreases out.len() - p,
            {
                p = p + 1;
            }
            let ghost before = out@;
            let x = lock_copy(&state.locks[j]);
            assert(x.id == j + 1);
            out.insert(p, x);
            assert forall|a: int, b: int| 0 <= a < b < out@.len() implies comes_before(*msg, #[trigger] out@[a], #[trigger] out@[b]) by {
                if b < p {
                    assert(out@[a] == before[a] && out@[b] == before[b]);
                } else if b == p {
                    assert(out@[a] == before[a]);
                } else if a < p {
                    assert(out@[a] == before[a] && out@[b] == before[b - 1]);
                } else if a == p {
                    assert(out@[b] == before[b - 1]);
                    assert(sort_key(*msg, before[p as int]) > k) by {
                        if b - 1 > p {
                            assert(comes_before(*msg, before[p as int], before[b - 1]));
                        }
                    }
                } else {
                    assert(out@[a] == before[a - 1] && out@[b] == before[b - 1]);
                }
            }
            assert forall|i: int| 0 <= i < out@.len() implies 1 <= (#[trigger] out@[i]).id <= j + 1 && out@[i] == lock_of(*state, out@[i].id)
                && selects(*msg, out@[i], height) by {
                if i < p {
                    assert(out@[i] == before[i]);
                } else if i > p {
                    assert(out@[i] == before[i - 1]);
                }
            }
            assert forall|q: int| 0 <= q < j + 1 && selects(*msg, #[trigger] state.locks@[q], height) implies out@.contains(state.locks@[q]) by {
                if q < j {
                    let i = choose|i: int| 0 <= i < before.len() && before[i] == state.locks@[q];
                    if i < p {
                        assert(out@[i] == before[i]);
                    } else {
                        assert(out@[i + 1] == before[i]);
                    }
                } else {
                    assert(out@[p as int] == state.locks@[q]);
                }
            }
        }
        j = j + 1;
    }
    out
}

} // verus!
