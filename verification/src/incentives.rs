//! The incentives contract: programs that reward the holders of locks of a
//! denomination, epoch by epoch, with the coins their funders put in, each
//! holder in proportion to the share of the qualified locked coins that is
//! theirs.
use vstd::prelude::*;

use crate::common::{coin_copy, AttrValue, Attribute, Coin, CosmosMsg, Event, Response, StrMap};
use crate::lockup::Lock;

verus! {

/// An incentives program.
#[derive(Debug)]
pub struct Program {
    pub id: u64,
    pub epochs: u64,
    pub epoch_duration: u64,
    pub min_lockup_duration_blocks: u64,
    pub lockup_denom: String,
    pub start_block: u64,
    pub end_block: u64,
}

/// Coins put into a program, paid out in equal parts from an epoch on.
#[derive(Debug)]
pub struct Funding {
    pub id: u64,
    pub program_id: u64,
    pub pay_from_epoch: u64,
    pub denom: String,
    pub initial_amount: u128,
    pub to_pay_each_epoch: u128,
}

/// A processed epoch: what it distributes among the locks that mature
/// after a block, and how much was locked in them.
#[derive(Debug)]
pub struct EpochInfo {
    pub epoch_identifier: u64,
    pub for_coins_unlocking_after: u64,
    pub to_distribute: Vec<Coin>,
    pub total_locked: u128,
}

/// Why a call was refused.
#[derive(Debug)]
pub enum IncentivesError {
    FundsRequired,
    /// No program of this identifier.
    NotFound(u64),
    ProgramFinished(u64),
    /// The epoch (first) of the program (second) is beyond its last.
    EpochOutOfBounds(u64, u64),
    /// The epoch (first) of the program (second) can be processed only
    /// after the block (third).
    EpochProcessBlock(u64, u64, u64),
    /// No processed epoch is left to pay.
    NothingToWithdraw,
    /// No such epoch has been processed.
    EpochNotFound,
}

/// `c` with the amount of the first coin of its denomination in `coins`
/// raised by its amount, or appended when there is none.
pub open spec fn add_coin_spec(coins: Seq<Coin>, c: Coin) -> Seq<Coin> {
    let k = find_denom(coins, c.denom@, 0);
    if k < 0 {
        coins.push(c)
    } else {
        coins.update(k, Coin { denom: coins[k].denom, amount: (coins[k].amount + c.amount) as u128 })
    }
}

/// The first index from `i` on of a coin of denomination `d`, or -1.
pub open spec fn find_denom(coins: Seq<Coin>, d: Seq<char>, i: int) -> int
    decreases coins.len() - i,
{
    if i < 0 || i >= coins.len() {
        -1
    } else if coins[i].denom@ == d {
        i
    } else {
        find_denom(coins, d, i + 1)
    }
}

/// Whether adding `c` to `coins` keeps the amount within range.
pub open spec fn add_coin_fits(coins: Seq<Coin>, c: Coin) -> bool {
    let k = find_denom(coins, c.denom@, 0);
    k >= 0 ==> coins[k].amount + c.amount <= u128::MAX
}

proof fn lemma_find_denom_range(coins: Seq<Coin>, d: Seq<char>, i: int)
    ensures
        find_denom(coins, d, i) == -1 || (i <= find_denom(coins, d, i) < coins.len()
            && coins[find_denom(coins, d, i)].denom@ == d
            && forall|j: int| i <= j < find_denom(coins, d, i) ==> coins[j].denom@ != d),
        find_denom(coins, d, i) == -1 ==> forall|j: int| 0 <= i <= j < coins.len() ==> coins[j].denom@ != d,
    decreases coins.len() - i,
{
    if 0 <= i < coins.len() && coins[i].denom@ != d {
        lemma_find_denom_range(coins, d, i + 1);
    }
}

/// Adds `coin` to `coins`: to the amount of the coin of its denomination,
/// or as a new coin.
pub fn add_coins(coins: &mut Vec<Coin>, coin: Coin)
    requires
        add_coin_fits(old(coins)@, coin),
    ensures
        final(coins)@ == add_coin_spec(old(coins)@, coin),
{
    let ghost d = coin.denom@;
    let mut i: usize = 0;
    while i < coins.len()
        invariant
            i <= coins@.len(),
            *coins == *old(coins),
            find_denom(coins@, d, 0) == find_denom(coins@, d, i as int),
            add_coin_fits(coins@, coin),
            d == coin.denom@,
        decreases coins.len() - i,
    {
        if crate::common::str_eq(coins[i].denom.as_str(), coin.denom.as_str()) {
            let amount = coins[i].amount + coin.amount;
            let denom = coins[i].denom.clone();
            coins.set(i, Coin { denom, amount });
            return;
        }
        i = i + 1;
    }
    coins.push(coin);
}

/// The amount of denomination `d` among `coins`.
pub open spec fn total_of(coins: Seq<Coin>, d: Seq<char>) -> int
    decreases coins.len(),
{
    if coins.len() == 0 {
        0
    } else {
        total_of(coins.drop_last(), d) + if coins.last().denom@ == d { coins.last().amount as int } else { 0 }
    }
}

/// No denomination occurs twice.
pub open spec fn denoms_unique(coins: Seq<Coin>) -> bool {
    forall|i: int, j: int| 0 <= i < j < coins.len() ==> (#[trigger] coins[i]).denom@ != (#[trigger] coins[j]).denom@
}

proof fn lemma_total_update(coins: Seq<Coin>, k: int, c: Coin, d: Seq<char>)
    requires
        0 <= k < coins.len(),
        c.denom@ == coins[k].denom@,
    ensures
        total_of(coins.update(k, c), d) == total_of(coins, d) - (if coins[k].denom@ == d { coins[k].amount as int } else { 0 })
            + (if c.denom@ == d { c.amount as int } else { 0 }),
    decreases coins.len(),
{
    if k < coins.len() - 1 {
        assert(coins.update(k, c).drop_last() =~= coins.drop_last().update(k, c));
        lemma_total_update(coins.drop_last(), k, c, d);
    } else {
        assert(coins.update(k, c).drop_last() =~= coins.drop_last());
    }
}

/// Adding a coin keeps the denominations distinct, raises the amount of
/// its denomination by its amount, and leaves every other amount as it was.
pub proof fn law_add_coins_totals(coins: Seq<Coin>, c: Coin, d: Seq<char>)
    requires
        denoms_unique(coins),
        add_coin_fits(coins, c),
    ensures
        denoms_unique(add_coin_spec(coins, c)),
        total_of(add_coin_spec(coins, c), d) == total_of(coins, d) + if c.denom@ == d { c.amount as int } else { 0 },
{
    lemma_find_denom_range(coins, c.denom@, 0);
    let k = find_denom(coins, c.denom@, 0);
    if k < 0 {
        assert(coins.push(c).drop_last() =~= coins);
    } else {
        let nc = Coin { denom: coins[k].denom, amount: (coins[k].amount + c.amount) as u128 };
        lemma_total_update(coins, k, nc, d);
        let r = coins.update(k, nc);
        assert forall|i: int, j: int| 0 <= i < j < r.len() implies (#[trigger] r[i]).denom@ != (#[trigger] r[j]).denom@ by {
            assert(coins[i].denom@ != coins[j].denom@);
        }
    }
}

/// A program with its processed epochs and, for each address, the last
/// epoch paid to it.
#[derive(Debug)]
pub struct ProgramState {
    pub program: Program,
    pub epochs: Vec<EpochInfo>,
    pub withdrawals: StrMap<u64>,
}

/// The programs and the fundings, each by identifier: the one of
/// identifier `i` is the `i`-th created.
#[derive(Debug)]
pub struct IncentivesState {
    pub programs: Vec<ProgramState>,
    pub fundings: Vec<Funding>,
}

impl IncentivesState {
    /// Identifiers follow creation, epochs are numbered from one in the
    /// order processed, and no address was paid beyond the last epoch.
    pub open spec fn wf(&self) -> bool {
        &&& forall|i: int| 0 <= i < self.programs@.len() ==> (#[trigger] self.programs@[i]).program.id == i + 1
            && self.programs@[i].withdrawals.wf()
            && (forall|k: int| 0 <= k < self.programs@[i].epochs@.len()
                ==> (#[trigger] self.programs@[i].epochs@[k]).epoch_identifier == k + 1)
            && (forall|a: Seq<char>| #[trigger] self.programs@[i].withdrawals@.contains_key(a)
                ==> self.programs@[i].withdrawals@[a] <= self.programs@[i].epochs@.len())
        &&& forall|i: int| 0 <= i < self.fundings@.len() ==> (#[trigger] self.fundings@[i]).id == i + 1
    }

    /// No programs and no fundings yet.
    pub fn new() -> (r: IncentivesState)
        ensures
            r.wf(),
            r.programs@.len() == 0,
            r.fundings@.len() == 0,
    {
        IncentivesState { programs: Vec::new(), fundings: Vec::new() }
    }
}

/// Whether `id` names a program.
pub open spec fn has_program(s: IncentivesState, id: u64) -> bool {
    1 <= id <= s.programs@.len()
}

/// The program named `id` with its epochs and withdrawals.
pub open spec fn program_of(s: IncentivesState, id: u64) -> ProgramState {
    s.programs@[id - 1]
}

/// Creates a program of `epochs` epochs of `epoch_duration_blocks` blocks
/// over the locks of `denom`, starting its epochs at `start_block`; it
/// ends that many blocks after `height`.
pub fn execute_create_program(
    state: &mut IncentivesState,
    height: u64,
    denom: String,
    epochs: u64,
    epoch_duration_blocks: u64,
    min_lockup_blocks: u64,
    start_block: u64,
) -> (r: Response)
    requires
        old(state).wf(),
        old(state).programs@.len() < u64::MAX,
        height + epochs * epoch_duration_blocks <= u64::MAX,
    ensures
        final(state).wf(),
        final(state).fundings == old(state).fundings,
        final(state).programs@.len() == old(state).programs@.len() + 1,
        final(state).programs@.subrange(0, old(state).programs@.len() as int) == old(state).programs@,
        ({
            let ps = final(state).programs@[old(state).programs@.len() as int];
            &&& ps.program.id == old(state).programs@.len() + 1
            &&& ps.program.epochs == epochs
            &&& ps.program.epoch_duration == epoch_duration_blocks
            &&& ps.program.min_lockup_duration_blocks == min_lockup_blocks
            &&& ps.program.lockup_denom == denom
            &&& ps.program.start_block == start_block
            &&& ps.program.end_block == height + epochs * epoch_duration_blocks
            &&& ps.epochs@.len() == 0
            &&& ps.withdrawals@ == Map::<Seq<char>, u64>::empty()
        }),
        r.messages@.len() == 0,
        r.attributes@.len() == 0,
        r.events@.len() == 1,
        r.events@[0].ty@ == "new_incentives_program"@,
        r.events@[0].attributes@.len() == 3,
        r.events@[0].attributes@[0].key@ == "id"@,
        r.events@[0].attributes@[0].value == AttrValue::Amount((old(state).programs@.len() + 1) as u128),
        r.events@[0].attributes@[1].key@ == "lockup_denom"@,
        r.events@[0].attributes@[1].value matches AttrValue::Text(t) && t == denom,
        r.events@[0].attributes@[2].key@ == "end_block"@,
        r.events@[0].attributes@[2].value == AttrValue::Amount((height + epochs * epoch_duration_blocks) as u128),
{
    let id: u64 = state.programs.len() as u64 + 1;
    let span: u64 = epochs * epoch_duration_blocks;
    let end_block: u64 = height + span;
    let mut attributes: Vec<Attribute> = Vec::new();
    attributes.push(Attribute { key: String::from_str("id"), value: AttrValue::Amount(id as u128) });
    attributes.push(Attribute { key: String::from_str("lockup_denom"), value: AttrValue::Text(denom.clone()) });
    attributes.push(Attribute { key: String::from_str("end_block"), value: AttrValue::Amount(end_block as u128) });
    let mut events: Vec<Event> = Vec::new();
    events.push(Event { ty: String::from_str("new_incentives_program"), attributes });
    let program = Program {
        id,
        epochs,
        epoch_duration: epoch_duration_blocks,
        min_lockup_duration_blocks: min_lockup_blocks,
        lockup_denom: denom,
        start_block,
        end_block,
    };
    let ghost before = state.programs@;
    state.programs.push(ProgramState { program, epochs: Vec::new(), withdrawals: StrMap::new() });
    assert(state.programs@.subrange(0, before.len() as int) =~= before);
    assert forall|i: int| 0 <= i < state.programs@.len() implies (#[trigger] state.programs@[i]).program.id == i + 1
        && state.programs@[i].withdrawals.wf()
        && (forall|k: int| 0 <= k < state.programs@[i].epochs@.len()
            ==> (#[trigger] state.programs@[i].epochs@[k]).epoch_identifier == k + 1)
        && (forall|a: Seq<char>| #[trigger] state.programs@[i].withdrawals@.contains_key(a)
            ==> state.programs@[i].withdrawals@[a] <= state.programs@[i].epochs@.len()) by {
        if i < before.len() {
            assert(state.programs@[i] == before[i]);
        }
    }
    Response { messages: Vec::new(), attributes: Vec::new(), events }
}

/// The number of epochs a funding at `height` is spread over: the epochs
/// left until the end, counting a partial one as a whole.
pub open spec fn epochs_left(end_block: u64, height: u64, epoch_duration: u64) -> int {
    ((end_block - height) + epoch_duration - 1) / epoch_duration as int
}

/// Funds the program `program_id` with the coins sent: each becomes a
/// funding paid in equal parts over the epochs left, from the first of them
/// on. Refused once the program has ended.
pub fn execute_fund_program(state: &mut IncentivesState, program_id: u64, funds: &Vec<Coin>, height: u64) -> (r: Result<Response, IncentivesError>)
    requires
        old(state).wf(),
        old(state).fundings@.len() + funds@.len() <= u64::MAX,
        funds@.len() != 0 && has_program(*old(state), program_id)
            && program_of(*old(state), program_id).program.end_block > height ==> {
            let p = program_of(*old(state), program_id).program;
            p.epoch_duration > 0 && epochs_left(p.end_block, height, p.epoch_duration) <= p.epochs
        },
    ensures
        final(state).wf(),
        r is Err ==> *final(state) == *old(state),
        funds@.len() == 0 ==> (r matches Err(IncentivesError::FundsRequired)),
        funds@.len() != 0 && !has_program(*old(state), program_id) ==> (r matches Err(IncentivesError::NotFound(x)) && x == program_id),
        funds@.len() != 0 && has_program(*old(state), program_id) && program_of(*old(state), program_id).program.end_block <= height
            ==> (r matches Err(IncentivesError::ProgramFinished(x)) && x == program_id),
        r is Ok <==> (funds@.len() != 0 && has_program(*old(state), program_id)
            && program_of(*old(state), program_id).program.end_block > height),
        r matches Ok(resp) ==> {
            let p = program_of(*old(state), program_id).program;
            let etp = epochs_left(p.end_block, height, p.epoch_duration);
            let n = old(state).fundings@.len();
            &&& final(state).programs == old(state).programs
            &&& final(state).fundings@.len() == n + funds@.len()
            &&& final(state).fundings@.subrange(0, n as int) == old(state).fundings@
            &&& forall|i: int| 0 <= i < funds@.len() ==> {
                let f = #[trigger] final(state).fundings@[n + i];
                &&& f.id == n + i + 1
                &&& f.program_id == program_id
                &&& f.pay_from_epoch == p.epochs - etp + 1
                &&& f.denom == funds@[i].denom
                &&& f.initial_amount == funds@[i].amount
                &&& f.to_pay_each_epoch == funds@[i].amount as int / etp
            }
            &&& resp.messages@.len() == 0
            &&& resp.events@.len() == 1
            &&& resp.events@[0].ty@ == "program_funding"@
            &&& resp.events@[0].attributes@.len() == 2
            &&& resp.events@[0].attributes@[0].key@ == "program_id"@
            &&& resp.events@[0].attributes@[0].value == AttrValue::Amount(program_id as u128)
            &&& resp.events@[0].attributes@[1].key@ == "funds"@
            &&& resp.events@[0].attributes@[1].value matches AttrValue::Coins(c) && c@ == funds@
        },
{
    if funds.len() == 0 {
        return Err(IncentivesError::FundsRequired);
    }
    if program_id == 0 || program_id > state.programs.len() as u64 {
        return Err(IncentivesError::NotFound(program_id));
    }
    let idx: usize = (program_id - 1) as usize;
    let end_block = state.programs[idx].program.end_block;
    let epochs = state.programs[idx].program.epochs;
    let duration = state.programs[idx].program.epoch_duration;
    if end_block <= height {
        return Err(IncentivesError::ProgramFinished(program_id));
    }
    let left: u64 = end_block - height;
    assert((left - 1) / (duration as int) <= left - 1) by (nonlinear_arith)
        requires
            duration > 0,
            left > 0,
    {
    }
    let epochs_to_pay: u64 = (left - 1) / duration + 1;
    assert(epochs_to_pay == epochs_left(end_block, height, duration)) by (nonlinear_arith)
        requires
            duration > 0,
            left > 0,
            epochs_to_pay == (left - 1) / (duration as int) + 1,
            epochs_left(end_block, height, duration) == (left + duration - 1) / duration as int,
    {
    }
    let pay_from_epoch: u64 = epochs - epochs_to_pay + 1;
    let mut attributes: Vec<Attribute> = Vec::new();
    attributes.push(Attribute { key: String::from_str("program_id"), value: AttrValue::Amount(program_id as u128) });
    attributes.push(Attribute { key: String::from_str("funds"), value: AttrValue::Coins(crate::common::coins_copy(funds)) });
    let mut events: Vec<Event> = Vec::new();
    events.push(Event { ty: String::from_str("program_funding"), attributes });
    let ghost n = state.fundings@.len();
    let mut i: usize = 0;
    while i < funds.len()
        invariant
            i <= funds@.len(),
            n == old(state).fundings@.len(),
            n + funds@.len() <= u64::MAX,
            state.wf(),
            state.programs == old(state).programs,
            state.fundings@.len() == n + i,
            state.fundings@.subrange(0, n as int) == old(state).fundings@,
            epochs_to_pay > 0,
            forall|j: int| 0 <= j < i ==> {
                let f = #[trigger] state.fundings@[n + j];
                &&& f.id == n + j + 1
                &&& f.program_id == program_id
                &&& f.pay_from_epoch == pay_from_epoch
                &&& f.denom == funds@[j].denom
                &&& f.initial_amount == funds@[j].amount
                &&& f.to_pay_each_epoch == funds@[j].amount as int / epochs_to_pay as int
            },
        decreases funds.len() - i,
    {
        let id: u64 = state.fundings.len() as u64 + 1;
        let f = Funding {
            id,
            program_id,
            pay_from_epoch,
            denom: funds[i].denom.clone(),
            initial_amount: funds[i].amount,
            to_pay_each_epoch: funds[i].amount / (epochs_to_pay as u128),
        };
        let ghost before = state.fundings@;
        state.fundings.push(f);
        assert(state.fundings@.subrange(0, n as int) =~= before.subrange(0, n as int));
        assert forall|j: int| 0 <= j < i + 1 implies {
            let f = #[trigger] state.fundings@[n + j];
            &&& f.id == n + j + 1
            &&& f.program_id == program_id
            &&& f.pay_from_epoch == pay_from_epoch
            &&& f.denom == funds@[j].denom
            &&& f.initial_amount == funds@[j].amount
            &&& f.to_pay_each_epoch == funds@[j].amount as int / epochs_to_pay as int
        } by {
            if j < i {
                assert(state.fundings@[n + j] == before[n + j]);
            }
        }
        i = i + 1;
    }
    Ok(Response { messages: Vec::new(), attributes: Vec::new(), events })
}

/// A copy of a funding.
pub fn funding_copy(f: &Funding) -> (r: Funding)
    ensures
        r == *f,
{
    Funding {
        id: f.id,
        program_id: f.program_id,
        pay_from_epoch: f.pay_from_epoch,
        denom: f.denom.clone(),
        initial_amount: f.initial_amount,
        to_pay_each_epoch: f.to_pay_each_epoch,
    }
}

/// Whether funding `a` comes before `b`: by the epoch it pays from, then by
/// identifier.
pub open spec fn funding_before(a: Funding, b: Funding) -> bool {
    a.pay_from_epoch < b.pay_from_epoch || (a.pay_from_epoch == b.pay_from_epoch && a.id < b.id)
}

/// Whether `sel` holds the fundings of program `pid` among `all`, each
/// once, in order.
pub open spec fn fundings_in_order(sel: Seq<Funding>, all: Seq<Funding>, pid: u64) -> bool {
    &&& forall|i: int, j: int| 0 <= i < j < sel.len() ==> funding_before(#[trigger] sel[i], #[trigger] sel[j])
    &&& forall|i: int| 0 <= i < sel.len() ==> (#[trigger] sel[i]).program_id == pid && 1 <= sel[i].id <= all.len()
        && sel[i] == all[sel[i].id - 1]
    &&& forall|j: int| 0 <= j < all.len() && (#[trigger] all[j]).program_id == pid ==> sel.contains(all[j])
}

/// The fundings of program `program_id`, by the epoch they pay from, then
/// by identifier.
pub fn program_fundings(state: &IncentivesState, program_id: u64) -> (r: Vec<Funding>)
    requires
        state.wf(),
    ensures
        fundings_in_order(r@, state.fundings@, program_id),
{
    let mut out: Vec<Funding> = Vec::new();
    let mut j: usize = 0;
    while j < state.fundings.len()
        invariant
            state.wf(),
            j <= state.fundings@.len(),
            forall|a: int, b: int| 0 <= a < b < out@.len() ==> funding_before(#[trigger] out@[a], #[trigger] out@[b]),
            forall|i: int| 0 <= i < out@.len() ==> (#[trigger] out@[i]).program_id == program_id && 1 <= out@[i].id <= j
                && out@[i] == state.fundings@[out@[i].id - 1],
            forall|q: int| 0 <= q < j && (#[trigger] state.fundings@[q]).program_id == program_id
                ==> out@.contains(state.fundings@[q]),
        decreases state.fundings.len() - j,
    {
        if state.fundings[j].program_id == program_id {
            let k = state.fundings[j].pay_from_epoch;
            let mut p: usize = 0;
            while p < out.len() && out[p].pay_from_epoch <= k
                invariant
                    p <= out@.len(),
                    forall|i: int| 0 <= i < p ==> (#[trigger] out@[i]).pay_from_epoch <= k,
                decreases out.len() - p,
            {
                p = p + 1;
            }
            let ghost before = out@;
            let x = funding_copy(&state.fundings[j]);
            out.insert(p, x);
            assert forall|a: int, b: int| 0 <= a < b < out@.len() implies funding_before(#[trigger] out@[a], #[trigger] out@[b]) by {
                if b < p {
                    assert(out@[a] == before[a] && out@[b] == before[b]);
                } else if b == p {
                    assert(out@[a] == before[a]);
                } else if a < p {
                    assert(out@[a] == before[a] && out@[b] == before[b - 1]);
                } else if a == p {
                    assert(out@[b] == before[b - 1]);
                    assert(before[p as int].pay_from_epoch > k) by {
                        if b - 1 > p {
                            assert(funding_before(before[p as int], before[b - 1]));
                        }
                    }
                } else {
                    assert(out@[a] == before[a - 1] && out@[b] == before[b - 1]);
                }
            }
            assert forall|i: int| 0 <= i < out@.len() implies (#[trigger] out@[i]).program_id == program_id
                && 1 <= out@[i].id <= j + 1 && out@[i] == state.fundings@[out@[i].id - 1] by {
                if i < p {
                    assert(out@[i] == before[i]);
                } else if i > p {
                    assert(out@[i] == before[i - 1]);
                }
            }
            assert forall|q: int| 0 <= q < j + 1 && (#[trigger] state.fundings@[q]).program_id == program_id
                implies out@.contains(state.fundings@[q]) by {
                if q < j {
                    let i = choose|i: int| 0 <= i < before.len() && before[i] == state.fundings@[q];
                    if i < p {
                        assert(out@[i] == before[i]);
                    } else {
                        assert(out@[i + 1] == before[i]);
                    }
                } else {
                    assert(out@[p as int] == state.fundings@[q]);
                }
            }
        }
        j = j + 1;
    }
    out
}

/// A copy of a list of coins.
fn coins_dup(v: &Vec<Coin>) -> (r: Vec<Coin>)
    ensures
        r@ == v@,
{
    crate::common::coins_copy(v)
}

/// A copy of an epoch.
pub fn epoch_copy(e: &EpochInfo) -> (r: EpochInfo)
    ensures
        r.epoch_identifier == e.epoch_identifier,
        r.for_coins_unlocking_after == e.for_coins_unlocking_after,
        r.to_distribute@ == e.to_distribute@,
        r.total_locked == e.total_locked,
{
    EpochInfo {
        epoch_identifier: e.epoch_identifier,
        for_coins_unlocking_after: e.for_coins_unlocking_after,
        to_distribute: coins_dup(&e.to_distribute),
        total_locked: e.total_locked,
    }
}

/// The processed epoch `epoch_number` of program `program_id`.
pub fn query_epoch_info(state: &IncentivesState, program_id: u64, epoch_number: u64) -> (r: Result<EpochInfo, IncentivesError>)
    requires
        state.wf(),
    ensures
        (has_program(*state, program_id) && 1 <= epoch_number <= program_of(*state, program_id).epochs@.len())
            <==> r is Ok,
        r matches Ok(e) ==> {
            let o = program_of(*state, program_id).epochs@[epoch_number - 1];
            &&& e.epoch_identifier == o.epoch_identifier
            &&& e.for_coins_unlocking_after == o.for_coins_unlocking_after
            &&& e.to_distribute@ == o.to_distribute@
            &&& e.total_locked == o.total_locked
        },
        r is Err ==> (r matches Err(IncentivesError::EpochNotFound)),
{
    if program_id == 0 || program_id > state.programs.len() as u64 {
        return Err(IncentivesError::EpochNotFound);
    }
    let idx: usize = (program_id - 1) as usize;
    if epoch_number == 0 || epoch_number > state.programs[idx].epochs.len() as u64 {
        return Err(IncentivesError::EpochNotFound);
    }
    Ok(epoch_copy(&state.programs[idx].epochs[(epoch_number - 1) as usize]))
}

/// `acc` with the coins `cs` added in turn.
pub open spec fn add_all(acc: Seq<Coin>, cs: Seq<Coin>) -> Seq<Coin>
    decreases cs.len(),
{
    if cs.len() == 0 {
        acc
    } else {
        add_coin_spec(add_all(acc, cs.drop_last()), cs.last())
    }
}

/// Whether every amount stays within range while `cs` is added to `acc`.
pub open spec fn all_fit(acc: Seq<Coin>, cs: Seq<Coin>) -> bool
    decreases cs.len(),
{
    if cs.len() == 0 {
        true
    } else {
        all_fit(acc, cs.drop_last()) && add_coin_fits(add_all(acc, cs.drop_last()), cs.last())
    }
}

proof fn lemma_all_fit_prefix(acc: Seq<Coin>, cs: Seq<Coin>, n: int)
    requires
        all_fit(acc, cs),
        0 <= n <= cs.len(),
    ensures
        all_fit(acc, cs.subrange(0, n)),
    decreases cs.len(),
{
    if n < cs.len() {
        assert(cs.drop_last().subrange(0, n) =~= cs.subrange(0, n));
        lemma_all_fit_prefix(acc, cs.drop_last(), n);
    } else {
        assert(cs.subrange(0, n) =~= cs);
    }
}

/// What the fundings `sel` pay in `epoch`: for each, in order, its amount
/// per epoch, when it pays from that epoch or earlier.
pub open spec fn epoch_coins(sel: Seq<Funding>, epoch: u64) -> Seq<Coin>
    decreases sel.len(),
{
    if sel.len() == 0 {
        Seq::empty()
    } else {
        let f = sel.last();
        let rest = epoch_coins(sel.drop_last(), epoch);
        if f.pay_from_epoch <= epoch {
            rest.push(Coin { denom: f.denom, amount: f.to_pay_each_epoch })
        } else {
            rest
        }
    }
}

proof fn lemma_epoch_coins_prefix(sel: Seq<Funding>, i: int, epoch: u64)
    requires
        0 <= i <= sel.len(),
    ensures
        epoch_coins(sel.subrange(0, i), epoch).len() <= epoch_coins(sel, epoch).len(),
        epoch_coins(sel, epoch).subrange(0, epoch_coins(sel.subrange(0, i), epoch).len() as int)
            == epoch_coins(sel.subrange(0, i), epoch),
    decreases sel.len(),
{
    if i == sel.len() {
        assert(sel.subrange(0, i) =~= sel);
        assert(epoch_coins(sel, epoch).subrange(0, epoch_coins(sel, epoch).len() as int) =~= epoch_coins(sel, epoch));
    } else {
        assert(sel.drop_last().subrange(0, i) =~= sel.subrange(0, i));
        lemma_epoch_coins_prefix(sel.drop_last(), i, epoch);
        let a = epoch_coins(sel.drop_last(), epoch);
        let b = epoch_coins(sel.subrange(0, i), epoch);
        assert(epoch_coins(sel, epoch).subrange(0, b.len() as int) =~= a.subrange(0, b.len() as int));
    }
}

/// The amount of the coins of `locks`.
pub open spec fn locks_sum(locks: Seq<Lock>) -> int
    decreases locks.len(),
{
    if locks.len() == 0 {
        0
    } else {
        locks_sum(locks.drop_last()) + locks.last().coin.amount
    }
}

/// The amount of the coins of `locks`, `None` beyond the largest amount.
pub fn locks_total(locks: &Vec<Lock>) -> (r: Option<u128>)
    ensures
        locks_sum(locks@) <= u128::MAX ==> (r matches Some(t) && t == locks_sum(locks@)),
        locks_sum(locks@) > u128::MAX ==> r is None,
{
    let mut total: u128 = 0;
    let mut i: usize = 0;
    while i < locks.len()
        invariant
            i <= locks@.len(),
            total == locks_sum(locks@.subrange(0, i as int)),
        decreases locks.len() - i,
    {
        assert(locks@.subrange(0, i + 1).drop_last() =~= locks@.subrange(0, i as int));
        if total > u128::MAX - locks[i].coin.amount {
            proof {
                lemma_locks_sum_prefix(locks@, i + 1);
            }
            return None;
        }
        total = total + locks[i].coin.amount;
        i = i + 1;
    }
    assert(locks@.subrange(0, i as int) =~= locks@);
    Some(total)
}

proof fn lemma_locks_sum_prefix(locks: Seq<Lock>, n: int)
    requires
        0 <= n <= locks.len(),
    ensures
        locks_sum(locks.subrange(0, n)) <= locks_sum(locks),
    decreases locks.len(),
{
    if n < locks.len() {
        assert(locks.drop_last().subrange(0, n) =~= locks.subrange(0, n));
        lemma_locks_sum_prefix(locks.drop_last(), n);
    } else {
        assert(locks.subrange(0, n) =~= locks);
    }
}

/// The epoch a program processes next and the block its locks must mature
/// after, checked as `execute_process_epoch` checks them.
pub open spec fn epoch_error(s: IncentivesState, program_id: u64, height: u64) -> Option<IncentivesError> {
    if !has_program(s, program_id) {
        Some(IncentivesError::NotFound(program_id))
    } else {
        let ps = program_of(s, program_id);
        let epoch = ps.epochs@.len() + 1;
        let pb = ps.program.start_block + epoch * ps.program.epoch_duration;
        if epoch > ps.program.epochs {
            Some(IncentivesError::EpochOutOfBounds(epoch as u64, program_id))
        } else if height <= pb {
            Some(IncentivesError::EpochProcessBlock(epoch as u64, program_id, pb as u64))
        } else {
            None
        }
    }
}

/// The block after which the locks of the next epoch of the program must
/// mature to qualify.
pub open spec fn qualification_block(s: IncentivesState, program_id: u64) -> int {
    let ps = program_of(s, program_id);
    ps.program.start_block + (ps.epochs@.len() + 1) * ps.program.epoch_duration + ps.program.min_lockup_duration_blocks
}

/// Whether the arithmetic of processing the next epoch at `height` stays
/// within range: the epoch number, the epoch's block once the epoch is
/// within the program, and the qualification block once that block has
/// passed.
pub open spec fn epoch_blocks_fit(s: IncentivesState, program_id: u64, height: u64) -> bool {
    let ps = program_of(s, program_id);
    let epoch = ps.epochs@.len() + 1;
    &&& has_program(s, program_id) ==> epoch <= u64::MAX
    &&& has_program(s, program_id) && epoch <= ps.program.epochs ==> epoch_block(ps.program, epoch as int) <= u64::MAX
    &&& has_program(s, program_id) && epoch <= ps.program.epochs && height > epoch_block(ps.program, epoch as int)
        ==> qualification_block(s, program_id) <= u64::MAX
}

/// The block at which the epoch `epoch` of the program is processed, from
/// which on it can be.
pub open spec fn epoch_block(p: Program, epoch: int) -> int {
    p.start_block + epoch * p.epoch_duration
}

/// What the lockup contract is asked for before the next epoch of the
/// program is processed: the locks of its denomination started by the
/// epoch's block that mature after its qualification block.
pub fn pending_epoch(state: &IncentivesState, program_id: u64, height: u64) -> (r: Result<(String, u64, u64), IncentivesError>)
    requires
        state.wf(),
        epoch_blocks_fit(*state, program_id, height),
    ensures
        match epoch_error(*state, program_id, height) {
            Some(e) => r == Err::<(String, u64, u64), IncentivesError>(e),
            None => (r matches Ok((d, b, q)) && d == program_of(*state, program_id).program.lockup_denom
                && b == epoch_block(program_of(*state, program_id).program, program_of(*state, program_id).epochs@.len() + 1 as int)
                && q == qualification_block(*state, program_id)),
        },
{
    if program_id == 0 || program_id > state.programs.len() as u64 {
        return Err(IncentivesError::NotFound(program_id));
    }
    let ps = &state.programs[(program_id - 1) as usize];
    let epoch: u64 = ps.epochs.len() as u64 + 1;
    if epoch > ps.program.epochs {
        return Err(IncentivesError::EpochOutOfBounds(epoch, program_id));
    }
    proof {
        assert(ps.program.start_block + epoch * ps.program.epoch_duration == epoch_block(ps.program, epoch as int));
    }
    let pb: u64 = ps.program.start_block + epoch * ps.program.epoch_duration;
    if height <= pb {
        return Err(IncentivesError::EpochProcessBlock(epoch, program_id, pb));
    }
    Ok((ps.program.lockup_denom.clone(), pb, pb + ps.program.min_lockup_duration_blocks))
}

/// Processes the next epoch of program `program_id` at `height`, given the
/// locks that qualify for it (see `pending_epoch`): it records how much
/// they hold and what the fundings that pay from this epoch or earlier
/// distribute in it.
pub fn execute_process_epoch(state: &mut IncentivesState, program_id: u64, height: u64, locks: &Vec<Lock>) -> (r: Result<Response, IncentivesError>)
    requires
        old(state).wf(),
        epoch_blocks_fit(*old(state), program_id, height),
        epoch_error(*old(state), program_id, height) is None ==> {
            &&& locks_sum(locks@) <= u128::MAX
            &&& forall|sel: Seq<Funding>| fundings_in_order(sel, old(state).fundings@, program_id)
                ==> all_fit(Seq::empty(), epoch_coins(sel, (program_of(*old(state), program_id).epochs@.len() + 1) as u64))
        },
    ensures
        final(state).wf(),
        match epoch_error(*old(state), program_id, height) {
            Some(e) => r == Err::<Response, IncentivesError>(e) && *final(state) == *old(state),
            None => (r matches Ok(resp) && {
                let ps = program_of(*old(state), program_id);
                let n = ps.epochs@.len();
                let nps = program_of(*final(state), program_id);
                let e = nps.epochs@[n as int];
                &&& final(state).fundings == old(state).fundings
                &&& final(state).programs@.len() == old(state).programs@.len()
                &&& forall|i: int| 0 <= i < old(state).programs@.len() && i != program_id - 1
                    ==> final(state).programs@[i] == old(state).programs@[i]
                &&& nps.program == ps.program
                &&& nps.withdrawals == ps.withdrawals
                &&& nps.epochs@.len() == n + 1
                &&& nps.epochs@.subrange(0, n as int) == ps.epochs@
                &&& e.epoch_identifier == n + 1
                &&& e.for_coins_unlocking_after == qualification_block(*old(state), program_id)
                &&& e.total_locked == locks_sum(locks@)
                &&& exists|sel: Seq<Funding>| fundings_in_order(sel, old(state).fundings@, program_id)
                    && e.to_distribute@ == add_all(Seq::empty(), epoch_coins(sel, (n + 1) as u64))
                &&& resp.messages@.len() == 0
                &&& resp.attributes@.len() == 0
                &&& resp.events@.len() == 0
            }),
        },
{
    let qual = match pending_epoch(state, program_id, height) {
        Err(e) => {
            return Err(e);
        },
        Ok((_, _, q)) => q,
    };
    assert(has_program(*old(state), program_id));
    assert(1 <= program_id <= state.programs@.len());
    assert(state.programs.len() <= usize::MAX);
    let idx: usize = (program_id - 1) as usize;
    assert(idx == program_id - 1);
    assert(state.programs@[idx as int] == program_of(*old(state), program_id));
    let epoch: u64 = state.programs[idx].epochs.len() as u64 + 1;
    let total = match locks_total(locks) {
        Some(t) => t,
        None => {
            return Err(IncentivesError::NothingToWithdraw);
        },
    };
    let sel = program_fundings(state, program_id);
    assert(epoch == (program_of(*old(state), program_id).epochs@.len() + 1) as u64);
    assert(fundings_in_order(sel@, old(state).fundings@, program_id));
    let to_distribute = match compute_distribution(&sel, epoch) {
        Some(v) => v,
        None => {
            return Err(IncentivesError::NothingToWithdraw);
        },
    };
    let info = EpochInfo { epoch_identifier: epoch, for_coins_unlocking_after: qual, to_distribute, total_locked: total };
    assert(fundings_in_order(sel@, old(state).fundings@, program_id)
        && info.to_distribute@ == add_all(Seq::empty(), epoch_coins(sel@, epoch)));
    let ghost before = state.programs@;
    let mut ps = state.programs.remove(idx);
    ps.epochs.push(info);
    state.programs.insert(idx, ps);
    assert forall|i: int| 0 <= i < before.len() && i != idx implies state.programs@[i] == before[i] by {}
    assert(state.programs@[idx as int].epochs@.subrange(0, epoch - 1) =~= before[idx as int].epochs@);
    assert forall|i: int| 0 <= i < state.programs@.len() implies (#[trigger] state.programs@[i]).program.id == i + 1
        && state.programs@[i].withdrawals.wf()
        && (forall|k: int| 0 <= k < state.programs@[i].epochs@.len()
            ==> (#[trigger] state.programs@[i].epochs@[k]).epoch_identifier == k + 1)
        && (forall|a: Seq<char>| #[trigger] state.programs@[i].withdrawals@.contains_key(a)
            ==> state.programs@[i].withdrawals@[a] <= state.programs@[i].epochs@.len()) by {
        if i != idx {
            assert(state.programs@[i] == before[i]);
        } else {
            assert forall|k: int| 0 <= k < state.programs@[i].epochs@.len()
                implies (#[trigger] state.programs@[i].epochs@[k]).epoch_identifier == k + 1 by {
                if k < before[i].epochs@.len() {
                    assert(state.programs@[i].epochs@[k] == before[i].epochs@[k]);
                }
            }
        }
    }
    Ok(Response { messages: Vec::new(), attributes: Vec::new(), events: Vec::new() })
}

/// `value * numerator / denominator`, rounded down, computed by cosmwasm's
/// `Uint128::checked_multiply_ratio` on a 256-bit product. As its source
/// shows, the result is `None` exactly when the denominator is zero or the
/// quotient does not fit in 128 bits.
#[verifier::external_body]
fn checked_multiply_ratio(value: u128, numerator: u128, denominator: u128) -> (r: Option<u128>)
    ensures
        denominator == 0 ==> r is None,
        denominator != 0 && (value as int) * (numerator as int) / (denominator as int) <= u128::MAX
            ==> r == Some(((value as int) * (numerator as int) / (denominator as int)) as u128),
        denominator != 0 && (value as int) * (numerator as int) / (denominator as int) > u128::MAX ==> r is None,
{
    match cosmwasm_std::Uint128::new(value).checked_multiply_ratio(numerator, denominator) {
        Ok(v) => Some(v.u128()),
        Err(_) => None,
    }
}

/// The unit of a decimal ratio: ratios are held with eighteen decimals.
pub const DECIMAL_FRACTIONAL: u128 = 1_000_000_000_000_000_000u128;

/// The share `q` of `t` as a decimal with eighteen decimals, rounded down.
pub open spec fn decimal_ratio(q: int, t: int) -> int {
    q * (DECIMAL_FRACTIONAL as int) / t
}

/// `amount` times the decimal `ratio`, rounded down.
pub open spec fn share_of(amount: int, ratio: int) -> int {
    if amount == 0 || ratio == 0 {
        0
    } else {
        amount * ratio / (DECIMAL_FRACTIONAL as int)
    }
}

/// `acc` with the share `ratio` of each coin of `cs` added in turn, `None`
/// when an amount leaves the range.
pub open spec fn pay_coins(acc: Seq<Coin>, cs: Seq<Coin>, ratio: int) -> Option<Seq<Coin>>
    decreases cs.len(),
{
    if cs.len() == 0 {
        Some(acc)
    } else {
        match pay_coins(acc, cs.drop_last(), ratio) {
            None => None,
            Some(a) => {
                let c = cs.last();
                let amt = share_of(c.amount as int, ratio);
                if amt > u128::MAX {
                    None
                } else if add_coin_fits(a, Coin { denom: c.denom, amount: amt as u128 }) {
                    Some(add_coin_spec(a, Coin { denom: c.denom, amount: amt as u128 }))
                } else {
                    None
                }
            },
        }
    }
}

/// What the epochs `epochs` pay to a holder of the qualified amounts `qs`
/// (one for each epoch): the share of what each epoch distributes that is
/// the holder's share of its locked coins. `None` when an epoch locked
/// nothing or an amount leaves the range.
pub open spec fn payout_run(epochs: Seq<EpochInfo>, qs: Seq<int>) -> Option<Seq<Coin>>
    decreases epochs.len(),
{
    if epochs.len() == 0 {
        Some(Seq::empty())
    } else {
        match payout_run(epochs.drop_last(), qs.drop_last()) {
            None => None,
            Some(a) => {
                let e = epochs.last();
                let ratio = decimal_ratio(qs.last(), e.total_locked as int);
                if e.total_locked == 0 || ratio > u128::MAX {
                    None
                } else {
                    pay_coins(a, e.to_distribute@, ratio)
                }
            },
        }
    }
}

proof fn lemma_pay_prefix(acc: Seq<Coin>, cs: Seq<Coin>, ratio: int, n: int)
    requires
        pay_coins(acc, cs, ratio) is Some,
        0 <= n <= cs.len(),
    ensures
        pay_coins(acc, cs.subrange(0, n), ratio) is Some,
    decreases cs.len(),
{
    if n < cs.len() {
        assert(cs.drop_last().subrange(0, n) =~= cs.subrange(0, n));
        lemma_pay_prefix(acc, cs.drop_last(), ratio, n);
    } else {
        assert(cs.subrange(0, n) =~= cs);
    }
}

proof fn lemma_payout_prefix(epochs: Seq<EpochInfo>, qs: Seq<int>, n: int)
    requires
        payout_run(epochs, qs) is Some,
        epochs.len() == qs.len(),
        0 <= n <= epochs.len(),
    ensures
        payout_run(epochs.subrange(0, n), qs.subrange(0, n)) is Some,
    decreases epochs.len(),
{
    if n < epochs.len() {
        assert(epochs.drop_last().subrange(0, n) =~= epochs.subrange(0, n));
        assert(qs.drop_last().subrange(0, n) =~= qs.subrange(0, n));
        lemma_payout_prefix(epochs.drop_last(), qs.drop_last(), n);
    } else {
        assert(epochs.subrange(0, n) =~= epochs);
        assert(qs.subrange(0, n) =~= qs);
    }
}

/// The amounts of the lists of locks.
pub open spec fn lock_sums(v: Seq<Vec<Lock>>) -> Seq<int> {
    v.map_values(|l: Vec<Lock>| locks_sum(l@))
}

/// The last epoch of the program paid to `a`, zero when none was.
pub open spec fn last_withdrawn(ps: ProgramState, a: Seq<char>) -> int {
    if ps.withdrawals@.contains_key(a) {
        ps.withdrawals@[a] as int
    } else {
        0
    }
}

/// The epochs of the program not paid to `a` yet.
pub open spec fn epochs_unpaid(ps: ProgramState, a: Seq<char>) -> Seq<EpochInfo> {
    ps.epochs@.subrange(last_withdrawn(ps, a), ps.epochs@.len() as int)
}

/// For each epoch of program `program_id` not paid to `sender` yet, the
/// block by which their locks must have started (the epoch's block) and
/// the block after which they must mature: what the lockup contract is
/// asked for before `execute_withdraw_rewards`.
pub fn pending_withdrawal_epochs(state: &IncentivesState, program_id: u64, sender: &str) -> (r: Result<Vec<(u64, u64)>, IncentivesError>)
    requires
        state.wf(),
        has_program(*state, program_id) ==> epoch_block(program_of(*state, program_id).program,
            program_of(*state, program_id).epochs@.len() as int) <= u64::MAX,
    ensures
        !has_program(*state, program_id) ==> (r matches Err(IncentivesError::NotFound(x)) && x == program_id),
        has_program(*state, program_id) ==> (r matches Ok(v) && {
            let ps = program_of(*state, program_id);
            let w = last_withdrawn(ps, sender@);
            let unpaid = epochs_unpaid(ps, sender@);
            &&& v@.len() == unpaid.len()
            &&& forall|i: int| 0 <= i < v@.len() ==> (#[trigger] v@[i]).0 == epoch_block(ps.program, w + i + 1)
                && v@[i].1 == unpaid[i].for_coins_unlocking_after
        }),
{
    if program_id == 0 || program_id > state.programs.len() as u64 {
        return Err(IncentivesError::NotFound(program_id));
    }
    let idx: usize = (program_id - 1) as usize;
    let ps = &state.programs[idx];
    assert(state.programs@[idx as int] == *ps);
    let n: usize = ps.epochs.len();
    let w: usize = match ps.withdrawals.get(sender) {
        Some(v) => *v as usize,
        None => 0,
    };
    assert(w == last_withdrawn(*ps, sender@));
    let mut v: Vec<(u64, u64)> = Vec::new();
    let mut k: usize = w;
    while k < ps.epochs.len()
        invariant
            w <= k <= ps.epochs@.len(),
            w == last_withdrawn(*ps, sender@),
            epoch_block(ps.program, ps.epochs@.len() as int) <= u64::MAX,
            v@.len() == k - w,
            forall|i: int| 0 <= i < v@.len() ==> (#[trigger] v@[i]).0 == epoch_block(ps.program, w + i + 1)
                && v@[i].1 == ps.epochs@[w + i].for_coins_unlocking_after,
        decreases ps.epochs.len() - k,
    {
        let epoch: u64 = k as u64 + 1;
        assert(epoch_block(ps.program, epoch as int) <= epoch_block(ps.program, ps.epochs@.len() as int)) by (nonlinear_arith)
            requires
                epoch <= ps.epochs@.len(),
        {
        }
        let block: u64 = ps.program.start_block + epoch * ps.program.epoch_duration;
        v.push((block, ps.epochs[k].for_coins_unlocking_after));
        k = k + 1;
    }
    Ok(v)
}

/// Pays `sender` what the program's epochs not paid to them yet owe them,
/// given, for each such epoch, their locks that qualify for it (see
/// `pending_withdrawal_epochs`), and records that all of them are paid.
pub fn execute_withdraw_rewards(state: &mut IncentivesState, program_id: u64, sender: &str, qualified: &Vec<Vec<Lock>>) -> (r: Result<Response, IncentivesError>)
    requires
        old(state).wf(),
        has_program(*old(state), program_id) ==> {
            let unpaid = epochs_unpaid(program_of(*old(state), program_id), sender@);
            &&& qualified@.len() == unpaid.len()
            &&& forall|i: int| 0 <= i < qualified@.len() ==> locks_sum((#[trigger] qualified@[i])@) <= u128::MAX
            &&& payout_run(unpaid, lock_sums(qualified@)) is Some
        },
    ensures
        final(state).wf(),
        r is Err ==> *final(state) == *old(state),
        !has_program(*old(state), program_id) ==> (r matches Err(IncentivesError::NotFound(x)) && x == program_id),
        has_program(*old(state), program_id) && epochs_unpaid(program_of(*old(state), program_id), sender@).len() == 0
            ==> (r matches Err(IncentivesError::NothingToWithdraw)),
        r is Ok <==> (has_program(*old(state), program_id) && epochs_unpaid(program_of(*old(state), program_id), sender@).len() > 0),
        r matches Ok(resp) ==> {
            let ps = program_of(*old(state), program_id);
            let nps = program_of(*final(state), program_id);
            let paid = payout_run(epochs_unpaid(ps, sender@), lock_sums(qualified@))->0;
            &&& final(state).fundings == old(state).fundings
            &&& final(state).programs@.len() == old(state).programs@.len()
            &&& forall|i: int| 0 <= i < old(state).programs@.len() && i != program_id - 1
                ==> final(state).programs@[i] == old(state).programs@[i]
            &&& nps.program == ps.program
            &&& nps.epochs == ps.epochs
            &&& nps.withdrawals@ == ps.withdrawals@.insert(sender@, ps.epochs@.len() as u64)
            &&& resp.messages@.len() == 1
            &&& resp.messages@[0] matches CosmosMsg::BankSend { to_address, amount }
                && to_address@ == sender@ && amount@ == paid
            &&& resp.attributes@.len() == 0
            &&& resp.events@.len() == 0
        },
{
    if program_id == 0 || program_id > state.programs.len() as u64 {
        return Err(IncentivesError::NotFound(program_id));
    }
    let idx: usize = (program_id - 1) as usize;
    let ghost ps0 = state.programs@[idx as int];
    let w: usize = match state.programs[idx].withdrawals.get(sender) {
        Some(v) => *v as usize,
        None => 0,
    };
    let len: usize = state.programs[idx].epochs.len();
    assert(w == last_withdrawn(ps0, sender@));
    if w == len {
        return Err(IncentivesError::NothingToWithdraw);
    }
    let ghost unpaid = epochs_unpaid(ps0, sender@);
    assert(!exists|k: int| 0 <= k < qualified@.len() && locks_sum((#[trigger] qualified@[k])@) > u128::MAX);
    let acc = match compute_payout(&state.programs[idx].epochs, w, qualified) {
        Some(a) => a,
        None => {
            return Err(IncentivesError::NothingToWithdraw);
        },
    };
    let ghost before = state.programs@;
    let mut ps = state.programs.remove(idx);
    ps.withdrawals.set(String::from_str(sender), len as u64);
    state.programs.insert(idx, ps);
    assert forall|k: int| 0 <= k < state.programs@.len() implies (#[trigger] state.programs@[k]).program.id == k + 1
        && state.programs@[k].withdrawals.wf()
        && (forall|q: int| 0 <= q < state.programs@[k].epochs@.len()
            ==> (#[trigger] state.programs@[k].epochs@[q]).epoch_identifier == q + 1)
        && (forall|a: Seq<char>| #[trigger] state.programs@[k].withdrawals@.contains_key(a)
            ==> state.programs@[k].withdrawals@[a] <= state.programs@[k].epochs@.len()) by {
        if k != idx {
            assert(state.programs@[k] == before[k]);
        }
    }
    let mut messages: Vec<CosmosMsg> = Vec::new();
    messages.push(CosmosMsg::BankSend { to_address: String::from_str(sender), amount: acc });
    Ok(Response { messages, attributes: Vec::new(), events: Vec::new() })
}

/// A funding never pays out more than was put in: over the epochs it is
/// spread on, its equal parts add up to at most its amount.
pub proof fn law_funding_within_amount(amount: u128, epochs_to_pay: int)
    requires
        epochs_to_pay > 0,
    ensures
        (amount as int / epochs_to_pay) * epochs_to_pay <= amount,
{
    assert((amount as int / epochs_to_pay) * epochs_to_pay <= amount) by (nonlinear_arith)
        requires
            epochs_to_pay > 0,
            amount >= 0,
    {
    }
}

/// A holder whose qualified amount is within the epoch's total is paid at
/// most what the epoch distributes of each coin.
pub proof fn law_share_within(amount: u128, q: u128, t: u128)
    requires
        0 < t,
        q <= t,
    ensures
        0 <= decimal_ratio(q as int, t as int) <= DECIMAL_FRACTIONAL,
        0 <= share_of(amount as int, decimal_ratio(q as int, t as int)) <= amount,
{
    let f = DECIMAL_FRACTIONAL as int;
    assert(0 <= (q as int) * f / (t as int) <= f) by (nonlinear_arith)
        requires
            0 < t,
            q <= t,
            f > 0,
    {
        assert((q as int) * f <= (t as int) * f);
        assert((t as int) * f / (t as int) == f);
    }
    let ratio = decimal_ratio(q as int, t as int);
    if amount != 0 && ratio != 0 {
        assert(0 <= (amount as int) * ratio / f <= amount) by (nonlinear_arith)
            requires
                0 <= ratio <= f,
                f > 0,
                amount >= 0,
        {
            assert((amount as int) * ratio <= (amount as int) * f);
            assert((amount as int) * f / f == amount);
        }
    }
}

/// Epochs are paid once: once the last epoch is recorded as paid to an
/// address, no epoch is left unpaid to it until a new one is processed.
pub proof fn law_withdrawal_settles(ps: ProgramState, after: ProgramState, a: Seq<char>)
    requires
        after.epochs@ == ps.epochs@,
        after.withdrawals@ == ps.withdrawals@.insert(a, ps.epochs@.len() as u64),
        ps.epochs@.len() <= u64::MAX,
    ensures
        epochs_unpaid(after, a).len() == 0,
{
}

/// Whether `c` can be added to `coins` with the amount staying in range.
pub fn coin_fits(coins: &Vec<Coin>, c: &Coin) -> (r: bool)
    ensures
        r == add_coin_fits(coins@, *c),
{
    let ghost d = c.denom@;
    let mut i: usize = 0;
    while i < coins.len()
        invariant
            i <= coins@.len(),
            d == c.denom@,
            find_denom(coins@, d, 0) == find_denom(coins@, d, i as int),
        decreases coins.len() - i,
    {
        if crate::common::str_eq(coins[i].denom.as_str(), c.denom.as_str()) {
            return coins[i].amount <= u128::MAX - c.amount;
        }
        i = i + 1;
    }
    true
}

/// What the fundings `sel` distribute in `epoch`, merged by denomination;
/// `None` when an amount leaves the range.
pub fn compute_distribution(sel: &Vec<Funding>, epoch: u64) -> (r: Option<Vec<Coin>>)
    ensures
        all_fit(Seq::empty(), epoch_coins(sel@, epoch)) ==> (r matches Some(v)
            && v@ == add_all(Seq::empty(), epoch_coins(sel@, epoch))),
        !all_fit(Seq::empty(), epoch_coins(sel@, epoch)) ==> r is None,
{
    let ghost ec = epoch_coins(sel@, epoch);
    let mut to_distribute: Vec<Coin> = Vec::new();
    let mut i: usize = 0;
    assert(sel@.subrange(0, 0) =~= Seq::<Funding>::empty());
    while i < sel.len()
        invariant
            i <= sel@.len(),
            ec == epoch_coins(sel@, epoch),
            all_fit(Seq::empty(), epoch_coins(sel@.subrange(0, i as int), epoch)),
            to_distribute@ == add_all(Seq::empty(), epoch_coins(sel@.subrange(0, i as int), epoch)),
        decreases sel.len() - i,
    {
        assert(sel@.subrange(0, i + 1).drop_last() =~= sel@.subrange(0, i as int));
        if sel[i].pay_from_epoch <= epoch {
            let c = Coin { denom: sel[i].denom.clone(), amount: sel[i].to_pay_each_epoch };
            let ghost p = epoch_coins(sel@.subrange(0, i + 1), epoch);
            assert(p.drop_last() =~= epoch_coins(sel@.subrange(0, i as int), epoch));
            if !coin_fits(&to_distribute, &c) {
                proof {
                    lemma_epoch_coins_prefix(sel@, i + 1, epoch);
                    if all_fit(Seq::empty(), ec) {
                        lemma_all_fit_prefix(Seq::empty(), ec, p.len() as int);
                    }
                }
                return None;
            }
            add_coins(&mut to_distribute, c);
        }
        i = i + 1;
    }
    assert(sel@.subrange(0, sel@.len() as int) =~= sel@);
    Some(to_distribute)
}

/// When the payout of the `i`-th epoch fails at its `j`-th coin, after the
/// earlier epochs paid `a0`, the whole payout fails.
proof fn lemma_payout_fails_at(unpaid: Seq<EpochInfo>, qs: Seq<int>, i: int, a0: Seq<Coin>, cs: Seq<Coin>, ratio: int, j: int)
    requires
        unpaid.len() == qs.len(),
        0 <= i < unpaid.len(),
        cs == unpaid[i].to_distribute@,
        unpaid[i].total_locked != 0,
        ratio == decimal_ratio(qs[i], unpaid[i].total_locked as int),
        0 <= ratio <= u128::MAX,
        payout_run(unpaid.subrange(0, i), qs.subrange(0, i)) == Some(a0),
        0 <= j < cs.len(),
        pay_coins(a0, cs.subrange(0, j), ratio) is Some,
        pay_coins(a0, cs.subrange(0, j + 1), ratio) is None,
    ensures
        payout_run(unpaid, qs) is None,
{
    if payout_run(unpaid, qs) is Some {
        lemma_payout_prefix(unpaid, qs, i + 1);
        assert(unpaid.subrange(0, i + 1).drop_last() =~= unpaid.subrange(0, i));
        assert(qs.subrange(0, i + 1).drop_last() =~= qs.subrange(0, i));
        assert(payout_run(unpaid.subrange(0, i + 1), qs.subrange(0, i + 1)) == pay_coins(a0, cs, ratio));
        lemma_pay_prefix(a0, cs, ratio, j + 1);
    }
}

/// What the epochs `unpaid` pay to a holder of the qualified locks
/// `qualified` (one list for each epoch); `None` when the locks of an epoch
/// hold more than the largest amount, or the payout cannot be computed.
pub open spec fn payout_of(unpaid: Seq<EpochInfo>, qualified: Seq<Vec<Lock>>) -> Option<Seq<Coin>> {
    if exists|i: int| 0 <= i < qualified.len() && locks_sum((#[trigger] qualified[i])@) > u128::MAX {
        None
    } else {
        payout_run(unpaid, lock_sums(qualified))
    }
}

/// What the epochs of `epochs` from index `from` on pay to a holder of the
/// qualified locks `qualified` (one list for each of these epochs).
pub fn compute_payout(epochs: &Vec<EpochInfo>, from: usize, qualified: &Vec<Vec<Lock>>) -> (r: Option<Vec<Coin>>)
    requires
        from <= epochs@.len(),
        qualified@.len() == epochs@.len() - from,
    ensures
        match payout_of(epochs@.subrange(from as int, epochs@.len() as int), qualified@) {
            None => r is None,
            Some(p) => (r matches Some(v) && v@ == p),
        },
{
    let len = epochs.len();
    let ghost unpaid = epochs@.subrange(from as int, len as int);
    let ghost qs = lock_sums(qualified@);
    let mut acc: Vec<Coin> = Vec::new();
    let mut i: usize = 0;
    assert(unpaid.subrange(0, 0) =~= Seq::<EpochInfo>::empty());
    assert(qs.subrange(0, 0) =~= Seq::<int>::empty());
    while i < len - from
        invariant
            len == epochs@.len(),
            from <= len,
            unpaid == epochs@.subrange(from as int, len as int),
            qs == lock_sums(qualified@),
            qualified@.len() == unpaid.len(),
            i <= len - from,
            payout_run(unpaid.subrange(0, i as int), qs.subrange(0, i as int)) == Some(acc@),
            forall|k: int| 0 <= k < i ==> locks_sum((#[trigger] qualified@[k])@) <= u128::MAX,
        decreases len - from - i,
    {
        assert(unpaid.subrange(0, i + 1).drop_last() =~= unpaid.subrange(0, i as int));
        assert(qs.subrange(0, i + 1).drop_last() =~= qs.subrange(0, i as int));
        let e = &epochs[from + i];
        assert(*e == unpaid[i as int]);
        let q: u128 = match locks_total(&qualified[i]) {
            Some(t) => t,
            None => {
                assert(locks_sum(qualified@[i as int]@) > u128::MAX);
                return None;
            },
        };
        assert(q == qs[i as int]);
        let ratio: u128 = match checked_multiply_ratio(q, DECIMAL_FRACTIONAL, e.total_locked) {
            Some(x) => x,
            None => {
                proof {
                    if payout_run(unpaid, qs) is Some {
                        lemma_payout_prefix(unpaid, qs, i + 1);
                    }
                }
                return None;
            },
        };
        let ghost a0 = acc@;
        let ghost cs = e.to_distribute@;
        let mut j: usize = 0;
        assert(cs.subrange(0, 0) =~= Seq::<Coin>::empty());
        while j < e.to_distribute.len()
            invariant
                cs == e.to_distribute@,
                j <= cs.len(),
                pay_coins(a0, cs.subrange(0, j as int), ratio as int) == Some(acc@),
                unpaid.len() == qs.len(),
                unpaid == epochs@.subrange(from as int, len as int),
                len == epochs@.len(),
                qs == lock_sums(qualified@),
                i < unpaid.len(),
                *e == unpaid[i as int],
                q == qs[i as int],
                e.total_locked != 0,
                ratio == decimal_ratio(q as int, e.total_locked as int),
                payout_run(unpaid.subrange(0, i as int), qs.subrange(0, i as int)) == Some(a0),
                unpaid.subrange(0, i + 1).drop_last() == unpaid.subrange(0, i as int),
                qs.subrange(0, i + 1).drop_last() == qs.subrange(0, i as int),
            decreases e.to_distribute.len() - j,
        {
            assert(cs.subrange(0, j + 1).drop_last() =~= cs.subrange(0, j as int));
            let amount = e.to_distribute[j].amount;
            let share: u128 = if amount == 0 || ratio == 0 {
                0
            } else {
                match checked_multiply_ratio(amount, ratio, DECIMAL_FRACTIONAL) {
                    Some(x) => x,
                    None => {
                        proof {
                            lemma_payout_fails_at(unpaid, qs, i as int, a0, cs, ratio as int, j as int);
                        }
                        return None;
                    },
                }
            };
            let c = Coin { denom: e.to_distribute[j].denom.clone(), amount: share };
            assert(c.amount == share_of(cs[j as int].amount as int, ratio as int));
            if !coin_fits(&acc, &c) {
                proof {
                    lemma_payout_fails_at(unpaid, qs, i as int, a0, cs, ratio as int, j as int);
                }
                return None;
            }
            add_coins(&mut acc, c);
            j = j + 1;
        }
        assert(cs.subrange(0, cs.len() as int) =~= cs);
        i = i + 1;
    }
    assert(unpaid.subrange(0, unpaid.len() as int) =~= unpaid);
    assert(qs.subrange(0, qs.len() as int) =~= qs);
    Some(acc)
}

} // verus!
