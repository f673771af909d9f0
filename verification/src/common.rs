//! Values shared by the contracts: coins, the chain messages a contract
//! replies with, and the string set and string-keyed map that hold the
//! contracts' address and denomination collections.
use vstd::prelude::*;

verus! {

/// An amount of one token denomination.
#[derive(Debug)]
pub struct Coin {
    pub denom: String,
    pub amount: u128,
}

/// A copy of a coin.
pub fn coin_copy(c: &Coin) -> (r: Coin)
    ensures
        r == *c,
{
    Coin { denom: c.denom.clone(), amount: c.amount }
}

/// A copy of a list of coins.
pub fn coins_copy(v: &Vec<Coin>) -> (r: Vec<Coin>)
    ensures
        r@ == v@,
{
    let mut r: Vec<Coin> = Vec::new();
    let mut i: usize = 0;
    while i < v.len()
        invariant
            i <= v.len(),
            r@ == v@.subrange(0, i as int),
        decreases v.len() - i,
    {
        r.push(coin_copy(&v[i]));
        i = i + 1;
        assert(r@ =~= v@.subrange(0, i as int));
    }
    assert(v@.subrange(0, v.len() as int) =~= v@);
    r
}

/// A copy of a list of strings.
pub fn strings_copy(v: &Vec<String>) -> (r: Vec<String>)
    ensures
        r@ == v@,
{
    let mut r: Vec<String> = Vec::new();
    let mut i: usize = 0;
    while i < v.len()
        invariant
            i <= v.len(),
            r@ == v@.subrange(0, i as int),
        decreases v.len() - i,
    {
        r.push(v[i].clone());
        i = i + 1;
        assert(r@ =~= v@.subrange(0, i as int));
    }
    assert(v@.subrange(0, v.len() as int) =~= v@);
    r
}

/// Whether `s` occurs (by its characters) in `v`.
pub open spec fn seq_has(v: Seq<String>, s: Seq<char>) -> bool {
    exists|i: int| 0 <= i < v.len() && v[i]@ == s
}

/// A copy of an optional string.
pub fn opt_string_copy(s: &Option<String>) -> (r: Option<String>)
    ensures
        r == *s,
{
    match s {
        Some(x) => Some(x.clone()),
        None => None,
    }
}

/// A token denomination: a native one, or a cw20 token contract.
#[derive(Debug)]
pub enum Denom {
    Native(String),
    Cw20(String),
}

/// A copy of a denomination.
pub fn denom_copy(d: &Denom) -> (r: Denom)
    ensures
        r == *d,
{
    match d {
        Denom::Native(s) => Denom::Native(s.clone()),
        Denom::Cw20(s) => Denom::Cw20(s.clone()),
    }
}

/// A message that a contract hands back to the chain for execution.
#[allow(inconsistent_fields)]
#[derive(Debug)]
pub enum CosmosMsg {
    /// Send coins from the contract's balance to an address.
    BankSend { to_address: String, amount: Vec<Coin> },
    /// Delegate coins of the contract to a validator.
    Delegate { validator: String, amount: Coin },
    /// Undelegate coins of the contract from a validator.
    Undelegate { validator: String, amount: Coin },
    /// Transfer cw20 tokens held by the contract.
    Cw20Transfer { contract_addr: String, recipient: String, amount: u128 },
}

/// The value of an attribute of a reply or an event.
#[derive(Debug)]
pub enum AttrValue {
    Text(String),
    Amount(u128),
    Flag(bool),
    /// A list of coins, rendered as JSON.
    Coins(Vec<Coin>),
    /// A set of denominations, rendered as a JSON array.
    Denoms(Vec<String>),
    /// A text and an amount, rendered as `text:amount`.
    TextAmount(String, u128),
    /// A denomination, rendered as JSON.
    DenomJson(Denom),
    /// A coin, rendered as its amount followed by its denomination.
    CoinText(Coin),
}

/// A key-value attribute of a reply or an event.
#[derive(Debug)]
pub struct Attribute {
    pub key: String,
    pub value: AttrValue,
}

/// A typed event of a reply.
#[derive(Debug)]
pub struct Event {
    pub ty: String,
    pub attributes: Vec<Attribute>,
}

/// What an executed message hands back to the chain.
#[derive(Debug)]
pub struct Response {
    pub messages: Vec<CosmosMsg>,
    pub attributes: Vec<Attribute>,
    pub events: Vec<Event>,
}

/// An attribute with a text value.
pub fn attr_text(key: &str, value: String) -> (r: Attribute)
    ensures
        r.key@ == key@,
        r.value == AttrValue::Text(value),
{
    Attribute { key: String::from_str(key), value: AttrValue::Text(value) }
}

/// An attribute with an amount value.
pub fn attr_amount(key: &str, value: u128) -> (r: Attribute)
    ensures
        r.key@ == key@,
        r.value == AttrValue::Amount(value),
{
    Attribute { key: String::from_str(key), value: AttrValue::Amount(value) }
}

/// A set of strings (addresses or denominations).
#[derive(Debug)]
pub struct StringSet {
    items: Vec<String>,
}

impl View for StringSet {
    type V = Set<Seq<char>>;

    closed spec fn view(&self) -> Set<Seq<char>> {
        Set::new(|s: Seq<char>| exists|i: int| 0 <= i < self.items@.len() && self.items@[i]@ == s)
    }
}

impl StringSet {
    /// No string is held twice.
    pub closed spec fn wf(&self) -> bool {
        forall|i: int, j: int|
            0 <= i < self.items@.len() && 0 <= j < self.items@.len() && i != j ==> self.items@[i]@
                != self.items@[j]@
    }

    /// The number of strings held.
    pub closed spec fn spec_len(&self) -> nat {
        self.items@.len()
    }

    /// The strings held, in their order of insertion.
    pub closed spec fn elems(&self) -> Seq<Seq<char>> {
        self.items@.map_values(|s: String| s@)
    }

    pub proof fn lemma_elems(&self)
        requires
            self.wf(),
        ensures
            self.elems().len() == self.spec_len(),
            self.elems().no_duplicates(),
            forall|s: Seq<char>| self@.contains(s) <==> self.elems().contains(s),
    {
        assert forall|s: Seq<char>| self@.contains(s) implies self.elems().contains(s) by {
            let i = choose|i: int| 0 <= i < self.items@.len() && self.items@[i]@ == s;
            assert(self.elems()[i] == s);
        }
        assert forall|s: Seq<char>| self.elems().contains(s) implies self@.contains(s) by {
            let i = choose|i: int| 0 <= i < self.elems().len() && self.elems()[i] == s;
            assert(self.items@[i]@ == s);
        }
    }

    /// The empty set.
    pub fn new() -> (r: StringSet)
        ensures
            r.wf(),
            r@ == Set::<Seq<char>>::empty(),
            r.spec_len() == 0,
    {
        let r = StringSet { items: Vec::new() };
        assert(r@ =~= Set::<Seq<char>>::empty());
        r
    }

    /// Whether `s` is in the set.
    pub fn contains(&self, s: &str) -> (r: bool)
        ensures
            r == self@.contains(s@),
    {
        let mut i: usize = 0;
        while i < self.items.len()
            invariant
                i <= self.items@.len(),
                forall|j: int| 0 <= j < i ==> self.items@[j]@ != s@,
            decreases self.items.len() - i,
        {
            if str_eq(self.items[i].as_str(), s) {
                return true;
            }
            i = i + 1;
        }
        false
    }

    /// Adds `s`; says whether it was new.
    pub fn insert(&mut self, s: String) -> (r: bool)
        requires
            old(self).wf(),
        ensures
            final(self).wf(),
            final(self)@ == old(self)@.insert(s@),
            r == !old(self)@.contains(s@),
            r ==> final(self).spec_len() == old(self).spec_len() + 1,
            !r ==> final(self).spec_len() == old(self).spec_len(),
    {
        if self.contains(s.as_str()) {
            assert(self@.insert(s@) =~= self@);
            return false;
        }
        let ghost old_self = *self;
        self.items.push(s);
        assert(self@ =~= old_self@.insert(s@)) by {
            assert forall|t: Seq<char>| self@.contains(t) == old_self@.insert(s@).contains(t) by {
                if t == s@ {
                    assert(self.items@[self.items@.len() - 1]@ == t);
                }
                if old_self@.contains(t) {
                    let k = choose|k: int| 0 <= k < old_self.items@.len() && old_self.items@[k]@ == t;
                    assert(self.items@[k]@ == t);
                }
            }
        }
        true
    }

    /// Removes `s`; says whether it was present.
    pub fn remove(&mut self, s: &str) -> (r: bool)
        requires
            old(self).wf(),
        ensures
            final(self).wf(),
            final(self)@ == old(self)@.remove(s@),
            r == old(self)@.contains(s@),
            r ==> final(self).spec_len() + 1 == old(self).spec_len(),
            !r ==> final(self).spec_len() == old(self).spec_len(),
    {
        let mut i: usize = 0;
        while i < self.items.len()
            invariant
                i <= self.items@.len(),
                forall|j: int| 0 <= j < i ==> self.items@[j]@ != s@,
                *self == *old(self),
                self.wf(),
            decreases self.items.len() - i,
        {
            if str_eq(self.items[i].as_str(), s) {
                let ghost old_self = *self;
                let ghost idx = i as int;
                self.items.remove(i);
                assert(self.items@ == old_self.items@.remove(idx));
                assert(self.wf()) by {
                    assert forall|a: int, b: int|
                        0 <= a < self.items@.len() && 0 <= b < self.items@.len() && a != b
                        implies self.items@[a]@ != self.items@[b]@ by {
                        let oa = if a < idx { a } else { a + 1 };
                        let ob = if b < idx { b } else { b + 1 };
                        assert(self.items@[a] == old_self.items@[oa]);
                        assert(self.items@[b] == old_self.items@[ob]);
                    }
                }
                assert(self@ =~= old_self@.remove(s@)) by {
                    assert forall|t: Seq<char>|
                        self@.contains(t) == old_self@.remove(s@).contains(t) by {
                        if self@.contains(t) {
                            let k = choose|k: int| 0 <= k < self.items@.len() && self.items@[k]@ == t;
                            if k < idx {
                                assert(old_self.items@[k]@ == t);
                                assert(t != s@);
                            } else {
                                assert(old_self.items@[k + 1]@ == t);
                                assert(t != s@);
                            }
                        }
                        if old_self@.remove(s@).contains(t) {
                            let k = choose|k: int| 0 <= k < old_self.items@.len() && old_self.items@[k]@ == t;
                            assert(k != idx);
                            if k < idx {
                                assert(self.items@[k]@ == t);
                            } else {
                                assert(self.items@[k - 1]@ == t);
                            }
                        }
                    }
                }
                return true;
            }
            i = i + 1;
        }
        assert(self@.remove(s@) =~= self@);
        false
    }

    /// The set holding the strings of `v`, each once.
    pub fn from_vec(v: Vec<String>) -> (r: StringSet)
        ensures
            r.wf(),
            forall|s: Seq<char>| r@.contains(s) <==> (exists|i: int| 0 <= i < v@.len() && v@[i]@ == s),
    {
        let mut r = StringSet::new();
        let mut i: usize = 0;
        while i < v.len()
            invariant
                i <= v@.len(),
                r.wf(),
                forall|s: Seq<char>| r@.contains(s) <==> (exists|k: int| 0 <= k < i && v@[k]@ == s),
            decreases v.len() - i,
        {
            let ghost before = r@;
            r.insert(v[i].clone());
            assert forall|s: Seq<char>| r@.contains(s) <==> (exists|k: int| 0 <= k < i + 1 && v@[k]@ == s) by {
                if s == v@[i as int]@ {
                }
                if exists|k: int| 0 <= k < i + 1 && v@[k]@ == s {
                    let k = choose|k: int| 0 <= k < i + 1 && v@[k]@ == s;
                    if k < i {
                        assert(before.contains(s));
                    }
                }
            }
            i = i + 1;
        }
        r
    }

    /// The strings held, in their order of insertion.
    pub fn to_vec(&self) -> (r: Vec<String>)
        ensures
            r@.map_values(|s: String| s@) == self.elems(),
    {
        let mut r: Vec<String> = Vec::new();
        let mut i: usize = 0;
        while i < self.items.len()
            invariant
                i <= self.items@.len(),
                r@.len() == i,
                forall|j: int| 0 <= j < i ==> r@[j]@ == self.items@[j]@,
            decreases self.items.len() - i,
        {
            r.push(self.items[i].clone());
            i = i + 1;
        }
        assert(r@.map_values(|s: String| s@) =~= self.elems());
        r
    }

    /// A copy of the set.
    pub fn copy(&self) -> (r: StringSet)
        requires
            self.wf(),
        ensures
            r.wf(),
            r@ == self@,
            r.elems() == self.elems(),
            r.spec_len() == self.spec_len(),
    {
        let items = self.to_vec();
        let r = StringSet { items };
        assert(r.items@.map_values(|s: String| s@) == self.elems());
        assert forall|i: int| 0 <= i < r.items@.len() implies r.items@[i]@ == self.items@[i]@ by {
            assert(r.items@.map_values(|s: String| s@)[i] == self.elems()[i]);
        }
        assert(r@ =~= self@);
        r
    }

    /// The number of strings held.
    pub fn len(&self) -> (r: usize)
        ensures
            r == self.spec_len(),
    {
        self.items.len()
    }
}

/// A map from strings (addresses, identifiers) to values.
#[derive(Debug)]
pub struct StrMap<V> {
    entries: Vec<(String, V)>,
}

impl<V> View for StrMap<V> {
    type V = Map<Seq<char>, V>;

    closed spec fn view(&self) -> Map<Seq<char>, V> {
        Map::new(
            |k: Seq<char>| exists|i: int| 0 <= i < self.entries@.len() && self.entries@[i].0@ == k,
            |k: Seq<char>|
                self.entries@[choose|i: int| 0 <= i < self.entries@.len() && self.entries@[i].0@ == k].1,
        )
    }
}

impl<V> StrMap<V> {
    /// No key is held twice.
    pub closed spec fn wf(&self) -> bool {
        forall|i: int, j: int|
            0 <= i < self.entries@.len() && 0 <= j < self.entries@.len() && i != j
                ==> self.entries@[i].0@ != self.entries@[j].0@
    }

    /// The keys, in their order of insertion.
    pub closed spec fn keys(&self) -> Seq<Seq<char>> {
        self.entries@.map_values(|e: (String, V)| e.0@)
    }

    proof fn lemma_at(&self, i: int)
        requires
            self.wf(),
            0 <= i < self.entries@.len(),
        ensures
            self@.contains_key(self.entries@[i].0@),
            self@[self.entries@[i].0@] == self.entries@[i].1,
    {
        let k = self.entries@[i].0@;
        let j = choose|j: int| 0 <= j < self.entries@.len() && self.entries@[j].0@ == k;
        assert(j == i);
    }

    pub proof fn lemma_keys(&self)
        requires
            self.wf(),
        ensures
            self.keys().no_duplicates(),
            forall|k: Seq<char>| self@.contains_key(k) <==> self.keys().contains(k),
            self.keys().len() == self@.dom().len(),
            self@.dom().finite(),
    {
        assert forall|k: Seq<char>| self@.contains_key(k) implies self.keys().contains(k) by {
            let i = choose|i: int| 0 <= i < self.entries@.len() && self.entries@[i].0@ == k;
            assert(self.keys()[i] == k);
        }
        assert forall|k: Seq<char>| self.keys().contains(k) implies self@.contains_key(k) by {
            let i = choose|i: int| 0 <= i < self.keys().len() && self.keys()[i] == k;
            assert(self.entries@[i].0@ == k);
        }
        assert(self@.dom() =~= self.keys().to_set());
        self.keys().unique_seq_to_set();
    }

    /// The empty map.
    pub fn new() -> (r: StrMap<V>)
        ensures
            r.wf(),
            r@ == Map::<Seq<char>, V>::empty(),
    {
        let r = StrMap { entries: Vec::new() };
        assert(r@ =~= Map::<Seq<char>, V>::empty());
        r
    }

    fn find(&self, k: &str) -> (r: Option<usize>)
        requires
            self.wf(),
        ensures
            r matches Some(i) ==> i < self.entries@.len() && self.entries@[i as int].0@ == k@,
            r is None ==> !self@.contains_key(k@),
            r is Some <==> self@.contains_key(k@),
    {
        let mut i: usize = 0;
        while i < self.entries.len()
            invariant
                i <= self.entries@.len(),
                forall|j: int| 0 <= j < i ==> self.entries@[j].0@ != k@,
            decreases self.entries.len() - i,
        {
            if str_eq(self.entries[i].0.as_str(), k) {
                return Some(i);
            }
            i = i + 1;
        }
        None
    }

    /// Whether `k` has a value.
    pub fn contains_key(&self, k: &str) -> (r: bool)
        requires
            self.wf(),
        ensures
            r == self@.contains_key(k@),
    {
        self.find(k).is_some()
    }

    /// The value of `k`, if any.
    pub fn get(&self, k: &str) -> (r: Option<&V>)
        requires
            self.wf(),
        ensures
            r is Some <==> self@.contains_key(k@),
            r matches Some(v) ==> *v == self@[k@],
    {
        match self.find(k) {
            Some(i) => {
                proof {
                    self.lemma_at(i as int);
                }
                Some(&self.entries[i].1)
            },
            None => None,
        }
    }

    /// Gives `k` the value `v`.
    pub fn set(&mut self, k: String, v: V)
        requires
            old(self).wf(),
        ensures
            final(self).wf(),
            final(self)@ == old(self)@.insert(k@, v),
    {
        let ghost old_self = *self;
        let ghost kv = k@;
        let ghost vv = v;
        match self.find(k.as_str()) {
            Some(i) => {
                self.entries.set(i, (k, v));
                assert(self.wf()) by {
                    assert forall|a: int, b: int|
                        0 <= a < self.entries@.len() && 0 <= b < self.entries@.len() && a != b
                        implies self.entries@[a].0@ != self.entries@[b].0@ by {
                        if a != i && b != i {
                            assert(self.entries@[a] == old_self.entries@[a]);
                            assert(self.entries@[b] == old_self.entries@[b]);
                        } else if a == i {
                            assert(self.entries@[b] == old_self.entries@[b]);
                            assert(old_self.entries@[i as int].0@ == kv);
                        } else {
                            assert(self.entries@[a] == old_self.entries@[a]);
                            assert(old_self.entries@[i as int].0@ == kv);
                        }
                    }
                }
                assert(self@ =~= old_self@.insert(kv, vv)) by {
                    assert forall|q: Seq<char>| #[trigger] self@.contains_key(q) == old_self@.insert(kv, vv).contains_key(q) by {
                        if self@.contains_key(q) {
                            let j = choose|j: int| 0 <= j < self.entries@.len() && self.entries@[j].0@ == q;
                            if j != i {
                                assert(old_self.entries@[j] == self.entries@[j]);
                            }
                        }
                        if old_self@.contains_key(q) {
                            let j = choose|j: int| 0 <= j < old_self.entries@.len() && old_self.entries@[j].0@ == q;
                            if j != i {
                                assert(old_self.entries@[j] == self.entries@[j]);
                            }
                        }
                        if q == kv {
                            assert(self.entries@[i as int].0@ == q);
                        }
                    }
                    assert forall|q: Seq<char>| #[trigger] self@.contains_key(q) implies self@[q] == old_self@.insert(kv, vv)[q] by {
                        let j = choose|j: int| 0 <= j < self.entries@.len() && self.entries@[j].0@ == q;
                        self.lemma_at(j);
                        if j != i {
                            assert(old_self.entries@[j] == self.entries@[j]);
                            old_self.lemma_at(j);
                        }
                    }
                }
            },
            None => {
                self.entries.push((k, v));
                let ghost n: int = self.entries@.len() - 1;
                assert(self.wf()) by {
                    assert forall|a: int, b: int|
                        0 <= a < self.entries@.len() && 0 <= b < self.entries@.len() && a != b
                        implies self.entries@[a].0@ != self.entries@[b].0@ by {
                        if a < n && b < n {
                            assert(self.entries@[a] == old_self.entries@[a]);
                            assert(self.entries@[b] == old_self.entries@[b]);
                        } else if a == n {
                            assert(self.entries@[b] == old_self.entries@[b]);
                        } else {
                            assert(self.entries@[a] == old_self.entries@[a]);
                        }
                    }
                }
                assert(self@ =~= old_self@.insert(kv, vv)) by {
                    assert forall|q: Seq<char>| #[trigger] self@.contains_key(q) == old_self@.insert(kv, vv).contains_key(q) by {
                        if self@.contains_key(q) {
                            let j = choose|j: int| 0 <= j < self.entries@.len() && self.entries@[j].0@ == q;
                            if j != n {
                                assert(old_self.entries@[j] == self.entries@[j]);
                            }
                        }
                        if old_self@.contains_key(q) {
                            let j = choose|j: int| 0 <= j < old_self.entries@.len() && old_self.entries@[j].0@ == q;
                            assert(old_self.entries@[j] == self.entries@[j]);
                        }
                        if q == kv {
                            assert(self.entries@[n].0@ == q);
                        }
                    }
                    assert forall|q: Seq<char>| #[trigger] self@.contains_key(q) implies self@[q] == old_self@.insert(kv, vv)[q] by {
                        let j = choose|j: int| 0 <= j < self.entries@.len() && self.entries@[j].0@ == q;
                        self.lemma_at(j);
                        if j != n {
                            assert(old_self.entries@[j] == self.entries@[j]);
                            old_self.lemma_at(j);
                        }
                    }
                }
            },
        }
    }

    /// Removes the value of `k` and hands it back, if any.
    pub fn remove(&mut self, k: &str) -> (r: Option<V>)
        requires
            old(self).wf(),
        ensures
            final(self).wf(),
            final(self)@ == old(self)@.remove(k@),
            r is Some <==> old(self)@.contains_key(k@),
            r matches Some(v) ==> v == old(self)@[k@],
    {
        let ghost old_self = *self;
        match self.find(k) {
            None => {
                assert(self@ =~= old_self@.remove(k@));
                None
            },
            Some(i) => {
                proof {
                    old_self.lemma_at(i as int);
                }
                let e = self.entries.remove(i);
                assert(self.entries@ == old_self.entries@.remove(i as int));
                assert(self.wf()) by {
                    assert forall|a: int, b: int|
                        0 <= a < self.entries@.len() && 0 <= b < self.entries@.len() && a != b
                        implies self.entries@[a].0@ != self.entries@[b].0@ by {
                        let oa = if a < i { a } else { a + 1 };
                        let ob = if b < i { b } else { b + 1 };
                        assert(self.entries@[a] == old_self.entries@[oa]);
                        assert(self.entries@[b] == old_self.entries@[ob]);
                    }
                }
                assert(self@ =~= old_self@.remove(k@)) by {
                    assert forall|q: Seq<char>| #[trigger] self@.contains_key(q) == old_self@.remove(k@).contains_key(q) by {
                        if self@.contains_key(q) {
                            let j = choose|j: int| 0 <= j < self.entries@.len() && self.entries@[j].0@ == q;
                            let oj = if j < i { j } else { j + 1 };
                            assert(self.entries@[j] == old_self.entries@[oj]);
                            assert(oj != i);
                        }
                        if old_self@.remove(k@).contains_key(q) {
                            let j = choose|j: int| 0 <= j < old_self.entries@.len() && old_self.entries@[j].0@ == q;
                            assert(j != i);
                            let nj = if j < i { j } else { j - 1 };
                            assert(self.entries@[nj] == old_self.entries@[j]);
                        }
                    }
                    assert forall|q: Seq<char>| #[trigger] self@.contains_key(q) implies self@[q] == old_self@.remove(k@)[q] by {
                        let j = choose|j: int| 0 <= j < self.entries@.len() && self.entries@[j].0@ == q;
                        self.lemma_at(j);
                        let oj = if j < i { j } else { j + 1 };
                        assert(self.entries@[j] == old_self.entries@[oj]);
                        old_self.lemma_at(oj);
                    }
                }
                Some(e.1)
            },
        }
    }

    /// The keys, in their order of insertion.
    pub fn key_list(&self) -> (r: Vec<String>)
        requires
            self.wf(),
        ensures
            forall|k: Seq<char>| self@.contains_key(k) <==> exists|i: int| 0 <= i < r@.len() && #[trigger] r@[i]@ == k,
    {
        let mut r: Vec<String> = Vec::new();
        let mut i: usize = 0;
        while i < self.entries.len()
            invariant
                i <= self.entries@.len(),
                r@.len() == i,
                forall|j: int| 0 <= j < i ==> (#[trigger] r@[j])@ == self.entries@[j].0@,
            decreases self.entries.len() - i,
        {
            r.push(self.entries[i].0.clone());
            i = i + 1;
        }
        assert forall|k: Seq<char>| self@.contains_key(k) implies exists|i: int| 0 <= i < r@.len() && #[trigger] r@[i]@ == k by {
            let j = choose|j: int| 0 <= j < self.entries@.len() && self.entries@[j].0@ == k;
            assert(r@[j]@ == k);
        }
        assert forall|k: Seq<char>| (exists|i: int| 0 <= i < r@.len() && #[trigger] r@[i]@ == k) implies self@.contains_key(k) by {
            let j = choose|j: int| 0 <= j < r@.len() && #[trigger] r@[j]@ == k;
            assert(self.entries@[j].0@ == k);
        }
        r
    }

    /// The number of keys.
    pub fn len(&self) -> (r: usize)
        requires
            self.wf(),
        ensures
            r == self@.dom().len(),
    {
        proof {
            self.lemma_keys();
        }
        self.entries.len()
    }
}

/// Whether two strings are equal.
pub fn str_eq(a: &str, b: &str) -> (r: bool)
    ensures
        r == (a@ == b@),
{
    let n = a.unicode_len();
    if n != b.unicode_len() {
        return false;
    }
    let mut i: usize = 0;
    while i < n
        invariant
            n == a@.len(),
            n == b@.len(),
            i <= n,
            forall|j: int| 0 <= j < i ==> a@[j] == b@[j],
        decreases n - i,
    {
        if a.get_char(i) != b.get_char(i) {
            return false;
        }
        i = i + 1;
    }
    assert(a@ =~= b@);
    true
}

/// Whether `s` occurs in `v`.
pub fn vec_contains_str(v: &Vec<String>, s: &str) -> (r: bool)
    ensures
        r == seq_has(v@, s@),
{
    let mut i: usize = 0;
    while i < v.len()
        invariant
            i <= v@.len(),
            forall|j: int| 0 <= j < i ==> v@[j]@ != s@,
        decreases v.len() - i,
    {
        if str_eq(v[i].as_str(), s) {
            return true;
        }
        i = i + 1;
    }
    false
}

} // verus!
