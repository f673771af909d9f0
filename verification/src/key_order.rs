//! The order in which stored keys are walked: strings compared character
//! by character (the order of their UTF-8 bytes), and the selection of the
//! first keys of a map that follow a bound in that order.
use vstd::prelude::*;

use crate::common::{StrMap, StringSet};

verus! {

/// Whether `a` comes strictly before `b`: at the first character where they
/// differ, or as a proper prefix.
pub open spec fn key_lt(a: Seq<char>, b: Seq<char>) -> bool
    decreases a.len(),
{
    if a.len() == 0 {
        b.len() > 0
    } else if b.len() == 0 {
        false
    } else if a[0] != b[0] {
        a[0] < b[0]
    } else {
        key_lt(a.drop_first(), b.drop_first())
    }
}

/// Whether `k` follows the bound `b` (every key follows no bound).
pub open spec fn after(k: Seq<char>, b: Option<Seq<char>>) -> bool {
    match b {
        None => true,
        Some(s) => key_lt(s, k),
    }
}

/// No key comes before itself.
pub proof fn lemma_key_lt_irreflexive(a: Seq<char>)
    ensures
        !key_lt(a, a),
    decreases a.len(),
{
    if a.len() > 0 {
        lemma_key_lt_irreflexive(a.drop_first());
    }
}

/// Of two different keys, one comes before the other.
pub proof fn lemma_key_lt_total(a: Seq<char>, b: Seq<char>)
    requires
        a != b,
    ensures
        key_lt(a, b) || key_lt(b, a),
    decreases a.len(),
{
    if a.len() == 0 {
        assert(b.len() != 0) by {
            if b.len() == 0 {
                assert(a =~= b);
            }
        }
    } else if b.len() == 0 {
    } else if a[0] != b[0] {
    } else {
        let a1 = a.drop_first();
        let b1 = b.drop_first();
        if a1 == b1 {
            assert(a1.len() == b1.len());
            assert(a =~= b) by {
                assert forall|i: int| 0 <= i < a.len() implies a[i] == b[i] by {
                    if i > 0 {
                        assert(a[i] == a1[i - 1]);
                        assert(b[i] == b1[i - 1]);
                    }
                }
            }
        }
        lemma_key_lt_total(a1, b1);
    }
}

/// No two keys come each before the other.
pub proof fn lemma_key_lt_asymmetric(a: Seq<char>, b: Seq<char>)
    requires
        key_lt(a, b),
    ensures
        !key_lt(b, a),
    decreases a.len(),
{
    if a.len() > 0 && b.len() > 0 && a[0] == b[0] {
        lemma_key_lt_asymmetric(a.drop_first(), b.drop_first());
    }
}

/// The order is transitive.
pub proof fn lemma_key_lt_transitive(a: Seq<char>, b: Seq<char>, c: Seq<char>)
    requires
        key_lt(a, b),
        key_lt(b, c),
    ensures
        key_lt(a, c),
    decreases a.len(),
{
    if a.len() > 0 && b.len() > 0 && c.len() > 0 && a[0] == b[0] && b[0] == c[0] {
        lemma_key_lt_transitive(a.drop_first(), b.drop_first(), c.drop_first());
    }
}

/// Whether `a` comes strictly before `b`.
pub fn str_lt(a: &str, b: &str) -> (r: bool)
    ensures
        r == key_lt(a@, b@),
{
    let na = a.unicode_len();
    let nb = b.unicode_len();
    let mut i: usize = 0;
    assert(a@.skip(0) =~= a@);
    assert(b@.skip(0) =~= b@);
    while i < na && i < nb
        invariant
            na == a@.len(),
            nb == b@.len(),
            i <= na,
            i <= nb,
            key_lt(a@, b@) == key_lt(a@.skip(i as int), b@.skip(i as int)),
        decreases na - i,
    {
        let ca = a.get_char(i);
        let cb = b.get_char(i);
        assert(a@.skip(i as int)[0] == ca);
        assert(b@.skip(i as int)[0] == cb);
        if ca != cb {
            return ca < cb;
        }
        assert(a@.skip(i as int).drop_first() =~= a@.skip(i + 1));
        assert(b@.skip(i as int).drop_first() =~= b@.skip(i + 1));
        i = i + 1;
    }
    i < nb
}

/// The keys of `m` in the order of the sequence `sel`: strictly increasing,
/// each after the bound `start`, and together the first keys after it:
/// no more than `n`, and every key of `m` after the bound is there, unless
/// `n` keys were taken and it comes after the last of them.
pub open spec fn first_keys_after<V>(sel: Seq<Seq<char>>, m: Map<Seq<char>, V>, start: Option<Seq<char>>, n: int) -> bool {
    &&& sel.len() <= n
    &&& forall|i: int, j: int| 0 <= i < j < sel.len() ==> key_lt(#[trigger] sel[i], #[trigger] sel[j])
    &&& forall|i: int| 0 <= i < sel.len() ==> m.contains_key(#[trigger] sel[i]) && after(sel[i], start)
    &&& forall|k: Seq<char>| #[trigger] m.contains_key(k) && after(k, start)
        && (sel.len() < n || (sel.len() > 0 && key_lt(k, sel[sel.len() - 1]))) ==> sel.contains(k)
}

proof fn lemma_first_keys_step<V>(s1: Seq<Seq<char>>, s2: Seq<Seq<char>>, m: Map<Seq<char>, V>, start: Option<Seq<char>>, n: int, p: int)
    requires
        first_keys_after(s1, m, start, n),
        first_keys_after(s2, m, start, n),
        0 <= p < s1.len(),
        p < s2.len(),
        forall|j: int| 0 <= j < p ==> s1[j] == s2[j],
    ensures
        !key_lt(s1[p], s2[p]),
{
    let a = s1[p];
    let b = s2[p];
    if key_lt(a, b) {
        let last = s2[s2.len() - 1];
        if p < s2.len() - 1 {
            assert(key_lt(s2[p], s2[s2.len() - 1]));
            lemma_key_lt_transitive(a, b, last);
        }
        assert(m.contains_key(s1[p]) && after(s1[p], start));
        assert(s2.contains(a));
        let q = choose|q: int| 0 <= q < s2.len() && s2[q] == a;
        if q < p {
            assert(s1[q] == s2[q]);
            assert(key_lt(s1[q], s1[p]));
            lemma_key_lt_irreflexive(a);
        } else if q == p {
            lemma_key_lt_irreflexive(a);
        } else {
            assert(key_lt(s2[p], s2[q]));
            lemma_key_lt_asymmetric(a, b);
        }
    }
}

proof fn lemma_first_keys_prefix<V>(s1: Seq<Seq<char>>, s2: Seq<Seq<char>>, m: Map<Seq<char>, V>, start: Option<Seq<char>>, n: int, i: int)
    requires
        first_keys_after(s1, m, start, n),
        first_keys_after(s2, m, start, n),
        0 <= i <= s1.len(),
        i <= s2.len(),
    ensures
        forall|j: int| 0 <= j < i ==> s1[j] == s2[j],
    decreases i,
{
    if i > 0 {
        lemma_first_keys_prefix(s1, s2, m, start, n, i - 1);
        let p = i - 1;
        if s1[p] != s2[p] {
            lemma_key_lt_total(s1[p], s2[p]);
            lemma_first_keys_step(s1, s2, m, start, n, p);
            lemma_first_keys_step(s2, s1, m, start, n, p);
        }
    }
}

proof fn lemma_first_keys_len<V>(s1: Seq<Seq<char>>, s2: Seq<Seq<char>>, m: Map<Seq<char>, V>, start: Option<Seq<char>>, n: int)
    requires
        first_keys_after(s1, m, start, n),
        first_keys_after(s2, m, start, n),
    ensures
        s2.len() <= s1.len(),
{
    if s1.len() < s2.len() {
        lemma_first_keys_prefix(s1, s2, m, start, n, s1.len() as int);
        let l = s1.len() as int;
        let k = s2[l];
        assert(m.contains_key(s2[l]) && after(s2[l], start));
        assert(s1.contains(k));
        let q = choose|q: int| 0 <= q < s1.len() && s1[q] == k;
        assert(s1[q] == s2[q]);
        assert(key_lt(s2[q], s2[l]));
        lemma_key_lt_irreflexive(k);
    }
}

/// The first keys after a bound are determined: two selections that both
/// are the first `n` keys of `m` after `start` are the same.
pub proof fn lemma_first_keys_unique<V>(s1: Seq<Seq<char>>, s2: Seq<Seq<char>>, m: Map<Seq<char>, V>, start: Option<Seq<char>>, n: int)
    requires
        first_keys_after(s1, m, start, n),
        first_keys_after(s2, m, start, n),
    ensures
        s1 == s2,
{
    lemma_first_keys_len(s1, s2, m, start, n);
    lemma_first_keys_len(s2, s1, m, start, n);
    lemma_first_keys_prefix(s1, s2, m, start, n, s1.len() as int);
    assert(s1 =~= s2);
}

/// The index of the first key of `keys` after the bound `b`, if any.
fn first_after(keys: &Vec<String>, b: &Option<String>) -> (r: Option<usize>)
    ensures
        r matches Some(i) ==> i < keys@.len() && after(keys@[i as int]@, opt_view(*b))
            && forall|j: int| 0 <= j < keys@.len() && after(keys@[j]@, opt_view(*b)) ==> !key_lt(
            #[trigger] keys@[j]@, keys@[i as int]@),
        r is None ==> forall|j: int| 0 <= j < keys@.len() ==> !after(#[trigger] keys@[j]@, opt_view(*b)),
{
    let mut best: Option<usize> = None;
    let mut j: usize = 0;
    while j < keys.len()
        invariant
            j <= keys@.len(),
            best matches Some(i) ==> i < j && after(keys@[i as int]@, opt_view(*b))
                && forall|q: int| 0 <= q < j && after(keys@[q]@, opt_view(*b)) ==> !key_lt(
                #[trigger] keys@[q]@, keys@[i as int]@),
            best is None ==> forall|q: int| 0 <= q < j ==> !after(#[trigger] keys@[q]@, opt_view(*b)),
        decreases keys.len() - j,
    {
        let follows = match b {
            None => true,
            Some(s) => str_lt(s.as_str(), keys[j].as_str()),
        };
        if follows {
            match best {
                None => {
                    best = Some(j);
                    proof {
                        lemma_key_lt_irreflexive(keys@[j as int]@);
                    }
                },
                Some(i) => {
                    if str_lt(keys[j].as_str(), keys[i].as_str()) {
                        best = Some(j);
                        proof {
                            lemma_key_lt_irreflexive(keys@[j as int]@);
                            assert forall|q: int| 0 <= q < j + 1 && after(keys@[q]@, opt_view(*b)) implies !key_lt(
                                #[trigger] keys@[q]@, keys@[j as int]@) by {
                                if q < j && key_lt(keys@[q]@, keys@[j as int]@) {
                                    lemma_key_lt_transitive(keys@[q]@, keys@[j as int]@, keys@[i as int]@);
                                }
                            }
                        }
                    } else {
                        proof {
                            if key_lt(keys@[j as int]@, keys@[i as int]@) {
                            }
                        }
                    }
                },
            }
        }
        j = j + 1;
    }
    best
}

/// The text of an optional string.
pub open spec fn opt_view(b: Option<String>) -> Option<Seq<char>> {
    match b {
        None => None,
        Some(s) => Some(s@),
    }
}

/// The first `n` keys of `m` after the bound `start`, in order.
pub fn first_keys<V>(m: &StrMap<V>, start: Option<String>, n: usize) -> (r: Vec<String>)
    requires
        m.wf(),
    ensures
        first_keys_after(r@.map_values(|s: String| s@), m@, opt_view(start), n as int),
{
    let keys = m.key_list();
    let ghost st = opt_view(start);
    let mut bound: Option<String> = match &start {
        None => None,
        Some(s) => Some(s.clone()),
    };
    let mut out: Vec<String> = Vec::new();
    let mut done = false;
    while out.len() < n && !done
        invariant
            m.wf(),
            forall|k: Seq<char>| m@.contains_key(k) <==> exists|i: int| 0 <= i < keys@.len() && #[trigger] keys@[i]@ == k,
            out@.len() <= n,
            forall|i: int, j: int| 0 <= i < j < out@.len() ==> key_lt(#[trigger] out@[i]@, #[trigger] out@[j]@),
            forall|i: int| 0 <= i < out@.len() ==> m@.contains_key(#[trigger] out@[i]@) && after(out@[i]@, st),
            out@.len() == 0 ==> opt_view(bound) == st,
            out@.len() > 0 ==> opt_view(bound) == Some(out@[out@.len() - 1]@),
            forall|k: Seq<char>| #[trigger] m@.contains_key(k) && after(k, st) && !after(k, opt_view(bound))
                ==> exists|i: int| 0 <= i < out@.len() && #[trigger] out@[i]@ == k,
            done ==> forall|k: Seq<char>| #[trigger] m@.contains_key(k) ==> !after(k, opt_view(bound)),
        decreases n - out@.len(), (if done { 0int } else { 1int }),
    {
        match first_after(&keys, &bound) {
            None => {
                done = true;
                assert forall|k: Seq<char>| #[trigger] m@.contains_key(k) implies !after(k, opt_view(bound)) by {
                    let i = choose|i: int| 0 <= i < keys@.len() && #[trigger] keys@[i]@ == k;
                    assert(!after(keys@[i]@, opt_view(bound)));
                }
            },
            Some(i) => {
                let key = keys[i].clone();
                let ghost nk = key@;
                let ghost old_out = out@;
                let ghost old_bound = opt_view(bound);
                assert(m@.contains_key(nk));
                proof {
                    if old_out.len() > 0 {
                        if let Some(s) = st {
                            lemma_key_lt_transitive(s, old_out[old_out.len() - 1]@, nk);
                        }
                        assert forall|p: int| 0 <= p < old_out.len() implies key_lt(#[trigger] old_out[p]@, nk) by {
                            if p < old_out.len() - 1 {
                                lemma_key_lt_transitive(old_out[p]@, old_out[old_out.len() - 1]@, nk);
                            }
                        }
                    }
                }
                out.push(key);
                bound = Some(keys[i].clone());
                assert forall|k: Seq<char>| #[trigger] m@.contains_key(k) && after(k, st) && !after(k, opt_view(bound))
                    implies exists|p: int| 0 <= p < out@.len() && #[trigger] out@[p]@ == k by {
                    if k == nk {
                        assert(out@[out@.len() - 1]@ == k);
                    } else {
                        lemma_key_lt_total(k, nk);
                        let q = choose|q: int| 0 <= q < keys@.len() && #[trigger] keys@[q]@ == k;
                        if after(k, old_bound) {
                            assert(!key_lt(keys@[q]@, keys@[i as int]@));
                        }
                        let p = choose|p: int| 0 <= p < old_out.len() && #[trigger] old_out[p]@ == k;
                        assert(out@[p]@ == k);
                    }
                }
            },
        }
    }
    let ghost sel = out@.map_values(|s: String| s@);
    assert forall|k: Seq<char>| #[trigger] m@.contains_key(k) && after(k, st)
        && (sel.len() < n || (sel.len() > 0 && key_lt(k, sel[sel.len() - 1]))) implies sel.contains(k) by {
        if !after(k, opt_view(bound)) {
            let p = choose|p: int| 0 <= p < out@.len() && #[trigger] out@[p]@ == k;
            assert(sel[p] == k);
        } else {
            if sel.len() == n && n > 0 && key_lt(k, sel[sel.len() - 1]) {
                lemma_key_lt_asymmetric(k, sel[sel.len() - 1]);
            }
        }
    }
    out
}

/// Each string of `s` comes strictly before the ones after it.
pub open spec fn strictly_sorted(s: Seq<Seq<char>>) -> bool {
    forall|i: int, j: int| 0 <= i < j < s.len() ==> key_lt(#[trigger] s[i], #[trigger] s[j])
}

/// The texts of `v`.
pub open spec fn views(v: Seq<String>) -> Seq<Seq<char>> {
    v.map_values(|s: String| s@)
}

/// The strings of `set`, in order.
pub fn sorted_strings(set: &StringSet) -> (r: Vec<String>)
    requires
        set.wf(),
    ensures
        strictly_sorted(views(r@)),
        forall|k: Seq<char>| #[trigger] views(r@).contains(k) <==> set@.contains(k),
{
    let items = set.to_vec();
    proof {
        set.lemma_elems();
    }
    let ghost ev = set.elems();
    let mut r: Vec<String> = Vec::new();
    let mut k: usize = 0;
    while k < items.len()
        invariant
            k <= items@.len(),
            items@.map_values(|s: String| s@) == ev,
            ev.no_duplicates(),
            strictly_sorted(r@.map_values(|s: String| s@)),
            forall|x: Seq<char>| r@.map_values(|s: String| s@).contains(x) <==> ev.subrange(0, k as int).contains(x),
        decreases items.len() - k,
    {
        let ghost rv = r@.map_values(|s: String| s@);
        let ghost x = ev[k as int];
        assert(items@[k as int]@ == x);
        assert(!rv.contains(x)) by {
            if rv.contains(x) {
                assert(ev.subrange(0, k as int).contains(x));
                let j = choose|j: int| 0 <= j < k && ev.subrange(0, k as int)[j] == x;
                assert(ev.subrange(0, k as int)[j] == ev[j]);
                assert(ev[j] == ev[k as int]);
                assert(j != k);
            }
        }
        let mut p: usize = 0;
        while p < r.len() && !str_lt(items[k].as_str(), r[p].as_str())
            invariant
                p <= r@.len(),
                k < items@.len(),
                rv == r@.map_values(|s: String| s@),
                x == items@[k as int]@,
                !rv.contains(x),
                forall|q: int| 0 <= q < p ==> key_lt(#[trigger] rv[q], x),
            decreases r.len() - p,
        {
            proof {
                assert(rv[p as int] == r@[p as int]@);
                assert(rv.contains(rv[p as int]));
                lemma_key_lt_total(x, rv[p as int]);
            }
            p = p + 1;
        }
        assert(p < rv.len() ==> key_lt(x, rv[p as int]));
        r.insert(p, items[k].clone());
        let ghost nv = r@.map_values(|s: String| s@);
        assert(nv =~= rv.insert(p as int, x));
        assert forall|i: int, j: int| 0 <= i < j < nv.len() implies key_lt(#[trigger] nv[i], #[trigger] nv[j]) by {
            if j < p {
            } else if j == p {
            } else if i < p {
                assert(nv[j] == rv[j - 1]);
                if j - 1 > p {
                    assert(key_lt(rv[p as int], rv[j - 1]));
                    lemma_key_lt_transitive(x, rv[p as int], rv[j - 1]);
                }
                lemma_key_lt_transitive(rv[i], x, rv[j - 1]);
            } else if i == p {
                if j - 1 > p {
                    assert(key_lt(rv[p as int], rv[j - 1]));
                    lemma_key_lt_transitive(x, rv[p as int], rv[j - 1]);
                }
            } else {
                assert(nv[i] == rv[i - 1] && nv[j] == rv[j - 1]);
            }
        }
        assert forall|y: Seq<char>| nv.contains(y) <==> ev.subrange(0, k + 1).contains(y) by {
            assert(ev.subrange(0, k + 1) =~= ev.subrange(0, k as int).push(x));
            let big = ev.subrange(0, k + 1);
            let small = ev.subrange(0, k as int);
            if nv.contains(y) {
                let q = choose|q: int| 0 <= q < nv.len() && nv[q] == y;
                if q == p {
                    assert(big[k as int] == y);
                } else {
                    if q < p {
                        assert(rv[q] == y);
                    } else {
                        assert(rv[q - 1] == y);
                    }
                    assert(rv.contains(y));
                    assert(small.contains(y));
                    let j = choose|j: int| 0 <= j < small.len() && small[j] == y;
                    assert(big[j] == y);
                }
                assert(big.contains(y));
            }
            if ev.subrange(0, k + 1).contains(y) {
                if y == x {
                    assert(nv[p as int] == x);
                } else {
                    assert(ev.subrange(0, k as int).contains(y));
                    assert(rv.contains(y));
                    let q = choose|q: int| 0 <= q < rv.len() && rv[q] == y;
                    if q < p {
                        assert(nv[q] == y);
                    } else {
                        assert(nv[q + 1] == y);
                    }
                }
            }
        }
        k = k + 1;
    }
    assert(ev.subrange(0, k as int) =~= ev);
    r
}

} // verus!
