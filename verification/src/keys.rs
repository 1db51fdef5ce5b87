//! Lists of keys or paths in key order, each text once.

use vstd::prelude::*;
use crate::text::key_lt;
use crate::text::lemma_key_lt_asymmetric;
use crate::text::lemma_key_lt_total;
use crate::text::lemma_key_lt_transitive;
use crate::text::str_eq;
use crate::text::str_lt;
use crate::text::string_views;

verus! {

/// Each text comes before the next in the key order.
pub open spec fn ascending(keys: Seq<Seq<char>>) -> bool {
    forall|i: int, j: int| 0 <= i < j < keys.len() ==> key_lt(#[trigger] keys[i], #[trigger] keys[j])
}

/// What is in `s` is still in it after `x` was added at its end, and so is `x`.
pub proof fn lemma_push_contains(s: Seq<Seq<char>>, x: Seq<char>)
    ensures
        s.push(x).contains(x),
        forall|z: Seq<char>| s.contains(z) ==> #[trigger] s.push(x).contains(z),
        forall|z: Seq<char>| #[trigger] s.push(x).contains(z) ==> s.contains(z) || z == x,
{
    assert(s.push(x)[s.len() as int] == x);
    assert forall|z: Seq<char>| s.contains(z) implies #[trigger] s.push(x).contains(z) by {
        let w = choose|w: int| 0 <= w < s.len() && s[w] == z;
        assert(s.push(x)[w] == z);
    }
    assert forall|z: Seq<char>| #[trigger] s.push(x).contains(z) implies s.contains(z) || z
        == x by {
        let w = choose|w: int| 0 <= w < s.push(x).len() && s.push(x)[w] == z;
        if w < s.len() {
            assert(s[w] == z);
        }
    }
}

/// Two lists in key order that hold the same texts are the same list.
pub proof fn lemma_ascending_unique(s: Seq<Seq<char>>, t: Seq<Seq<char>>)
    requires
        ascending(s),
        ascending(t),
        forall|k: Seq<char>| s.contains(k) <==> t.contains(k),
    ensures
        s == t,
    decreases s.len(),
{
    if s.len() == 0 {
        if t.len() > 0 {
            assert(t.contains(t[0]));
        }
        assert(s =~= t);
    } else if t.len() == 0 {
        assert(s.contains(s[0]));
    } else {
        let n = s.len() - 1;
        let m = t.len() - 1;
        assert(s.contains(s[n]));
        assert(t.contains(t[m]));
        let j = choose|j: int| 0 <= j < t.len() && t[j] == s[n];
        let i = choose|i: int| 0 <= i < s.len() && s[i] == t[m];
        if j < m && i < n {
            assert(key_lt(t[j], t[m]));
            assert(key_lt(s[i], s[n]));
            lemma_key_lt_asymmetric(t[j], t[m]);
        }
        assert(t[m] == s[n]);
        let s1 = s.drop_last();
        let t1 = t.drop_last();
        assert forall|k: Seq<char>| s1.contains(k) <==> t1.contains(k) by {
            if s1.contains(k) {
                let x = choose|x: int| 0 <= x < s1.len() && s1[x] == k;
                assert(s[x] == k);
                assert(s.contains(k));
                let y = choose|y: int| 0 <= y < t.len() && t[y] == k;
                assert(key_lt(s[x], s[n]));
                lemma_key_lt_asymmetric(s[x], s[n]);
                assert(t1[y] == k);
            }
            if t1.contains(k) {
                let y = choose|y: int| 0 <= y < t1.len() && t1[y] == k;
                assert(t[y] == k);
                assert(t.contains(k));
                let x = choose|x: int| 0 <= x < s.len() && s[x] == k;
                assert(key_lt(t[y], t[m]));
                lemma_key_lt_asymmetric(t[y], t[m]);
                assert(s1[x] == k);
            }
        }
        assert(ascending(s1)) by {
            assert forall|x: int, y: int| 0 <= x < y < s1.len() implies key_lt(
                #[trigger] s1[x],
                #[trigger] s1[y],
            ) by {
                assert(key_lt(s[x], s[y]));
            }
        }
        assert(ascending(t1)) by {
            assert forall|x: int, y: int| 0 <= x < y < t1.len() implies key_lt(
                #[trigger] t1[x],
                #[trigger] t1[y],
            ) by {
                assert(key_lt(t[x], t[y]));
            }
        }
        lemma_ascending_unique(s1, t1);
        assert(s =~= s1.push(s[n]));
        assert(t =~= t1.push(t[m]));
    }
}

/// A text put into a list in key order, behind what comes before it and
/// before what comes after it, leaves the list in key order, with the text
/// in it and nothing else new.
pub proof fn lemma_insert_in_place(keys: Seq<Seq<char>>, at: int, key: Seq<char>)
    requires
        ascending(keys),
        0 <= at <= keys.len(),
        forall|j: int| 0 <= j < at ==> key_lt(#[trigger] keys[j], key),
        forall|j: int| at <= j < keys.len() ==> key_lt(key, #[trigger] keys[j]),
    ensures
        ascending(keys.insert(at, key)),
        forall|k: Seq<char>| keys.insert(at, key).contains(k) <==> (keys.contains(k) || k == key),
{
    let after = keys.insert(at, key);
    assert forall|i: int, j: int| 0 <= i < j < after.len() implies key_lt(
        #[trigger] after[i],
        #[trigger] after[j],
    ) by {
        let bi = if i < at { i } else { i - 1 };
        let bj = if j < at { j } else { j - 1 };
        if i != at && j != at {
            assert(key_lt(keys[bi], keys[bj]));
        } else if i == at {
            assert(key_lt(key, keys[bj]));
        } else {
            assert(key_lt(keys[bi], key));
        }
    }
    assert forall|k: Seq<char>| after.contains(k) <==> (keys.contains(k) || k == key) by {
        if after.contains(k) {
            let i = choose|i: int| 0 <= i < after.len() && after[i] == k;
            if i != at {
                let bi = if i < at { i } else { i - 1 };
                assert(keys[bi] == k);
            }
        }
        if keys.contains(k) {
            let i = choose|i: int| 0 <= i < keys.len() && keys[i] == k;
            let ai = if i < at { i } else { i + 1 };
            assert(after[ai] == k);
        }
        if k == key {
            assert(after[at] == k);
        }
    }
}

/// A text that a list in key order does not hold has a place in it: what
/// stands before the place comes before the text, and the rest after it.
pub proof fn lemma_place(keys: Seq<Seq<char>>, key: Seq<char>) -> (at: int)
    requires
        ascending(keys),
        !keys.contains(key),
    ensures
        0 <= at <= keys.len(),
        forall|j: int| 0 <= j < at ==> key_lt(#[trigger] keys[j], key),
        forall|j: int| at <= j < keys.len() ==> key_lt(key, #[trigger] keys[j]),
    decreases keys.len(),
{
    if keys.len() == 0 {
        0
    } else {
        let n = keys.len() - 1;
        assert(keys.contains(keys[n]));
        lemma_key_lt_total(keys[n], key);
        if key_lt(keys[n], key) {
            assert forall|j: int| 0 <= j < keys.len() implies key_lt(#[trigger] keys[j], key) by {
                if j < n {
                    assert(key_lt(keys[j], keys[n]));
                    lemma_key_lt_transitive(keys[j], keys[n], key);
                }
            }
            keys.len() as int
        } else {
            let rest = keys.drop_last();
            assert(ascending(rest)) by {
                assert forall|x: int, y: int| 0 <= x < y < rest.len() implies key_lt(
                    #[trigger] rest[x],
                    #[trigger] rest[y],
                ) by {
                    assert(key_lt(keys[x], keys[y]));
                }
            }
            if rest.contains(key) {
                let w = choose|w: int| 0 <= w < rest.len() && rest[w] == key;
                assert(keys[w] == key);
            }
            let at = lemma_place(rest, key);
            assert forall|j: int| 0 <= j < at implies key_lt(#[trigger] keys[j], key) by {
                assert(key_lt(rest[j], key));
            }
            assert forall|j: int| at <= j < keys.len() implies key_lt(key, #[trigger] keys[j]) by {
                if j < n {
                    assert(key_lt(key, rest[j]));
                }
            }
            at
        }
    }
}

/// The texts of any list can be put in key order, each once.
pub proof fn lemma_key_order_exists(texts: Seq<Seq<char>>) -> (keys: Seq<Seq<char>>)
    ensures
        ascending(keys),
        forall|k: Seq<char>| keys.contains(k) <==> texts.contains(k),
    decreases texts.len(),
{
    if texts.len() == 0 {
        Seq::empty()
    } else {
        let rest = texts.drop_last();
        let x = texts.last();
        let before = lemma_key_order_exists(rest);
        assert(texts =~= rest.push(x));
        lemma_push_contains(rest, x);
        if before.contains(x) {
            before
        } else {
            let at = lemma_place(before, x);
            lemma_insert_in_place(before, at, x);
            before.insert(at, x)
        }
    }
}

/// Where `key` stands in a list in key order, or where it would have to
/// be put: the first result tells which.
pub fn find_key(keys: &Vec<String>, key: &str) -> (r: (bool, usize))
    requires
        ascending(string_views(keys@)),
    ensures
        r.1 <= keys@.len(),
        forall|j: int| 0 <= j < r.1 ==> key_lt(#[trigger] string_views(keys@)[j], key@),
        r.0 ==> r.1 < keys@.len() && keys@[r.1 as int]@ == key@,
        forall|j: int|
            r.1 + (if r.0 { 1int } else { 0int }) <= j < keys@.len() ==> key_lt(
                key@,
                #[trigger] string_views(keys@)[j],
            ),
        r.0 == string_views(keys@).contains(key@),
{
    let ghost texts = string_views(keys@);
    let mut lo: usize = 0;
    let mut hi: usize = keys.len();
    while lo < hi
        invariant
            lo <= hi <= keys@.len(),
            texts == string_views(keys@),
            ascending(texts),
            forall|j: int| 0 <= j < lo ==> key_lt(#[trigger] texts[j], key@),
            forall|j: int| hi <= j < texts.len() ==> key_lt(key@, #[trigger] texts[j]),
        decreases hi - lo,
    {
        let mid = lo + (hi - lo) / 2;
        let k = keys[mid].as_str();
        assert(k@ == texts[mid as int]);
        if str_eq(k, key) {
            proof {
                assert forall|j: int| 0 <= j < mid implies key_lt(#[trigger] texts[j], key@) by {
                    assert(key_lt(texts[j], texts[mid as int]));
                }
                assert forall|j: int| mid + 1 <= j < texts.len() implies key_lt(
                    key@,
                    #[trigger] texts[j],
                ) by {
                    assert(key_lt(texts[mid as int], texts[j]));
                }
                assert(texts[mid as int] == key@);
                assert(texts.contains(key@));
            }
            return (true, mid);
        } else if str_lt(k, key) {
            proof {
                assert forall|j: int| 0 <= j < mid + 1 implies key_lt(
                    #[trigger] texts[j],
                    key@,
                ) by {
                    if j < mid {
                        assert(key_lt(texts[j], texts[mid as int]));
                        lemma_key_lt_transitive(texts[j], k@, key@);
                    }
                }
            }
            lo = mid + 1;
        } else {
            proof {
                lemma_key_lt_total(k@, key@);
                assert forall|j: int| mid <= j < texts.len() implies key_lt(
                    key@,
                    #[trigger] texts[j],
                ) by {
                    if mid < j {
                        assert(key_lt(texts[mid as int], texts[j]));
                        lemma_key_lt_transitive(key@, k@, texts[j]);
                    }
                }
            }
            hi = mid;
        }
    }
    proof {
        if texts.contains(key@) {
            let i = choose|i: int| 0 <= i < texts.len() && texts[i] == key@;
            if i < lo {
                lemma_key_lt_asymmetric(texts[i], key@);
            } else {
                lemma_key_lt_asymmetric(key@, texts[i]);
            }
        }
    }
    (false, lo)
}

/// Puts `key` into a list in key order, unless the list has it already.
/// The result tells whether the key is new, and where it stands.
pub fn insert_key(keys: &mut Vec<String>, key: String) -> (r: (bool, usize))
    requires
        ascending(string_views(old(keys)@)),
    ensures
        ascending(string_views(final(keys)@)),
        r.0 == !string_views(old(keys)@).contains(key@),
        r.1 < final(keys)@.len(),
        r.1 <= old(keys)@.len(),
        final(keys)@.len() == old(keys)@.len() + (if r.0 { 1int } else { 0int }),
        string_views(final(keys)@)[r.1 as int] == key@,
        string_views(final(keys)@) == (if r.0 {
            string_views(old(keys)@).insert(r.1 as int, key@)
        } else {
            string_views(old(keys)@)
        }),
        forall|k: Seq<char>|
            string_views(final(keys)@).contains(k) <==> (string_views(old(keys)@).contains(k)
                || k == key@),
{
    let ghost before = string_views(keys@);
    let ghost text = key@;
    let (found, idx) = find_key(keys, key.as_str());
    if !found {
        keys.insert(idx, key);
    }
    proof {
        let after = string_views(keys@);
        if found {
            assert(after =~= before);
            assert(before[idx as int] == text);
        } else {
            assert(after =~= before.insert(idx as int, text));
            lemma_insert_in_place(before, idx as int, text);
        }
    }
    (!found, idx)
}

/// The keys of two lists in key order, each once, again in key order.
pub fn union_keys(a: &Vec<String>, b: &Vec<String>) -> (r: Vec<String>)
    requires
        ascending(string_views(a@)),
        ascending(string_views(b@)),
    ensures
        ascending(string_views(r@)),
        forall|k: Seq<char>|
            string_views(r@).contains(k) <==> (string_views(a@).contains(k) || string_views(
                b@,
            ).contains(k)),
{
    let ghost ka = string_views(a@);
    let ghost kb = string_views(b@);
    let mut r: Vec<String> = Vec::new();
    let mut i: usize = 0;
    let mut j: usize = 0;
    while i < a.len() || j < b.len()
        invariant
            i <= a@.len(),
            j <= b@.len(),
            ka == string_views(a@),
            kb == string_views(b@),
            ascending(ka),
            ascending(kb),
            ascending(string_views(r@)),
            forall|x: int, p: int|
                0 <= x < r@.len() && i <= p < ka.len() ==> key_lt(
                    #[trigger] string_views(r@)[x],
                    #[trigger] ka[p],
                ),
            forall|x: int, q: int|
                0 <= x < r@.len() && j <= q < kb.len() ==> key_lt(
                    #[trigger] string_views(r@)[x],
                    #[trigger] kb[q],
                ),
            forall|p: int| 0 <= p < i ==> string_views(r@).contains(#[trigger] ka[p]),
            forall|q: int| 0 <= q < j ==> string_views(r@).contains(#[trigger] kb[q]),
            forall|x: int|
                0 <= x < r@.len() ==> ka.contains(#[trigger] string_views(r@)[x]) || kb.contains(
                    string_views(r@)[x],
                ),
        decreases (a@.len() - i) + (b@.len() - j),
    {
        let ghost kr = string_views(r@);
        let take_a: bool;
        let take_b: bool;
        if j >= b.len() {
            take_a = true;
            take_b = false;
        } else if i >= a.len() {
            take_a = false;
            take_b = true;
        } else if str_eq(a[i].as_str(), b[j].as_str()) {
            take_a = true;
            take_b = true;
        } else if str_lt(a[i].as_str(), b[j].as_str()) {
            take_a = true;
            take_b = false;
        } else {
            proof {
                lemma_key_lt_total(ka[i as int], kb[j as int]);
            }
            take_a = false;
            take_b = true;
        }
        let next = if take_a { a[i].clone() } else { b[j].clone() };
        let ghost k = next@;
        proof {
            assert(take_a ==> k == ka[i as int]);
            assert(take_b ==> k == kb[j as int]);
            assert(take_a && !take_b && j < b@.len() ==> key_lt(k, kb[j as int]));
            assert(take_b && !take_a && i < a@.len() ==> key_lt(k, ka[i as int]));
        }
        r.push(next);
        proof {
            let kn = string_views(r@);
            assert(kn =~= kr.push(k));
            lemma_push_contains(kr, k);
            assert forall|x: int, y: int| 0 <= x < y < kn.len() implies key_lt(
                #[trigger] kn[x],
                #[trigger] kn[y],
            ) by {
                if y == kr.len() {
                    if take_a {
                        assert(key_lt(kr[x], ka[i as int]));
                    } else {
                        assert(key_lt(kr[x], kb[j as int]));
                    }
                } else {
                    assert(key_lt(kr[x], kr[y]));
                }
            }
            let ni: int = if take_a { i + 1 } else { i as int };
            let nj: int = if take_b { j + 1 } else { j as int };
            assert forall|x: int, p: int| 0 <= x < kn.len() && ni <= p < ka.len() implies key_lt(
                #[trigger] kn[x],
                #[trigger] ka[p],
            ) by {
                if x == kr.len() {
                    if take_a {
                        assert(key_lt(ka[i as int], ka[p]));
                    } else if i < p {
                        assert(key_lt(ka[i as int], ka[p]));
                        lemma_key_lt_transitive(k, ka[i as int], ka[p]);
                    }
                } else {
                    assert(key_lt(kr[x], ka[p]));
                }
            }
            assert forall|x: int, q: int| 0 <= x < kn.len() && nj <= q < kb.len() implies key_lt(
                #[trigger] kn[x],
                #[trigger] kb[q],
            ) by {
                if x == kr.len() {
                    if take_b {
                        assert(key_lt(kb[j as int], kb[q]));
                    } else if j < q {
                        assert(key_lt(kb[j as int], kb[q]));
                        lemma_key_lt_transitive(k, kb[j as int], kb[q]);
                    }
                } else {
                    assert(key_lt(kr[x], kb[q]));
                }
            }
            assert forall|p: int| 0 <= p < ni implies kn.contains(#[trigger] ka[p]) by {
                if p < i {
                    assert(kr.contains(ka[p]));
                }
            }
            assert forall|q: int| 0 <= q < nj implies kn.contains(#[trigger] kb[q]) by {
                if q < j {
                    assert(kr.contains(kb[q]));
                }
            }
            assert forall|x: int| 0 <= x < kn.len() implies ka.contains(#[trigger] kn[x])
                || kb.contains(kn[x]) by {
                if x == kr.len() {
                    if take_a {
                        assert(ka[i as int] == kn[x]);
                    } else {
                        assert(kb[j as int] == kn[x]);
                    }
                } else {
                    assert(kr[x] == kn[x]);
                }
            }
        }
        if take_a {
            i += 1;
        }
        if take_b {
            j += 1;
        }
    }
    proof {
        let kr = string_views(r@);
        assert forall|k: Seq<char>| kr.contains(k) <==> (ka.contains(k) || kb.contains(k)) by {
            if kr.contains(k) {
                let x = choose|x: int| 0 <= x < kr.len() && kr[x] == k;
                assert(ka.contains(kr[x]) || kb.contains(kr[x]));
            }
            if ka.contains(k) {
                let p = choose|p: int| 0 <= p < ka.len() && ka[p] == k;
                assert(kr.contains(ka[p]));
            }
            if kb.contains(k) {
                let q = choose|q: int| 0 <= q < kb.len() && kb[q] == k;
                assert(kr.contains(kb[q]));
            }
        }
    }
    r
}

/// Whether `key` is in a list in key order.
pub fn has_key(keys: &Vec<String>, key: &str) -> (r: bool)
    requires
        ascending(string_views(keys@)),
    ensures
        r == string_views(keys@).contains(key@),
{
    find_key(keys, key).0
}

} // verus!
