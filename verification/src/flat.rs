//! The flat form of a configuration document: a map from key paths to
//! values, both text.

use vstd::prelude::*;
use crate::keys::ascending;
use crate::keys::find_key;
use crate::keys::insert_key;
use crate::text::chars_of;
use crate::text::chars_start_with;
use crate::text::key_lt;
use crate::text::lemma_key_lt_asymmetric;
use crate::text::string_views;

verus! {

/// A path and the text of the leaf found under it.
pub type Pair = (Seq<char>, Seq<char>);

/// The map that results from writing `pairs` into `m` one after another:
/// where a path occurs twice, the later value stays.
pub open spec fn insert_all(m: Map<Seq<char>, Seq<char>>, pairs: Seq<Pair>) -> Map<
    Seq<char>,
    Seq<char>,
>
    decreases pairs.len(),
{
    if pairs.len() == 0 {
        m
    } else {
        insert_all(m, pairs.drop_last()).insert(pairs.last().0, pairs.last().1)
    }
}

/// Some key of `m` starts with `prefix`.
pub open spec fn has_key_under(m: Map<Seq<char>, Seq<char>>, prefix: Seq<char>) -> bool {
    exists|k: Seq<char>| #[trigger] m.contains_key(k) && prefix.is_prefix_of(k)
}

/// A flat configuration map. Each key occurs once; the keys are kept in
/// key order, each with its value at the same place.
#[derive(Debug)]
pub struct FlatConfigMap {
    keys: Vec<String>,
    values: Vec<String>,
}

spec fn pairs_of(keys: Seq<String>, values: Seq<String>) -> Seq<Pair> {
    Seq::new(keys.len(), |i: int| (keys[i]@, values[i]@))
}

spec fn pairs_ascend(pairs: Seq<Pair>) -> bool {
    forall|i: int, j: int|
        0 <= i < j < pairs.len() ==> key_lt((#[trigger] pairs[i]).0, (#[trigger] pairs[j]).0)
}

spec fn key_at(pairs: Seq<Pair>, i: int, k: Seq<char>) -> bool {
    0 <= i < pairs.len() && pairs[i].0 == k
}

/// What `insert_all` makes of entries in key order: the keys are those of
/// the entries, and each has its entry's value.
proof fn lemma_ascending_pairs(pairs: Seq<Pair>)
    requires
        pairs_ascend(pairs),
    ensures
        forall|i: int|
            0 <= i < pairs.len() ==> {
                &&& insert_all(Map::empty(), pairs).contains_key((#[trigger] pairs[i]).0)
                &&& insert_all(Map::empty(), pairs)[pairs[i].0] == pairs[i].1
            },
        forall|k: Seq<char>| #[trigger]
            insert_all(Map::empty(), pairs).contains_key(k) ==> exists|i: int|
                #[trigger] key_at(pairs, i, k),
    decreases pairs.len(),
{
    let m = insert_all(Map::empty(), pairs);
    if pairs.len() > 0 {
        let front = pairs.drop_last();
        let n = pairs.len() - 1;
        assert forall|i: int, j: int| 0 <= i < j < front.len() implies key_lt(
            (#[trigger] front[i]).0,
            (#[trigger] front[j]).0,
        ) by {
            assert(key_lt(pairs[i].0, pairs[j].0));
        }
        lemma_ascending_pairs(front);
        let fm = insert_all(Map::empty(), front);
        assert(m == fm.insert(pairs[n].0, pairs[n].1));
        assert forall|i: int| 0 <= i < pairs.len() implies {
            &&& m.contains_key((#[trigger] pairs[i]).0)
            &&& m[pairs[i].0] == pairs[i].1
        } by {
            if i < n {
                assert(key_lt(pairs[i].0, pairs[n].0));
                lemma_key_lt_asymmetric(pairs[i].0, pairs[n].0);
                assert(front[i] == pairs[i]);
            }
        }
        assert forall|k: Seq<char>| #[trigger] m.contains_key(k) implies exists|i: int|
            #[trigger] key_at(pairs, i, k) by {
            if k == pairs[n].0 {
                assert(key_at(pairs, n, k));
            } else {
                assert(fm.contains_key(k));
                let i = choose|i: int| #[trigger] key_at(front, i, k);
                assert(key_at(pairs, i, k));
            }
        }
    }
}

impl View for FlatConfigMap {
    type V = Map<Seq<char>, Seq<char>>;

    closed spec fn view(&self) -> Map<Seq<char>, Seq<char>> {
        insert_all(Map::empty(), self.pairs())
    }
}

impl FlatConfigMap {
    /// The entries in key order.
    pub closed spec fn pairs(&self) -> Seq<Pair> {
        pairs_of(self.keys@, self.values@)
    }

    #[verifier::type_invariant]
    spec fn well_formed(&self) -> bool {
        self.keys@.len() == self.values@.len() && ascending(string_views(self.keys@))
    }

    proof fn lemma_pairs(&self)
        requires
            self.well_formed(),
        ensures
            pairs_ascend(self.pairs()),
            self.pairs().len() == self.keys@.len(),
            forall|i: int|
                0 <= i < self.keys@.len() ==> {
                    &&& self@.contains_key(#[trigger] string_views(self.keys@)[i])
                    &&& self@[string_views(self.keys@)[i]] == self.values@[i]@
                },
            forall|k: Seq<char>| self@.contains_key(k) <==> string_views(self.keys@).contains(k),
    {
        let pairs = self.pairs();
        let texts = string_views(self.keys@);
        assert forall|i: int, j: int| 0 <= i < j < pairs.len() implies key_lt(
            (#[trigger] pairs[i]).0,
            (#[trigger] pairs[j]).0,
        ) by {
            assert(key_lt(texts[i], texts[j]));
        }
        lemma_ascending_pairs(pairs);
        assert forall|i: int| 0 <= i < self.keys@.len() implies {
            &&& self@.contains_key(#[trigger] texts[i])
            &&& self@[texts[i]] == self.values@[i]@
        } by {
            assert(pairs[i].0 == texts[i]);
        }
        assert forall|k: Seq<char>| self@.contains_key(k) <==> texts.contains(k) by {
            if self@.contains_key(k) {
                let i = choose|i: int| #[trigger] key_at(pairs, i, k);
                assert(texts[i] == k);
            }
            if texts.contains(k) {
                let i = choose|i: int| 0 <= i < texts.len() && texts[i] == k;
                assert(self@.contains_key(texts[i]));
            }
        }
    }

    /// The map without entries.
    pub fn new() -> (m: Self)
        ensures
            m@ == Map::<Seq<char>, Seq<char>>::empty(),
    {
        let m = FlatConfigMap { keys: Vec::new(), values: Vec::new() };
        assert(m.pairs().len() == 0);
        m
    }

    /// The value under `key`, if the map has that key.
    pub fn get(&self, key: &str) -> (r: Option<&String>)
        ensures
            match r {
                Some(v) => self@.contains_key(key@) && v@ == self@[key@],
                None => !self@.contains_key(key@),
            },
    {
        proof {
            use_type_invariant(self);
            self.lemma_pairs();
        }
        let (found, idx) = find_key(&self.keys, key);
        if found {
            assert(string_views(self.keys@)[idx as int] == key@);
            Some(&self.values[idx])
        } else {
            None
        }
    }

    /// Whether the map has `key`.
    pub fn contains_key(&self, key: &str) -> (r: bool)
        ensures
            r == self@.contains_key(key@),
    {
        self.get(key).is_some()
    }

    /// Whether the map has no entries.
    pub fn is_empty(&self) -> (r: bool)
        ensures
            r == (self@ == Map::<Seq<char>, Seq<char>>::empty()),
    {
        proof {
            use_type_invariant(self);
            self.lemma_pairs();
            if self.keys@.len() > 0 {
                assert(self@.contains_key(string_views(self.keys@)[0]));
            } else {
                assert(self@ =~= Map::<Seq<char>, Seq<char>>::empty());
            }
        }
        self.keys.len() == 0
    }

    /// Puts `value` under `key`; a value that stood there is replaced.
    pub fn insert(&mut self, key: String, value: String)
        ensures
            final(self)@ == old(self)@.insert(key@, value@),
    {
        let ghost kt = key@;
        let ghost vt = value@;
        let mut taken = FlatConfigMap { keys: Vec::new(), values: Vec::new() };
        std::mem::swap(self, &mut taken);
        let ghost before = taken;
        proof {
            use_type_invariant(&taken);
            before.lemma_pairs();
            assert(before == *old(self));
        }
        let FlatConfigMap { keys, values } = taken;
        let mut keys = keys;
        let mut values = values;
        let (fresh, idx) = insert_key(&mut keys, key);
        if !fresh {
            let _ = values.remove(idx);
        }
        values.insert(idx, value);
        let after = FlatConfigMap { keys, values };
        proof {
            after.lemma_pairs();
            let goal = before@.insert(kt, vt);
            let tb = string_views(before.keys@);
            let ta = string_views(after.keys@);
            let shift: int = if fresh { 1 } else { 0 };
            assert forall|i: int| 0 <= i < ta.len() && i != idx implies ta[i] == tb[if i
                < idx { i } else { i - shift }] && after.values@[i] == before.values@[if i
                < idx { i } else { i - shift }] by {}
            assert forall|k: Seq<char>| after@.contains_key(k) <==> goal.contains_key(k) by {}
            assert forall|k: Seq<char>| after@.contains_key(k) implies after@[k] == goal[k] by {
                let i = choose|i: int| 0 <= i < ta.len() && ta[i] == k;
                assert(after@[ta[i]] == after.values@[i]@);
                if i != idx {
                    let bi = if i < idx { i } else { i - shift };
                    assert(tb[bi] == k);
                    assert(before@[tb[bi]] == before.values@[bi]@);
                    if fresh {
                        assert(!tb.contains(kt));
                    } else {
                        if i < idx {
                            assert(key_lt(ta[i], ta[idx as int]));
                            lemma_key_lt_asymmetric(ta[i], ta[idx as int]);
                        } else {
                            assert(key_lt(ta[idx as int], ta[i]));
                            lemma_key_lt_asymmetric(ta[idx as int], ta[i]);
                        }
                    }
                }
            }
            assert(after@ =~= goal);
        }
        *self = after;
    }

    /// The keys of the map, each once, in key order.
    pub fn keys(&self) -> (r: Vec<String>)
        ensures
            ascending(string_views(r@)),
            forall|k: Seq<char>| self@.contains_key(k) <==> string_views(r@).contains(k),
    {
        proof {
            use_type_invariant(self);
            self.lemma_pairs();
        }
        let mut r: Vec<String> = Vec::new();
        let mut i: usize = 0;
        while i < self.keys.len()
            invariant
                i <= self.keys@.len(),
                r@.len() == i,
                forall|j: int| 0 <= j < i ==> (#[trigger] r@[j])@ == self.keys@[j]@,
            decreases self.keys@.len() - i,
        {
            r.push(self.keys[i].clone());
            i += 1;
        }
        proof {
            assert(string_views(r@) =~= string_views(self.keys@));
        }
        r
    }

    /// Whether some key of the map starts with `prefix`.
    pub fn has_key_with_prefix(&self, prefix: &str) -> (r: bool)
        ensures
            r == has_key_under(self@, prefix@),
    {
        proof {
            use_type_invariant(self);
            self.lemma_pairs();
        }
        let p = chars_of(prefix);
        let ghost texts = string_views(self.keys@);
        let mut i: usize = 0;
        while i < self.keys.len()
            invariant
                i <= self.keys@.len(),
                p@ == prefix@,
                texts == string_views(self.keys@),
                forall|j: int| 0 <= j < i ==> !prefix@.is_prefix_of(#[trigger] texts[j]),
                forall|j: int| 0 <= j < texts.len() ==> self@.contains_key(#[trigger] texts[j]),
            decreases self.keys@.len() - i,
        {
            let k = chars_of(self.keys[i].as_str());
            assert(k@ == texts[i as int]);
            if chars_start_with(&k, &p) {
                return true;
            }
            i += 1;
        }
        proof {
            if has_key_under(self@, prefix@) {
                let k = choose|k: Seq<char>| #[trigger]
                    self@.contains_key(k) && prefix@.is_prefix_of(k);
                assert(texts.contains(k));
                let j = choose|j: int| 0 <= j < texts.len() && texts[j] == k;
                assert(!prefix@.is_prefix_of(texts[j]));
            }
        }
        false
    }
}

} // verus!
