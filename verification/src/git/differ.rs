//! The key-level difference of two flat configuration maps.

use vstd::prelude::*;
use crate::flat::FlatConfigMap;
use crate::keys::ascending;
use crate::keys::union_keys;
use crate::git::models::KeyChange;
use crate::git::models::KeyChangeKind;
use crate::git::models::KeyChangeView;
use crate::text::key_lt;
use crate::text::lemma_key_lt_asymmetric;
use crate::text::str_eq;
use crate::text::string_views;

verus! {

/// How key `k` differs between `old` and `new`, if it does.
pub open spec fn change_at(
    old: Map<Seq<char>, Seq<char>>,
    new: Map<Seq<char>, Seq<char>>,
    k: Seq<char>,
) -> Option<KeyChangeView> {
    if old.contains_key(k) && new.contains_key(k) {
        if old[k] == new[k] {
            None
        } else {
            Some(
                KeyChangeView {
                    key: k,
                    kind: KeyChangeKind::Changed,
                    old_value: Some(old[k]),
                    new_value: Some(new[k]),
                },
            )
        }
    } else if old.contains_key(k) {
        Some(
            KeyChangeView {
                key: k,
                kind: KeyChangeKind::Removed,
                old_value: Some(old[k]),
                new_value: None,
            },
        )
    } else if new.contains_key(k) {
        Some(
            KeyChangeView {
                key: k,
                kind: KeyChangeKind::Added,
                old_value: None,
                new_value: Some(new[k]),
            },
        )
    } else {
        None
    }
}

/// The changes are listed in the order of their keys, each key once.
pub open spec fn changes_ascend(changes: Seq<KeyChangeView>) -> bool {
    forall|i: int, j: int|
        0 <= i < j < changes.len() ==> key_lt(
            (#[trigger] changes[i]).key,
            (#[trigger] changes[j]).key,
        )
}

/// Some entry of `changes` is about key `k`.
pub open spec fn lists_key(changes: Seq<KeyChangeView>, k: Seq<char>) -> bool {
    exists|i: int| 0 <= i < changes.len() && (#[trigger] changes[i]).key == k
}

/// `changes` is the difference from `old` to `new`: one entry for each key
/// that was added, removed or changed, and no other, in key order.
pub open spec fn is_diff(
    old: Map<Seq<char>, Seq<char>>,
    new: Map<Seq<char>, Seq<char>>,
    changes: Seq<KeyChangeView>,
) -> bool {
    &&& changes_ascend(changes)
    &&& forall|i: int|
        0 <= i < changes.len() ==> change_at(old, new, (#[trigger] changes[i]).key) == Some(
            changes[i],
        )
    &&& forall|k: Seq<char>| (#[trigger] change_at(old, new, k)) is Some ==> lists_key(changes, k)
}

/// The same change seen from the other side: added and removed trade
/// places, and so do the old and the new value.
pub open spec fn mirror(c: KeyChangeView) -> KeyChangeView {
    KeyChangeView {
        key: c.key,
        kind: match c.kind {
            KeyChangeKind::Added => KeyChangeKind::Removed,
            KeyChangeKind::Removed => KeyChangeKind::Added,
            KeyChangeKind::Changed => KeyChangeKind::Changed,
        },
        old_value: c.new_value,
        new_value: c.old_value,
    }
}

/// Compares two flat maps key by key.
pub fn diff_config_maps(old: &FlatConfigMap, new: &FlatConfigMap) -> (changes: Vec<KeyChange>)
    ensures
        is_diff(old@, new@, changes.deep_view()),
{
    let old_keys = old.keys();
    let new_keys = new.keys();
    let all_keys = union_keys(&old_keys, &new_keys);
    let ghost keys = string_views(all_keys@);
    let mut changes: Vec<KeyChange> = Vec::new();
    let mut n: usize = 0;
    while n < all_keys.len()
        invariant
            n <= all_keys@.len(),
            keys == string_views(all_keys@),
            ascending(keys),
            changes_ascend(changes.deep_view()),
            forall|x: int, m: int|
                0 <= x < changes@.len() && n <= m < keys.len() ==> key_lt(
                    (#[trigger] changes.deep_view()[x]).key,
                    #[trigger] keys[m],
                ),
            forall|x: int|
                0 <= x < changes@.len() ==> change_at(
                    old@,
                    new@,
                    (#[trigger] changes.deep_view()[x]).key,
                ) == Some(changes.deep_view()[x]),
            forall|m: int|
                0 <= m < n && change_at(old@, new@, #[trigger] keys[m]) is Some ==> exists|x: int|
                    0 <= x < changes@.len() && (#[trigger] changes.deep_view()[x]).key == keys[m],
        decreases all_keys@.len() - n,
    {
        let key = &all_keys[n];
        let ghost before = changes.deep_view();
        let ghost k = keys[n as int];
        assert(key@ == k);
        let found: Option<KeyChange> = match (old.get(key.as_str()), new.get(key.as_str())) {
            (None, Some(new_val)) => Some(
                KeyChange {
                    key: key.clone(),
                    kind: KeyChangeKind::Added,
                    old_value: None,
                    new_value: Some(new_val.clone()),
                },
            ),
            (Some(old_val), None) => Some(
                KeyChange {
                    key: key.clone(),
                    kind: KeyChangeKind::Removed,
                    old_value: Some(old_val.clone()),
                    new_value: None,
                },
            ),
            (Some(old_val), Some(new_val)) => {
                if !str_eq(old_val.as_str(), new_val.as_str()) {
                    Some(
                        KeyChange {
                            key: key.clone(),
                            kind: KeyChangeKind::Changed,
                            old_value: Some(old_val.clone()),
                            new_value: Some(new_val.clone()),
                        },
                    )
                } else {
                    None
                }
            },
            (None, None) => None,
        };
        assert(match found {
            Some(c) => change_at(old@, new@, k) == Some(c@),
            None => change_at(old@, new@, k) is None,
        });
        if let Some(c) = found {
            let ghost cv = c@;
            changes.push(c);
            proof {
                let after = changes.deep_view();
                assert(after =~= before.push(cv));
                assert forall|x: int, y: int| 0 <= x < y < after.len() implies key_lt(
                    (#[trigger] after[x]).key,
                    (#[trigger] after[y]).key,
                ) by {
                    if y == before.len() {
                        assert(key_lt(before[x].key, keys[n as int]));
                    } else {
                        assert(key_lt(before[x].key, before[y].key));
                    }
                }
                assert forall|x: int, m: int|
                    0 <= x < after.len() && n + 1 <= m < keys.len() implies key_lt(
                    (#[trigger] after[x]).key,
                    #[trigger] keys[m],
                ) by {
                    if x == before.len() {
                        assert(key_lt(keys[n as int], keys[m]));
                    } else {
                        assert(key_lt(before[x].key, keys[m]));
                    }
                }
                assert forall|x: int| 0 <= x < after.len() implies change_at(
                    old@,
                    new@,
                    (#[trigger] after[x]).key,
                ) == Some(after[x]) by {
                    if x < before.len() {
                        assert(after[x] == before[x]);
                    }
                }
                assert forall|m: int|
                    0 <= m < n + 1 && change_at(
                        old@,
                        new@,
                        #[trigger] keys[m],
                    ) is Some implies exists|x: int|
                    0 <= x < after.len() && (#[trigger] after[x]).key == keys[m] by {
                    if m < n {
                        let x = choose|x: int|
                            0 <= x < before.len() && (#[trigger] before[x]).key == keys[m];
                        assert(after[x].key == keys[m]);
                    } else {
                        assert(after[before.len() as int].key == keys[m]);
                    }
                }
            }
        }
        n += 1;
    }
    proof {
        let cv = changes.deep_view();
        assert forall|k: Seq<char>| (#[trigger] change_at(old@, new@, k)) is Some implies exists|
            i: int,
        |
            0 <= i < cv.len() && (#[trigger] cv[i]).key == k by {
            assert(old@.contains_key(k) || new@.contains_key(k));
            assert(keys.contains(k));
            let m = choose|m: int| 0 <= m < keys.len() && keys[m] == k;
            assert(change_at(old@, new@, keys[m]) is Some);
        }
    }
    changes
}

/// What a change holds goes with its kind: an added key has a new value
/// only, a removed key an old value only, and a changed key both, which
/// differ.
pub proof fn lemma_change_shape(
    old: Map<Seq<char>, Seq<char>>,
    new: Map<Seq<char>, Seq<char>>,
    k: Seq<char>,
)
    ensures
        match change_at(old, new, k) {
            Some(c) => c.key == k && match c.kind {
                KeyChangeKind::Added => c.old_value is None && c.new_value is Some,
                KeyChangeKind::Removed => c.old_value is Some && c.new_value is None,
                KeyChangeKind::Changed => c.old_value is Some && c.new_value is Some
                    && c.old_value != c.new_value,
            },
            None => true,
        },
{
}

/// A map does not differ from itself.
pub proof fn lemma_diff_of_same_map_is_empty(
    a: Map<Seq<char>, Seq<char>>,
    changes: Seq<KeyChangeView>,
)
    requires
        is_diff(a, a, changes),
    ensures
        changes.len() == 0,
{
    if changes.len() > 0 {
        assert(change_at(a, a, changes[0].key) == Some(changes[0]));
    }
}

/// Two lists of changes in key order that are about the same keys have
/// the same keys at the same places.
proof fn lemma_same_keys_same_places(s: Seq<KeyChangeView>, t: Seq<KeyChangeView>)
    requires
        changes_ascend(s),
        changes_ascend(t),
        forall|i: int| 0 <= i < s.len() ==> lists_key(t, (#[trigger] s[i]).key),
        forall|j: int| 0 <= j < t.len() ==> lists_key(s, (#[trigger] t[j]).key),
    ensures
        s.len() == t.len(),
        forall|i: int| 0 <= i < s.len() ==> (#[trigger] s[i]).key == t[i].key,
    decreases s.len(),
{
    if s.len() == 0 {
        if t.len() > 0 {
            assert(lists_key(s, t[0].key));
        }
    } else if t.len() == 0 {
        assert(lists_key(t, s[0].key));
    } else {
        let n = s.len() - 1;
        let m = t.len() - 1;
        assert(lists_key(t, s[n].key));
        let j = choose|j: int| 0 <= j < t.len() && (#[trigger] t[j]).key == s[n].key;
        assert(lists_key(s, t[m].key));
        let i = choose|i: int| 0 <= i < s.len() && (#[trigger] s[i]).key == t[m].key;
        if j < m && i < n {
            assert(key_lt(t[j].key, t[m].key));
            assert(key_lt(s[i].key, s[n].key));
            lemma_key_lt_asymmetric(t[j].key, t[m].key);
        }
        assert(t[m].key == s[n].key);
        let s1 = s.drop_last();
        let t1 = t.drop_last();
        assert forall|x: int| 0 <= x < s1.len() implies lists_key(t1, (#[trigger] s1[x]).key) by {
            assert(s1[x] == s[x]);
            assert(lists_key(t, s[x].key));
            let y = choose|y: int| 0 <= y < t.len() && (#[trigger] t[y]).key == s[x].key;
            assert(key_lt(s[x].key, s[n].key));
            lemma_key_lt_asymmetric(s[x].key, s[n].key);
            assert(t1[y].key == s1[x].key);
        }
        assert forall|y: int| 0 <= y < t1.len() implies lists_key(s1, (#[trigger] t1[y]).key) by {
            assert(t1[y] == t[y]);
            assert(lists_key(s, t[y].key));
            let x = choose|x: int| 0 <= x < s.len() && (#[trigger] s[x]).key == t[y].key;
            assert(key_lt(t[y].key, t[m].key));
            lemma_key_lt_asymmetric(t[y].key, t[m].key);
            assert(s1[x].key == t1[y].key);
        }
        assert(changes_ascend(s1)) by {
            assert forall|x: int, y: int| 0 <= x < y < s1.len() implies key_lt(
                (#[trigger] s1[x]).key,
                (#[trigger] s1[y]).key,
            ) by {
                assert(key_lt(s[x].key, s[y].key));
            }
        }
        assert(changes_ascend(t1)) by {
            assert forall|x: int, y: int| 0 <= x < y < t1.len() implies key_lt(
                (#[trigger] t1[x]).key,
                (#[trigger] t1[y]).key,
            ) by {
                assert(key_lt(t[x].key, t[y].key));
            }
        }
        lemma_same_keys_same_places(s1, t1);
        assert forall|x: int| 0 <= x < s.len() implies (#[trigger] s[x]).key == t[x].key by {
            if x < n {
                assert(s1[x].key == t1[x].key);
            }
        }
    }
}

/// Two maps have one difference only: whatever lists it is the same list.
pub proof fn lemma_diff_is_unique(
    a: Map<Seq<char>, Seq<char>>,
    b: Map<Seq<char>, Seq<char>>,
    first: Seq<KeyChangeView>,
    second: Seq<KeyChangeView>,
)
    requires
        is_diff(a, b, first),
        is_diff(a, b, second),
    ensures
        first == second,
{
    assert forall|i: int| 0 <= i < first.len() implies lists_key(
        second,
        (#[trigger] first[i]).key,
    ) by {
        assert(change_at(a, b, first[i].key) is Some);
    }
    assert forall|j: int| 0 <= j < second.len() implies lists_key(
        first,
        (#[trigger] second[j]).key,
    ) by {
        assert(change_at(a, b, second[j].key) is Some);
    }
    lemma_same_keys_same_places(first, second);
    assert forall|i: int| 0 <= i < first.len() implies first[i] == second[i] by {
        assert(change_at(a, b, first[i].key) == Some(first[i]));
        assert(change_at(a, b, second[i].key) == Some(second[i]));
    }
    assert(first =~= second);
}

/// The difference from `a` to `b`.
pub open spec fn diff_of(
    a: Map<Seq<char>, Seq<char>>,
    b: Map<Seq<char>, Seq<char>>,
) -> Seq<KeyChangeView> {
    choose|changes: Seq<KeyChangeView>| is_diff(a, b, changes)
}

/// A list that is the difference from `a` to `b` is `diff_of(a, b)`.
pub proof fn lemma_diff_of(
    a: Map<Seq<char>, Seq<char>>,
    b: Map<Seq<char>, Seq<char>>,
    changes: Seq<KeyChangeView>,
)
    requires
        is_diff(a, b, changes),
    ensures
        diff_of(a, b) == changes,
{
    lemma_diff_is_unique(a, b, diff_of(a, b), changes);
}

/// The difference from `b` to `a` is the difference from `a` to `b` with
/// each entry mirrored: as many entries, under the same keys, with added
/// and removed, old and new exchanged.
pub proof fn lemma_diff_mirrors(
    a: Map<Seq<char>, Seq<char>>,
    b: Map<Seq<char>, Seq<char>>,
    forth: Seq<KeyChangeView>,
    back: Seq<KeyChangeView>,
)
    requires
        is_diff(a, b, forth),
        is_diff(b, a, back),
    ensures
        back.len() == forth.len(),
        forall|i: int| 0 <= i < forth.len() ==> back[i] == mirror(#[trigger] forth[i]),
{
    assert forall|i: int| 0 <= i < forth.len() implies lists_key(
        back,
        (#[trigger] forth[i]).key,
    ) by {
        assert(change_at(a, b, forth[i].key) is Some);
        assert(change_at(b, a, forth[i].key) is Some);
    }
    assert forall|j: int| 0 <= j < back.len() implies lists_key(
        forth,
        (#[trigger] back[j]).key,
    ) by {
        assert(change_at(b, a, back[j].key) is Some);
        assert(change_at(a, b, back[j].key) is Some);
    }
    lemma_same_keys_same_places(forth, back);
    assert forall|i: int| 0 <= i < forth.len() implies back[i] == mirror(
        #[trigger] forth[i],
    ) by {
        assert(change_at(a, b, forth[i].key) == Some(forth[i]));
        assert(change_at(b, a, back[i].key) == Some(back[i]));
    }
}

} // verus!
