//! A list of key-value pairs with distinct keys, read as a map.
//!
//! The environment keeps its variables in such a list. What a list means
//! does not depend on the order of its pairs.

use vstd::prelude::*;

verus! {

/// A list of variables: name and value.
pub type Pairs = Seq<(Seq<char>, Seq<char>)>;

/// No key occurs twice.
pub open spec fn keys_distinct(s: Pairs) -> bool {
    forall|i: int, j: int| 0 <= i < j < s.len() ==> (#[trigger] s[i]).0 != (#[trigger] s[j]).0
}

/// Some pair has the key `k`.
pub open spec fn has_key(s: Pairs, k: Seq<char>) -> bool {
    exists|i: int| 0 <= i < s.len() && (#[trigger] s[i]).0 == k
}

/// The index of a pair with the key `k`.
pub open spec fn key_index(s: Pairs, k: Seq<char>) -> int {
    choose|i: int| 0 <= i < s.len() && (#[trigger] s[i]).0 == k
}

/// The map that a list of pairs stands for.
pub open spec fn assoc(s: Pairs) -> Map<Seq<char>, Seq<char>> {
    Map::new(|k: Seq<char>| has_key(s, k), |k: Seq<char>| s[key_index(s, k)].1)
}

/// The pair at an index is what the map holds for its key.
pub proof fn lemma_assoc_lookup(s: Pairs, i: int)
    requires
        keys_distinct(s),
        0 <= i < s.len(),
    ensures
        assoc(s).contains_key(s[i].0),
        assoc(s)[s[i].0] == s[i].1,
{
    let k = s[i].0;
    assert(has_key(s, k));
    let j = key_index(s, k);
    assert(0 <= j < s.len() && s[j].0 == k);
    if i < j {
        assert(s[i].0 != s[j].0);
    } else if j < i {
        assert(s[j].0 != s[i].0);
    }
}

/// A key that no pair has is not in the map.
pub proof fn lemma_assoc_absent(s: Pairs, k: Seq<char>)
    requires
        forall|i: int| 0 <= i < s.len() ==> (#[trigger] s[i]).0 != k,
    ensures
        !assoc(s).contains_key(k),
{
}

/// Adding a pair with a new key inserts it into the map.
pub proof fn lemma_assoc_push(s: Pairs, k: Seq<char>, v: Seq<char>)
    requires
        keys_distinct(s),
        !has_key(s, k),
    ensures
        keys_distinct(s.push((k, v))),
        assoc(s.push((k, v))) == assoc(s).insert(k, v),
{
    let t = s.push((k, v));
    assert forall|i: int, j: int| 0 <= i < j < t.len() implies (#[trigger] t[i]).0 != (
    #[trigger] t[j]).0 by {
        if j < s.len() {
            assert(s[i].0 != s[j].0);
        } else {
            assert(t[i] == s[i]);
        }
    }
    assert forall|q: Seq<char>| assoc(t).contains_key(q) <==> assoc(s).insert(
        k,
        v,
    ).contains_key(q) by {
        if has_key(t, q) {
            let i = key_index(t, q);
            if i < s.len() {
                assert(s[i].0 == q);
            }
        }
        if has_key(s, q) {
            let i = key_index(s, q);
            assert(t[i].0 == q);
        }
        if q == k {
            assert(t[s.len() as int].0 == q);
        }
    }
    assert forall|q: Seq<char>| assoc(t).contains_key(q) implies assoc(t)[q] == assoc(s).insert(
        k,
        v,
    )[q] by {
        let i = key_index(t, q);
        lemma_assoc_lookup(t, i);
        if i < s.len() {
            assert(t[i] == s[i]);
            lemma_assoc_lookup(s, i);
        }
    }
    assert(assoc(t) =~= assoc(s).insert(k, v));
}

/// Replacing the value of a pair inserts the new value into the map.
pub proof fn lemma_assoc_update(s: Pairs, i: int, v: Seq<char>)
    requires
        keys_distinct(s),
        0 <= i < s.len(),
    ensures
        keys_distinct(s.update(i, (s[i].0, v))),
        assoc(s.update(i, (s[i].0, v))) == assoc(s).insert(s[i].0, v),
{
    let k = s[i].0;
    let t = s.update(i, (k, v));
    assert forall|a: int, b: int| 0 <= a < b < t.len() implies (#[trigger] t[a]).0 != (
    #[trigger] t[b]).0 by {
        assert(t[a].0 == s[a].0);
        assert(t[b].0 == s[b].0);
        assert(s[a].0 != s[b].0);
    }
    assert forall|q: Seq<char>| assoc(t).contains_key(q) <==> assoc(s).insert(
        k,
        v,
    ).contains_key(q) by {
        if has_key(t, q) {
            let j = key_index(t, q);
            assert(s[j].0 == q);
        }
        if has_key(s, q) {
            let j = key_index(s, q);
            assert(t[j].0 == q);
        }
        if q == k {
            assert(t[i].0 == q);
        }
    }
    assert forall|q: Seq<char>| assoc(t).contains_key(q) implies assoc(t)[q] == assoc(s).insert(
        k,
        v,
    )[q] by {
        let j = key_index(t, q);
        lemma_assoc_lookup(t, j);
        if j != i {
            assert(t[j] == s[j]);
            lemma_assoc_lookup(s, j);
            if q == k {
                lemma_assoc_lookup(s, i);
                if i < j {
                    assert(s[i].0 != s[j].0);
                } else {
                    assert(s[j].0 != s[i].0);
                }
            }
        }
    }
    assert(assoc(t) =~= assoc(s).insert(k, v));
}

/// Taking a pair out removes its key from the map.
pub proof fn lemma_assoc_remove(s: Pairs, i: int)
    requires
        keys_distinct(s),
        0 <= i < s.len(),
    ensures
        keys_distinct(s.remove(i)),
        assoc(s.remove(i)) == assoc(s).remove(s[i].0),
{
    let k = s[i].0;
    let t = s.remove(i);
    assert forall|a: int| 0 <= a < t.len() implies #[trigger] t[a] == s[if a < i {
        a
    } else {
        a + 1
    }] by {}
    assert forall|a: int, b: int| 0 <= a < b < t.len() implies (#[trigger] t[a]).0 != (
    #[trigger] t[b]).0 by {
        let a2 = if a < i {
            a
        } else {
            a + 1
        };
        let b2 = if b < i {
            b
        } else {
            b + 1
        };
        assert(t[a] == s[a2]);
        assert(t[b] == s[b2]);
        assert(s[a2].0 != s[b2].0);
    }
    assert forall|q: Seq<char>| assoc(t).contains_key(q) <==> assoc(s).remove(k).contains_key(
        q,
    ) by {
        if has_key(t, q) {
            let j = key_index(t, q);
            let j2 = if j < i {
                j
            } else {
                j + 1
            };
            assert(t[j] == s[j2]);
            assert(s[j2].0 == q);
            if j2 < i {
                assert(s[j2].0 != s[i].0);
            } else {
                assert(s[i].0 != s[j2].0);
            }
        }
        if has_key(s, q) && q != k {
            let j = key_index(s, q);
            let j2 = if j < i {
                j
            } else {
                j - 1
            };
            assert(t[j2] == s[j]);
            assert(t[j2].0 == q);
        }
    }
    assert forall|q: Seq<char>| assoc(t).contains_key(q) implies assoc(t)[q] == assoc(s).remove(
        k,
    )[q] by {
        let j = key_index(t, q);
        let j2 = if j < i {
            j
        } else {
            j + 1
        };
        lemma_assoc_lookup(t, j);
        assert(t[j] == s[j2]);
        lemma_assoc_lookup(s, j2);
    }
    assert(assoc(t) =~= assoc(s).remove(k));
}

} // verus!
