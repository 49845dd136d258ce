//! Lists of `(name, value)` pairs kept in increasing order of name, read as
//! finite maps: the form a `BTreeMap` keyed by text takes here.
use vstd::prelude::*;
use crate::pricing::{lemma_text_lt_asymmetric, lemma_text_lt_total, lemma_text_lt_transitive, text_less, text_lt};

verus! {

broadcast use vstd::string::group_string_axioms;

/// Names strictly increase along the list.
pub open spec fn keys_ascending<V>(v: Seq<(String, V)>) -> bool {
    forall|i: int, j: int| 0 <= i < j < v.len() ==> text_lt(#[trigger] v[i].0@, #[trigger] v[j].0@)
}

pub open spec fn has_key<V>(v: Seq<(String, V)>, k: Seq<char>) -> bool {
    exists|i: int| 0 <= i < v.len() && (#[trigger] v[i]).0@ == k
}

pub open spec fn value_at<V>(v: Seq<(String, V)>, k: Seq<char>) -> V {
    v[choose|i: int| 0 <= i < v.len() && (#[trigger] v[i]).0@ == k].1
}

/// The map a list stands for.
pub open spec fn assoc_view<V>(v: Seq<(String, V)>) -> Map<Seq<char>, V> {
    Map::new(|k: Seq<char>| has_key(v, k), |k: Seq<char>| value_at(v, k))
}

/// In an ascending list a name occurs once.
pub proof fn lemma_key_unique<V>(v: Seq<(String, V)>, a: int, b: int)
    requires
        keys_ascending(v),
        0 <= a < v.len(),
        0 <= b < v.len(),
        v[a].0@ == v[b].0@,
    ensures
        a == b,
{
    if a < b {
        assert(text_lt(v[a].0@, v[b].0@));
        lemma_text_lt_asymmetric(v[a].0@, v[a].0@);
    } else if b < a {
        assert(text_lt(v[b].0@, v[a].0@));
        lemma_text_lt_asymmetric(v[b].0@, v[b].0@);
    }
}

/// The value stored at position `i` is the value of its name.
pub proof fn lemma_value_at<V>(v: Seq<(String, V)>, i: int)
    requires
        keys_ascending(v),
        0 <= i < v.len(),
    ensures
        has_key(v, v[i].0@),
        value_at(v, v[i].0@) == v[i].1,
        assoc_view(v).contains_key(v[i].0@),
        assoc_view(v)[v[i].0@] == v[i].1,
{
    assert(v[i].0@ == v[i].0@);
    let j = choose|j: int| 0 <= j < v.len() && (#[trigger] v[j]).0@ == v[i].0@;
    lemma_key_unique(v, i, j);
}

/// Replacing the value at a position keeps the names and sets that name's value.
pub proof fn lemma_assoc_set<V>(v: Seq<(String, V)>, i: int, value: V)
    requires
        keys_ascending(v),
        0 <= i < v.len(),
    ensures
        keys_ascending(v.update(i, (v[i].0, value))),
        assoc_view(v.update(i, (v[i].0, value))) == assoc_view(v).insert(v[i].0@, value),
{
    let w = v.update(i, (v[i].0, value));
    assert(keys_ascending(w)) by {
        assert forall|a: int, b: int| 0 <= a < b < w.len() implies text_lt(#[trigger] w[a].0@, #[trigger] w[b].0@) by {
            assert(w[a].0 == v[a].0 && w[b].0 == v[b].0);
        }
    }
    assert forall|k: Seq<char>| #[trigger] assoc_view(w).contains_key(k) <==> assoc_view(v).insert(v[i].0@, value).contains_key(k) by {
        if has_key(v, k) {
            let j = choose|j: int| 0 <= j < v.len() && (#[trigger] v[j]).0@ == k;
            assert(w[j].0 == v[j].0);
        }
        if has_key(w, k) {
            let j = choose|j: int| 0 <= j < w.len() && (#[trigger] w[j]).0@ == k;
            assert(w[j].0 == v[j].0);
        }
        if k == v[i].0@ {
            assert(w[i].0@ == k);
        }
    }
    assert forall|k: Seq<char>| #[trigger] assoc_view(w).contains_key(k) implies assoc_view(w)[k] == assoc_view(v).insert(v[i].0@, value)[k] by {
        let j = choose|j: int| 0 <= j < w.len() && (#[trigger] w[j]).0@ == k;
        assert(w[j].0 == v[j].0);
        lemma_value_at(w, j);
        if j == i {
        } else {
            lemma_value_at(v, j);
            if k == v[i].0@ {
                lemma_key_unique(v, i, j);
            }
        }
    }
    assert(assoc_view(w) =~= assoc_view(v).insert(v[i].0@, value));
}

/// Inserting a new name where it belongs keeps the list ascending and adds the pair.
pub proof fn lemma_assoc_insert<V>(v: Seq<(String, V)>, p: int, key: String, value: V)
    requires
        keys_ascending(v),
        0 <= p <= v.len(),
        forall|k: int| 0 <= k < p ==> text_lt(#[trigger] v[k].0@, key@),
        forall|k: int| p <= k < v.len() ==> text_lt(key@, #[trigger] v[k].0@),
    ensures
        keys_ascending(v.insert(p, (key, value))),
        assoc_view(v.insert(p, (key, value))) == assoc_view(v).insert(key@, value),
        !has_key(v, key@),
{
    let w = v.insert(p, (key, value));
    assert(!has_key(v, key@)) by {
        if has_key(v, key@) {
            let j = choose|j: int| 0 <= j < v.len() && (#[trigger] v[j]).0@ == key@;
            if j < p {
                lemma_text_lt_asymmetric(key@, key@);
            } else {
                lemma_text_lt_asymmetric(key@, key@);
            }
        }
    }
    assert(keys_ascending(w)) by {
        assert forall|a: int, b: int| 0 <= a < b < w.len() implies text_lt(#[trigger] w[a].0@, #[trigger] w[b].0@) by {
            if b < p {
                assert(w[a] == v[a] && w[b] == v[b]);
            } else if b == p {
                assert(w[a] == v[a]);
            } else if a == p {
                assert(w[b] == v[b - 1]);
            } else if a < p {
                assert(w[a] == v[a] && w[b] == v[b - 1]);
            } else {
                assert(w[a] == v[a - 1] && w[b] == v[b - 1]);
            }
        }
    }
    assert forall|k: Seq<char>| #[trigger] assoc_view(w).contains_key(k) <==> assoc_view(v).insert(key@, value).contains_key(k) by {
        if has_key(v, k) {
            let j = choose|j: int| 0 <= j < v.len() && (#[trigger] v[j]).0@ == k;
            if j < p {
                assert(w[j] == v[j]);
            } else {
                assert(w[j + 1] == v[j]);
            }
        }
        if has_key(w, k) {
            let j = choose|j: int| 0 <= j < w.len() && (#[trigger] w[j]).0@ == k;
            if j < p {
                assert(w[j] == v[j]);
            } else if j > p {
                assert(w[j] == v[j - 1]);
            }
        }
        if k == key@ {
            assert(w[p].0@ == k);
        }
    }
    assert forall|k: Seq<char>| #[trigger] assoc_view(w).contains_key(k) implies assoc_view(w)[k] == assoc_view(v).insert(key@, value)[k] by {
        let j = choose|j: int| 0 <= j < w.len() && (#[trigger] w[j]).0@ == k;
        lemma_value_at(w, j);
        if j < p {
            assert(w[j] == v[j]);
            lemma_value_at(v, j);
        } else if j > p {
            assert(w[j] == v[j - 1]);
            lemma_value_at(v, j - 1);
        }
    }
    assert(assoc_view(w) =~= assoc_view(v).insert(key@, value));
}

/// Where `key` is in an ascending list, or where it would go.
pub fn locate<V>(v: &Vec<(String, V)>, key: &str) -> (r: Result<usize, usize>)
    requires
        keys_ascending(v@),
    ensures
        match r {
            Ok(i) => i < v@.len() && v@[i as int].0@ == key@,
            Err(p) => p <= v@.len() && (forall|k: int| 0 <= k < p ==> text_lt(#[trigger] v@[k].0@, key@)) && (
            forall|k: int| p <= k < v@.len() ==> text_lt(key@, #[trigger] v@[k].0@)),
        },
{
    let mut p: usize = 0;
    while p < v.len()
        invariant
            p <= v@.len(),
            keys_ascending(v@),
            forall|k: int| 0 <= k < p ==> text_lt(#[trigger] v@[k].0@, key@),
        decreases v@.len() - p,
    {
        if !text_less(v[p].0.as_str(), key) {
            if crate::text::str_eq(v[p].0.as_str(), key) {
                return Ok(p);
            }
            proof {
                lemma_text_lt_total(v@[p as int].0@, key@);
                assert forall|k: int| p <= k < v@.len() implies text_lt(key@, #[trigger] v@[k].0@) by {
                    if k > p {
                        lemma_text_lt_transitive(key@, v@[p as int].0@, v@[k].0@);
                    }
                }
            }
            return Err(p);
        }
        p = p + 1;
    }
    Err(p)
}

/// The empty list stands for the empty map.
pub proof fn lemma_assoc_empty<V>(v: Seq<(String, V)>)
    requires
        v.len() == 0,
    ensures
        keys_ascending(v),
        assoc_view(v) == Map::<Seq<char>, V>::empty(),
{
    assert(assoc_view(v) =~= Map::<Seq<char>, V>::empty());
}

} // verus!
