//! Lists of `(name, value)` entries used as maps keyed by name: a name's
//! entry is its first one.

use vstd::prelude::*;

verus! {

/// Spec: the value of the first entry named `key`, if any.
pub open spec fn lookup<V>(s: Seq<(String, V)>, key: Seq<char>) -> Option<V>
    decreases s.len(),
{
    if s.len() == 0 {
        None
    } else if s[0].0@ == key {
        Some(s[0].1)
    } else {
        lookup(s.drop_first(), key)
    }
}

/// Spec: `key` names an entry of `s`.
pub open spec fn has_key<V>(s: Seq<(String, V)>, key: Seq<char>) -> bool {
    exists|i: int| 0 <= i < s.len() && #[trigger] s[i].0@ == key
}

/// The entry at the first index naming `key` decides the lookup; with no
/// such index there is none.
pub proof fn lemma_lookup_at<V>(s: Seq<(String, V)>, key: Seq<char>, i: int)
    requires
        0 <= i <= s.len(),
        forall|j: int| 0 <= j < i ==> #[trigger] s[j].0@ != key,
        i < s.len() ==> s[i].0@ == key,
    ensures
        lookup(s, key) == if i < s.len() {
            Some(s[i].1)
        } else {
            None::<V>
        },
    decreases i,
{
    if i > 0 {
        assert forall|j: int| 0 <= j < i - 1 implies #[trigger] s.drop_first()[j].0@ != key by {
            assert(s.drop_first()[j] == s[j + 1]);
        }
        lemma_lookup_at(s.drop_first(), key, i - 1);
    }
}

/// A lookup finds something exactly when the key is present.
pub proof fn lemma_lookup_some<V>(s: Seq<(String, V)>, key: Seq<char>)
    ensures
        lookup(s, key) is Some <==> has_key(s, key),
    decreases s.len(),
{
    if s.len() > 0 {
        lemma_lookup_some(s.drop_first(), key);
        if has_key(s, key) && s[0].0@ != key {
            let i = choose|i: int| 0 <= i < s.len() && #[trigger] s[i].0@ == key;
            assert(s.drop_first()[i - 1].0@ == key);
        }
        if has_key(s.drop_first(), key) {
            let i = choose|i: int| 0 <= i < s.len() - 1 && #[trigger] s.drop_first()[i].0@ == key;
            assert(s[i + 1].0@ == key);
        }
    }
}

/// Index of the first entry named `key`.
pub fn find_key<V>(v: &Vec<(String, V)>, key: &str) -> (r: Option<usize>)
    ensures
        match r {
            Some(i) => i < v@.len() && v@[i as int].0@ == key@ && forall|j: int|
                0 <= j < i ==> #[trigger] v@[j].0@ != key@,
            None => forall|j: int| 0 <= j < v@.len() ==> #[trigger] v@[j].0@ != key@,
        },
{
    let mut i: usize = 0;
    while i < v.len()
        invariant
            i <= v@.len(),
            forall|j: int| 0 <= j < i ==> #[trigger] v@[j].0@ != key@,
        decreases v.len() - i,
    {
        if crate::text::str_eq(v[i].0.as_str(), key) {
            return Some(i);
        }
        i += 1;
    }
    None
}

/// Appending an entry changes only the lookup of its own name, and only
/// when that name was absent.
pub proof fn lemma_lookup_push<V>(s: Seq<(String, V)>, e: (String, V), key: Seq<char>)
    ensures
        lookup(s.push(e), key) == if lookup(s, key) is Some {
            lookup(s, key)
        } else if e.0@ == key {
            Some(e.1)
        } else {
            None::<V>
        },
    decreases s.len(),
{
    if s.len() > 0 {
        assert(s.push(e)[0] == s[0]);
        assert(s.push(e).drop_first() =~= s.drop_first().push(e));
        lemma_lookup_push(s.drop_first(), e, key);
    } else {
        assert(s.push(e)[0] == e);
        assert(s.push(e).drop_first() =~= Seq::<(String, V)>::empty());
        assert(lookup(s, key) is None);
        assert(lookup(Seq::<(String, V)>::empty(), key) is None);
        if e.0@ != key {
            assert(lookup(s.push(e), key) == lookup(s.push(e).drop_first(), key));
            assert(lookup(s.push(e), key) is None);
        }
    }
}

/// Replacing the value of the first entry named `k` changes only the lookup of `k`.
pub proof fn lemma_lookup_update<V>(s: Seq<(String, V)>, i: int, e: (String, V), key: Seq<char>)
    requires
        0 <= i < s.len(),
        e.0@ == s[i].0@,
        forall|j: int| 0 <= j < i ==> #[trigger] s[j].0@ != s[i].0@,
    ensures
        lookup(s.update(i, e), key) == if key == e.0@ {
            Some(e.1)
        } else {
            lookup(s, key)
        },
    decreases i,
{
    if i > 0 {
        assert(s.update(i, e).drop_first() =~= s.drop_first().update(i - 1, e));
        assert forall|j: int| 0 <= j < i - 1 implies #[trigger] s.drop_first()[j].0@
            != s.drop_first()[i - 1].0@ by {
            assert(s.drop_first()[j] == s[j + 1]);
        }
        lemma_lookup_update(s.drop_first(), i - 1, e, key);
    } else {
        assert(s.update(i, e).drop_first() =~= s.drop_first());
    }
}

/// Set `key` to `val`, replacing its entry or appending one.
pub fn upsert<V>(v: &mut Vec<(String, V)>, key: String, val: V)
    ensures
        forall|k: Seq<char>|
            #[trigger] lookup(final(v)@, k) == if k == key@ {
                Some(val)
            } else {
                lookup(old(v)@, k)
            },
{
    let found = find_key(v, key.as_str());
    let ghost s = v@;
    let ghost kv = key@;
    let ghost e = (key, val);
    match found {
        Some(i) => {
            v[i] = (key, val);
            proof {
                assert(v@ == s.update(i as int, e));
                assert forall|k: Seq<char>| #[trigger] lookup(v@, k) == if k == kv {
                    Some(val)
                } else {
                    lookup(s, k)
                } by {
                    lemma_lookup_update(s, i as int, e, k);
                }
            }
        },
        None => {
            v.push((key, val));
            proof {
                assert forall|k: Seq<char>| #[trigger] lookup(v@, k) == if k == kv {
                    Some(val)
                } else {
                    lookup(s, k)
                } by {
                    lemma_lookup_push(s, e, k);
                    if k == kv {
                        lemma_lookup_at(s, k, s.len() as int);
                    }
                }
            }
        },
    }
}

/// Add an entry for `key` unless it already has one.
pub fn insert_if_absent<V>(v: &mut Vec<(String, V)>, key: String, val: V)
    ensures
        forall|k: Seq<char>|
            #[trigger] lookup(final(v)@, k) == if lookup(old(v)@, k) is Some {
                lookup(old(v)@, k)
            } else if k == key@ {
                Some(val)
            } else {
                None::<V>
            },
{
    let found = find_key(v, key.as_str());
    let ghost s = v@;
    let ghost e = (key, val);
    match found {
        Some(i) => {
            proof {
                assert forall|k: Seq<char>| #[trigger] lookup(v@, k) == if lookup(s, k) is Some {
                    lookup(s, k)
                } else if k == e.0@ {
                    Some(val)
                } else {
                    None::<V>
                } by {
                    if k == e.0@ {
                        lemma_lookup_at(s, k, i as int);
                    }
                }
            }
        },
        None => {
            v.push((key, val));
            proof {
                assert forall|k: Seq<char>| #[trigger] lookup(v@, k) == if lookup(s, k) is Some {
                    lookup(s, k)
                } else if k == e.0@ {
                    Some(val)
                } else {
                    None::<V>
                } by {
                    lemma_lookup_push(s, e, k);
                }
            }
        },
    }
}

} // verus!
