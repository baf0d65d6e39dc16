//! String-keyed association lists, the maps of JSON objects, event metadata
//! and TOML tables. A key's value is the one of its first entry; inserting a
//! key replaces that entry's value or appends a new entry.
use vstd::prelude::*;

verus! {

/// Index of the first entry at or after `i` whose key is `k`; `s.len()` when none.
pub open spec fn find_from<V>(s: Seq<(String, V)>, k: Seq<char>, i: int) -> int
    decreases s.len() - i,
{
    if i < 0 || i >= s.len() {
        s.len() as int
    } else if s[i].0@ == k {
        i
    } else {
        find_from(s, k, i + 1)
    }
}

/// Index of the first entry with key `k`; `s.len()` when none.
pub open spec fn find_key<V>(s: Seq<(String, V)>, k: Seq<char>) -> int {
    find_from(s, k, 0)
}

/// The value of key `k`: that of its first entry.
pub open spec fn assoc_get<V>(s: Seq<(String, V)>, k: Seq<char>) -> Option<V> {
    let i = find_key(s, k);
    if i < s.len() {
        Some(s[i].1)
    } else {
        None
    }
}

pub proof fn lemma_find_from<V>(s: Seq<(String, V)>, k: Seq<char>, i: int)
    requires
        0 <= i <= s.len(),
    ensures
        i <= find_from(s, k, i) <= s.len(),
        find_from(s, k, i) < s.len() ==> s[find_from(s, k, i)].0@ == k,
        forall|j: int| i <= j < find_from(s, k, i) ==> s[j].0@ != k,
    decreases s.len() - i,
{
    if i < s.len() {
        lemma_find_from(s, k, i + 1);
    }
}

/// Sequences with the same keys in the same places find every key at the same place.
pub proof fn lemma_find_same_keys<V>(s: Seq<(String, V)>, t: Seq<(String, V)>, k: Seq<char>, i: int)
    requires
        s.len() == t.len(),
        forall|j: int| 0 <= j < s.len() ==> #[trigger] s[j].0@ == t[j].0@,
    ensures
        find_from(s, k, i) == find_from(t, k, i),
    decreases s.len() - i,
{
    if 0 <= i < s.len() {
        lemma_find_same_keys(s, t, k, i + 1);
    }
}

/// Appending an entry does not move any key found before it.
pub proof fn lemma_find_push<V>(s: Seq<(String, V)>, e: (String, V), k: Seq<char>, i: int)
    requires
        0 <= i <= s.len(),
    ensures
        find_from(s, k, i) < s.len() ==> find_from(s.push(e), k, i) == find_from(s, k, i),
        find_from(s, k, i) == s.len() ==> find_from(s.push(e), k, i) == (if e.0@ == k {
            s.len() as int
        } else {
            s.len() as int + 1
        }),
    decreases s.len() - i,
{
    if i < s.len() {
        lemma_find_push(s, e, k, i + 1);
        assert(s.push(e)[i] == s[i]);
    } else {
        assert(s.push(e)[i] == e);
        assert(find_from(s.push(e), k, i + 1) == s.len() + 1);
    }
}

/// The position of `key`'s first entry, if any.
pub fn assoc_find<V>(entries: &Vec<(String, V)>, key: &String) -> (r: Option<usize>)
    ensures
        match r {
            Some(i) => i == find_key(entries@, key@) && i < entries@.len(),
            None => find_key(entries@, key@) == entries@.len(),
        },
{
    let mut i: usize = 0;
    while i < entries.len()
        invariant
            i <= entries@.len(),
            find_key(entries@, key@) == find_from(entries@, key@, i as int),
        decreases entries@.len() - i,
    {
        if entries[i].0 == *key {
            return Some(i);
        }
        i = i + 1;
    }
    None
}

/// The value of `key`, if any.
pub fn assoc_lookup<'a, V>(entries: &'a Vec<(String, V)>, key: &String) -> (r: Option<&'a V>)
    ensures
        match r {
            Some(v) => assoc_get(entries@, key@) == Some(*v),
            None => assoc_get(entries@, key@) is None,
        },
{
    match assoc_find(entries, key) {
        Some(i) => Some(&entries[i].1),
        None => None,
    }
}

/// Sets `key` to `value`: the first entry with that key gets the value, or a
/// new entry is appended. Every other key keeps its value.
pub fn assoc_insert<V>(entries: &mut Vec<(String, V)>, key: String, value: V)
    ensures
        assoc_get(final(entries)@, key@) == Some(value),
        forall|k: Seq<char>| k != key@ ==> assoc_get(#[trigger] final(entries)@, k) == assoc_get(old(entries)@, k),
        final(entries)@.len() == old(entries)@.len() || final(entries)@.len() == old(entries)@.len() + 1,
        forall|k: Seq<char>| #[trigger] assoc_get(old(entries)@, k) is Some ==> assoc_get(final(entries)@, k) is Some,
{
    let ghost old_s = entries@;
    let ghost kv = key@;
    proof {
        lemma_find_from(old_s, kv, 0);
    }
    match assoc_find(entries, &key) {
        Some(i) => {
            entries.set(i, (key, value));
            proof {
                let s = entries@;
                assert forall|j: int| 0 <= j < s.len() implies #[trigger] s[j].0@ == old_s[j].0@ by {}
                assert forall|k: Seq<char>| k != kv implies assoc_get(s, k) == assoc_get(old_s, k) by {
                    lemma_find_same_keys(s, old_s, k, 0);
                    lemma_find_from(old_s, k, 0);
                    if find_key(old_s, k) == i {
                        assert(old_s[i as int].0@ == kv);
                    }
                }
                lemma_find_same_keys(s, old_s, kv, 0);
                assert forall|k: Seq<char>| #[trigger] assoc_get(old_s, k) is Some implies assoc_get(s, k) is Some by {
                    lemma_find_same_keys(s, old_s, k, 0);
                }
            }
        },
        None => {
            let ghost e = (key, value);
            entries.push((key, value));
            proof {
                assert(entries@ == old_s.push(e));
                lemma_find_push(old_s, e, kv, 0);
                assert forall|k: Seq<char>| k != kv implies assoc_get(entries@, k) == assoc_get(old_s, k) by {
                    lemma_find_push(old_s, e, k, 0);
                    lemma_find_from(old_s, k, 0);
                }
                assert forall|k: Seq<char>| #[trigger] assoc_get(old_s, k) is Some implies assoc_get(entries@, k) is Some by {
                    lemma_find_push(old_s, e, k, 0);
                    lemma_find_from(old_s, k, 0);
                }
            }
        },
    }
}

/// The value of `k` in the entries at or after `i`: that of the first such entry.
pub open spec fn get_from<V>(s: Seq<(String, V)>, k: Seq<char>, i: int) -> Option<V> {
    let f = find_from(s, k, i);
    if f < s.len() {
        Some(s[f].1)
    } else {
        None
    }
}

/// `after` is `before` extended by the map `src`: every key of `src` takes its
/// value there, every other key keeps its value.
pub open spec fn extended<V>(before: Seq<(String, V)>, src: Seq<(String, V)>, after: Seq<(String, V)>) -> bool {
    forall|k: Seq<char>|
        #[trigger] assoc_get(after, k) == (if assoc_get(src, k) is Some {
            assoc_get(src, k)
        } else {
            assoc_get(before, k)
        })
}

/// Sets every key of `src` to its value there (as `Extend` on a map whose
/// keys `src` lists once each).
pub fn assoc_extend<V>(dst: &mut Vec<(String, V)>, src: Vec<(String, V)>)
    ensures
        extended(old(dst)@, src@, final(dst)@),
{
    let ghost s0 = src@;
    let ghost d0 = dst@;
    let mut src = src;
    while src.len() > 0
        invariant
            src@ == s0.subrange(0, src@.len() as int),
            src@.len() <= s0.len(),
            forall|k: Seq<char>|
                #[trigger] assoc_get(dst@, k) == (if get_from(s0, k, src@.len() as int) is Some {
                    get_from(s0, k, src@.len() as int)
                } else {
                    assoc_get(d0, k)
                }),
        decreases src@.len(),
    {
        let ghost j = src@.len() as int;
        let ghost prev = dst@;
        match src.pop() {
            Some(e) => {
                proof {
                    assert(e == s0[j - 1]);
                }
                let ghost kv = e.0@;
                assoc_insert(dst, e.0, e.1);
                proof {
                    assert forall|k: Seq<char>| #[trigger] assoc_get(dst@, k) == (if get_from(s0, k, j - 1) is Some {
                        get_from(s0, k, j - 1)
                    } else {
                        assoc_get(d0, k)
                    }) by {
                        if k == kv {
                        } else {
                            assert(find_from(s0, k, j - 1) == find_from(s0, k, j));
                            assert(assoc_get(prev, k) == assoc_get(dst@, k));
                        }
                    }
                }
            },
            None => {},
        }
    }
    proof {
        assert forall|k: Seq<char>| #[trigger] get_from(s0, k, 0) == assoc_get(s0, k) by {}
    }
}

/// Takes the value of `key` out, leaving `placeholder` in its place; every key
/// keeps its place, and every other key its value.
pub fn assoc_take<V>(entries: &mut Vec<(String, V)>, key: &String, placeholder: V) -> (r: Option<V>)
    ensures
        r == assoc_get(old(entries)@, key@),
        forall|k: Seq<char>| k != key@ ==> #[trigger] assoc_get(final(entries)@, k) == assoc_get(old(entries)@, k),
{
    let ghost s0 = entries@;
    match assoc_find(entries, key) {
        Some(i) => {
            let (k, v) = entries.remove(i);
            entries.insert(i, (k, placeholder));
            proof {
                let s = entries@;
                assert forall|j: int| 0 <= j < s.len() implies #[trigger] s[j].0@ == s0[j].0@ by {
                    if j < i {
                    } else if j == i {
                    } else {
                    }
                }
                assert forall|x: Seq<char>| x != key@ implies #[trigger] assoc_get(s, x) == assoc_get(s0, x) by {
                    lemma_find_same_keys(s, s0, x, 0);
                    lemma_find_from(s0, x, 0);
                    lemma_find_from(s0, key@, 0);
                    if find_key(s0, x) == i {
                        assert(s0[i as int].0@ == key@);
                    }
                    if find_key(s0, x) < s.len() && find_key(s0, x) != i {
                        assert(s[find_key(s0, x)] == s0[find_key(s0, x)]);
                    }
                }
            }
            Some(v)
        },
        None => None,
    }
}

} // verus!
