//! Records kept in a vector and found by a text key.

use vstd::prelude::*;

use crate::text::str_eq;

verus! {

/// A record that is found by a text key.
pub trait Keyed: Sized {
    /// The key of the record.
    spec fn key(&self) -> Seq<char>;

    /// The key of the record.
    fn key_str(&self) -> (r: &str)
        ensures
            r@ == self.key(),
    ;
}

/// The first position at or after `i` whose record has the given key.
pub open spec fn key_pos_from<T: Keyed>(s: Seq<T>, key: Seq<char>, i: int) -> Option<int>
    decreases s.len() - i,
{
    if i < 0 || i >= s.len() {
        None
    } else if s[i].key() == key {
        Some(i)
    } else {
        key_pos_from(s, key, i + 1)
    }
}

/// The first position whose record has the given key.
pub open spec fn key_pos<T: Keyed>(s: Seq<T>, key: Seq<char>) -> Option<int> {
    key_pos_from(s, key, 0)
}

/// The record with the given key: the first one, if there are several.
pub open spec fn key_get<T: Keyed>(s: Seq<T>, key: Seq<char>) -> Option<T> {
    match key_pos(s, key) {
        Some(i) => Some(s[i]),
        None => None,
    }
}

/// Whether no two records share a key.
pub open spec fn distinct_keys<T: Keyed>(s: Seq<T>) -> bool {
    forall|i: int, j: int|
        0 <= i < j < s.len() ==> (#[trigger] s[i]).key() != (#[trigger] s[j]).key()
}

/// All records but those with the given key, in order.
pub open spec fn without_key<T: Keyed>(s: Seq<T>, key: Seq<char>) -> Seq<T>
    decreases s.len(),
{
    if s.len() == 0 {
        s
    } else if s.last().key() == key {
        without_key(s.drop_last(), key)
    } else {
        without_key(s.drop_last(), key).push(s.last())
    }
}

/// What a first position is: a match with no match before it.
pub proof fn lemma_key_pos_from<T: Keyed>(s: Seq<T>, key: Seq<char>, i: int)
    requires
        0 <= i <= s.len(),
    ensures
        match key_pos_from(s, key, i) {
            Some(k) => {
                &&& i <= k < s.len()
                &&& s[k].key() == key
                &&& forall|j: int| i <= j < k ==> (#[trigger] s[j]).key() != key
            },
            None => forall|j: int| i <= j < s.len() ==> (#[trigger] s[j]).key() != key,
        },
    decreases s.len() - i,
{
    if i < s.len() && s[i].key() != key {
        lemma_key_pos_from(s, key, i + 1);
    }
}

/// What a first position is: a match with no match before it.
pub proof fn lemma_key_pos<T: Keyed>(s: Seq<T>, key: Seq<char>)
    ensures
        match key_pos(s, key) {
            Some(k) => {
                &&& 0 <= k < s.len()
                &&& s[k].key() == key
                &&& forall|j: int| 0 <= j < k ==> (#[trigger] s[j]).key() != key
            },
            None => forall|j: int| 0 <= j < s.len() ==> (#[trigger] s[j]).key() != key,
        },
{
    lemma_key_pos_from(s, key, 0);
}

/// A match with no match before it is the first position.
pub proof fn lemma_key_pos_is<T: Keyed>(s: Seq<T>, key: Seq<char>, k: int)
    requires
        0 <= k < s.len(),
        s[k].key() == key,
        forall|j: int| 0 <= j < k ==> (#[trigger] s[j]).key() != key,
    ensures
        key_pos(s, key) == Some(k),
{
    lemma_key_pos(s, key);
}

/// What is left after removing a key: no record has it, and the other records keep their order.
pub proof fn lemma_without_key<T: Keyed>(s: Seq<T>, key: Seq<char>)
    ensures
        without_key(s, key).len() <= s.len(),
        forall|i: int| #![trigger without_key(s, key)[i]]
            0 <= i < without_key(s, key).len() ==> without_key(s, key)[i].key() != key
                && exists|j: int| #![trigger s[j]] i <= j < s.len() && s[j] == without_key(s, key)[i],
        distinct_keys(s) ==> distinct_keys(without_key(s, key)),
        (without_key(s, key).len() == s.len()) == (key_pos(s, key) is None),
    decreases s.len(),
{
    lemma_key_pos(s, key);
    if s.len() > 0 {
        let t = s.drop_last();
        lemma_without_key(t, key);
        lemma_key_pos(t, key);
        let w = without_key(t, key);
        assert forall|i: int| #![trigger without_key(s, key)[i]]
            0 <= i < without_key(s, key).len() implies without_key(s, key)[i].key() != key
            && exists|j: int| #![trigger s[j]] i <= j < s.len() && s[j] == without_key(s, key)[i] by {
            if i < w.len() {
                let j = choose|j: int| #![trigger t[j]] i <= j < t.len() && t[j] == w[i];
                assert(s[j] == w[i]);
            } else {
                assert(s[s.len() - 1] == without_key(s, key)[i]);
            }
        }
        if distinct_keys(s) {
            assert(distinct_keys(t)) by {
                assert forall|i: int, j: int| 0 <= i < j < t.len() implies (
                #[trigger] t[i]).key() != (#[trigger] t[j]).key() by {
                    assert(s[i].key() != s[j].key());
                }
            }
            assert forall|i: int, j: int| 0 <= i < j < without_key(s, key).len() implies (
            #[trigger] without_key(s, key)[i]).key() != (
            #[trigger] without_key(s, key)[j]).key() by {
                if j == w.len() {
                    let k = choose|k: int| #![trigger t[k]] i <= k < t.len() && t[k] == w[i];
                    assert(s[k].key() != s[s.len() - 1].key());
                } else {
                    assert(w[i].key() != w[j].key());
                }
            }
        }
        if key_pos(s, key) is None {
            assert forall|j: int| 0 <= j < t.len() implies (#[trigger] t[j]).key() != key by {
                assert(s[j].key() != key);
            }
        } else if s.last().key() != key {
            let k = key_pos(s, key)->0;
            assert(t[k].key() == key);
        }
    }
}

/// Removing a key leaves the first record of every other key.
pub proof fn lemma_without_key_get<T: Keyed>(s: Seq<T>, key: Seq<char>, other: Seq<char>)
    ensures
        key_get(without_key(s, key), other) == (if other == key {
            None
        } else {
            key_get(s, other)
        }),
    decreases s.len(),
{
    let r = without_key(s, key);
    lemma_key_pos(r, other);
    lemma_key_pos(s, other);
    lemma_without_key(s, key);
    if s.len() > 0 && other != key {
        let t = s.drop_last();
        let w = without_key(t, key);
        lemma_without_key_get(t, key, other);
        lemma_key_pos(t, other);
        lemma_key_pos(w, other);
        if key_pos(t, other) is Some {
            let k = key_pos(t, other)->0;
            assert forall|j: int| 0 <= j < k implies (#[trigger] s[j]).key() != other by {
                assert(t[j].key() != other);
            }
            lemma_key_pos_is(s, other, k);
            let m = key_pos(w, other)->0;
            assert forall|j: int| 0 <= j < m implies (#[trigger] r[j]).key() != other by {
                assert(w[j].key() != other);
            }
            lemma_key_pos_is(r, other, m);
        } else {
            assert forall|j: int| 0 <= j < t.len() implies (#[trigger] s[j]).key() != other by {
                assert(t[j].key() != other);
            }
            assert forall|j: int| 0 <= j < w.len() implies (#[trigger] r[j]).key() != other by {
                assert(w[j].key() != other);
            }
            if s.last().key() == other {
                lemma_key_pos_is(s, other, s.len() - 1);
                lemma_key_pos_is(r, other, r.len() - 1);
            }
        }
    }
}

/// The first position whose record has the given key.
pub fn position<T: Keyed>(v: &Vec<T>, key: &str) -> (r: Option<usize>)
    ensures
        match r {
            Some(i) => key_pos(v@, key@) == Some(i as int) && i < v@.len() && v@[i as int].key()
                == key@,
            None => key_pos(v@, key@) is None,
        },
{
    let mut i: usize = 0;
    while i < v.len()
        invariant
            i <= v.len(),
            key_pos(v@, key@) == key_pos_from(v@, key@, i as int),
        decreases v.len() - i,
    {
        if str_eq(v[i].key_str(), key) {
            return Some(i);
        }
        i += 1;
    }
    None
}

/// Removes every record with the given key; the others keep their order.
pub fn remove_key<T: Keyed>(v: &mut Vec<T>, key: &str) -> (removed: bool)
    ensures
        final(v)@ == without_key(old(v)@, key@),
        removed == (key_pos(old(v)@, key@) is Some),
{
    let ghost before = v@;
    let mut all: Vec<T> = Vec::new();
    std::mem::swap(v, &mut all);
    proof {
        lemma_without_key(before, key@);
    }
    let n: usize = all.len();
    for x in it: all
        invariant
            it.seq() == before,
            v@ == without_key(before.take(it.index() as int), key@),
    {
        proof {
            let i = it.index() as int;
            assert(before.take(i + 1).drop_last() =~= before.take(i));
            assert(before.take(i + 1).last() == before[i]);
        }
        if !str_eq(x.key_str(), key) {
            v.push(x);
        }
    }
    assert(before.take(before.len() as int) =~= before);
    v.len() != n
}

/// The records after one of them is stored: it replaces the first record with its key, in its
/// place, or comes last.
pub open spec fn with<T: Keyed>(s: Seq<T>, x: T) -> Seq<T> {
    match key_pos(s, x.key()) {
        Some(i) => s.update(i, x),
        None => s.push(x),
    }
}

/// What storing a record does: it is found under its key, the others stay where they were, and
/// keys stay distinct.
pub proof fn lemma_put<T: Keyed>(s: Seq<T>, x: T)
    ensures
        forall|k: Seq<char>| #[trigger]
            key_get(with(s, x), k) == (if k == x.key() {
                Some(x)
            } else {
                key_get(s, k)
            }),
        distinct_keys(s) ==> distinct_keys(with(s, x)),
        forall|i: int| 0 <= i < with(s, x).len() ==> #[trigger] with(s, x)[i] == x || (i < s.len() && with(s, x)[i] == s[i]),
{
    let t = with(s, x);
    lemma_key_pos(s, x.key());
    assert forall|k: Seq<char>| #[trigger]
        key_get(t, k) == (if k == x.key() {
            Some(x)
        } else {
            key_get(s, k)
        }) by {
        lemma_key_pos(s, k);
        lemma_key_pos(t, k);
        if k == x.key() {
            let p = match key_pos(s, k) {
                Some(i) => i,
                None => s.len() as int,
            };
            assert forall|j: int| 0 <= j < p implies (#[trigger] t[j]).key() != k by {
                assert(s[j].key() != k);
            }
            lemma_key_pos_is(t, k, p);
        } else if key_pos(s, k) is Some {
            let p = key_pos(s, k)->0;
            assert(s[p].key() == k);
            assert(t[p] == s[p]);
            assert forall|j: int| 0 <= j < p implies (#[trigger] t[j]).key() != k by {
                assert(s[j].key() != k);
            }
            lemma_key_pos_is(t, k, p);
        } else {
            if key_pos(t, k) is Some {
                let p = key_pos(t, k)->0;
                assert(t[p].key() == k);
                assert(p < s.len() ==> s[p].key() != k);
            }
        }
    }
    if distinct_keys(s) {
        assert forall|i: int, j: int| 0 <= i < j < t.len() implies (#[trigger] t[i]).key() != (
        #[trigger] t[j]).key() by {
            if j < s.len() {
                assert(s[i].key() != s[j].key());
            }
        }
    }
}

/// The records as a map from keys.
pub open spec fn map_of<T: Keyed + View>(s: Seq<T>) -> Map<Seq<char>, T::V> {
    Map::new(|k: Seq<char>| key_get(s, k) is Some, |k: Seq<char>| key_get(s, k)->0.view())
}

/// Storing a record inserts it into the map.
pub proof fn lemma_map_put<T: Keyed + View>(s: Seq<T>, x: T)
    ensures
        map_of(with(s, x)) == map_of(s).insert(x.key(), x@),
{
    lemma_put(s, x);
    assert(map_of(with(s, x)) =~= map_of(s).insert(x.key(), x@));
}

/// Removing a key removes it from the map.
pub proof fn lemma_map_without_key<T: Keyed + View>(s: Seq<T>, key: Seq<char>)
    ensures
        map_of(without_key(s, key)) == map_of(s).remove(key),
{
    assert forall|k: Seq<char>| #[trigger]
        key_get(without_key(s, key), k) == (if k == key {
            None
        } else {
            key_get(s, k)
        }) by {
        lemma_without_key_get(s, key, k);
    }
    assert(map_of(without_key(s, key)) =~= map_of(s).remove(key));
}

/// Stores a record in place of the one with its key, and returns that one.
pub fn put<T: Keyed>(v: &mut Vec<T>, x: T) -> (r: Option<T>)
    ensures
        final(v)@ == with(old(v)@, x),
        r == key_get(old(v)@, x.key()),
{
    match position(v, x.key_str()) {
        Some(i) => {
            let mut slot: T = x;
            std::mem::swap(&mut v[i], &mut slot);
            Some(slot)
        },
        None => {
            v.push(x);
            None
        },
    }
}

/// A record that can be copied.
pub trait Record: Keyed {
    /// A copy of the record.
    fn dup(&self) -> (r: Self)
        ensures
            r == *self,
    ;
}

/// A copy of the record with the given key.
pub fn lookup<T: Record>(v: &Vec<T>, key: &str) -> (r: Option<T>)
    ensures
        r == key_get(v@, key@),
{
    match position(v, key) {
        Some(i) => Some(v[i].dup()),
        None => None,
    }
}

/// Copies of all records.
pub fn copy_all<T: Record>(v: &Vec<T>) -> (r: Vec<T>)
    ensures
        r@ == v@,
{
    let mut out: Vec<T> = Vec::new();
    let mut i: usize = 0;
    while i < v.len()
        invariant
            i <= v.len(),
            out@ == v@.take(i as int),
        decreases v.len() - i,
    {
        out.push(v[i].dup());
        i += 1;
        assert(v@.take(i as int) =~= v@.take(i - 1).push(v@[i - 1]));
    }
    assert(v@.take(i as int) =~= v@);
    out
}

/// The mathematical values of records.
pub open spec fn views<T: View>(s: Seq<T>) -> Seq<T::V> {
    Seq::new(s.len(), |i: int| s[i].view())
}

proof fn lemma_without_absent<T: Keyed>(s: Seq<T>, key: Seq<char>)
    requires
        forall|i: int| 0 <= i < s.len() ==> (#[trigger] s[i]).key() != key,
    ensures
        without_key(s, key) == s,
    decreases s.len(),
{
    if s.len() > 0 {
        let t = s.drop_last();
        assert forall|i: int| 0 <= i < t.len() implies (#[trigger] t[i]).key() != key by {
            assert(t[i] == s[i]);
        }
        lemma_without_absent(t, key);
        assert(s.last() == s[s.len() - 1]);
        assert(t.push(s.last()) =~= s);
    }
}

/// A record that is added under a free key is found there. The other records are found as before,
/// no two records come to share a key, and removing the key undoes the addition.
pub proof fn law_added<T: Keyed>(s: Seq<T>, x: T)
    requires
        key_pos(s, x.key()) is None,
    ensures
        key_get(s.push(x), x.key()) == Some(x),
        forall|k: Seq<char>| k != x.key() ==> #[trigger] key_get(s.push(x), k) == key_get(s, k),
        distinct_keys(s) ==> distinct_keys(s.push(x)),
        without_key(s.push(x), x.key()) == s,
{
    lemma_put(s, x);
    assert(with(s, x) == s.push(x));
    lemma_key_pos(s, x.key());
    assert(s.push(x).drop_last() =~= s);
    lemma_without_absent(s, x.key());
}

/// A record that is removed is not found any more, and the others are found as before.
pub proof fn law_removed<T: Keyed>(s: Seq<T>, key: Seq<char>, other: Seq<char>)
    ensures
        key_get(without_key(s, key), key) is None,
        other != key ==> key_get(without_key(s, key), other) == key_get(s, other),
        distinct_keys(s) ==> distinct_keys(without_key(s, key)),
{
    lemma_without_key_get(s, key, key);
    lemma_without_key_get(s, key, other);
    lemma_without_key(s, key);
}

} // verus!
