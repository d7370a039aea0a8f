//! The order of texts, and records kept in the order of their keys.

use vstd::prelude::*;

use crate::keyed;
use crate::keyed::{position, Keyed};
use crate::text::chars_of;

verus! {

/// Whether a text comes before another: at the first place where they differ it has the smaller
/// character, or it ends there.
pub open spec fn text_lt(a: Seq<char>, b: Seq<char>) -> bool
    decreases a.len(),
{
    if b.len() == 0 {
        false
    } else if a.len() == 0 {
        true
    } else if a[0] != b[0] {
        a[0] < b[0]
    } else {
        text_lt(a.skip(1), b.skip(1))
    }
}

/// No text comes before itself.
pub proof fn law_text_irreflexive(a: Seq<char>)
    ensures
        !text_lt(a, a),
    decreases a.len(),
{
    if a.len() > 0 {
        law_text_irreflexive(a.skip(1));
    }
}

/// The order of texts is transitive.
pub proof fn law_text_transitive(a: Seq<char>, b: Seq<char>, c: Seq<char>)
    requires
        text_lt(a, b),
        text_lt(b, c),
    ensures
        text_lt(a, c),
    decreases a.len(),
{
    if a.len() > 0 && b.len() > 0 && c.len() > 0 && a[0] == b[0] && b[0] == c[0] {
        law_text_transitive(a.skip(1), b.skip(1), c.skip(1));
    }
}

/// Of two different texts, one comes before the other.
pub proof fn law_text_total(a: Seq<char>, b: Seq<char>)
    requires
        a != b,
    ensures
        text_lt(a, b) || text_lt(b, a),
    decreases a.len(),
{
    if a.len() == 0 && b.len() == 0 {
        assert(a =~= b);
    } else if a.len() > 0 && b.len() > 0 && a[0] == b[0] {
        if a.skip(1) == b.skip(1) {
            assert(a =~= seq![a[0]] + a.skip(1));
            assert(b =~= seq![b[0]] + b.skip(1));
        } else {
            law_text_total(a.skip(1), b.skip(1));
        }
    }
}

/// Whether a string comes before another.
pub fn text_less(a: &str, b: &str) -> (r: bool)
    ensures
        r == text_lt(a@, b@),
{
    let x: Vec<char> = chars_of(a);
    let y: Vec<char> = chars_of(b);
    let mut i: usize = 0;
    assert(x@.skip(0) =~= x@);
    assert(y@.skip(0) =~= y@);
    while i < x.len() && i < y.len()
        invariant
            i <= x.len(),
            i <= y.len(),
            x@ == a@,
            y@ == b@,
            text_lt(x@, y@) == text_lt(x@.skip(i as int), y@.skip(i as int)),
        decreases x.len() - i,
    {
        if x[i] != y[i] {
            return x[i] < y[i];
        }
        assert(x@.skip(i as int).skip(1) =~= x@.skip(i + 1));
        assert(y@.skip(i as int).skip(1) =~= y@.skip(i + 1));
        i += 1;
    }
    i < y.len()
}

/// Whether records stand in the order of their keys, and no two share one.
pub open spec fn ascending<T: Keyed>(s: Seq<T>) -> bool {
    forall|i: int, j: int|
        0 <= i < j < s.len() ==> text_lt((#[trigger] s[i]).key(), (#[trigger] s[j]).key())
}

/// Ascending records have distinct keys.
pub proof fn lemma_ascending_distinct<T: Keyed>(s: Seq<T>)
    requires
        ascending(s),
    ensures
        keyed::distinct_keys(s),
{
    assert forall|i: int, j: int| 0 <= i < j < s.len() implies (#[trigger] s[i]).key() != (
    #[trigger] s[j]).key() by {
        assert(text_lt(s[i].key(), s[j].key()));
        law_text_irreflexive(s[i].key());
    }
}

/// The first position at or after `i` whose record comes after a key, or the length.
pub open spec fn slot_from<T: Keyed>(s: Seq<T>, key: Seq<char>, i: int) -> int
    decreases s.len() - i,
{
    if i < 0 || i >= s.len() {
        s.len() as int
    } else if text_lt(key, s[i].key()) {
        i
    } else {
        slot_from(s, key, i + 1)
    }
}

/// The records after one of them is stored: it replaces the record with its key, or comes before
/// the first one with a greater key.
pub open spec fn with_in_order<T: Keyed>(s: Seq<T>, x: T) -> Seq<T> {
    match keyed::key_pos(s, x.key()) {
        Some(i) => s.update(i, x),
        None => s.insert(slot_from(s, x.key(), 0), x),
    }
}

/// What the first position after a key is.
pub proof fn lemma_slot<T: Keyed>(s: Seq<T>, key: Seq<char>, i: int)
    requires
        0 <= i <= s.len(),
    ensures
        ({
            let p = slot_from(s, key, i);
            &&& i <= p <= s.len()
            &&& p < s.len() ==> text_lt(key, s[p].key())
            &&& forall|k: int| i <= k < p ==> !text_lt(key, (#[trigger] s[k]).key())
        }),
    decreases s.len() - i,
{
    if i < s.len() && !text_lt(key, s[i].key()) {
        lemma_slot(s, key, i + 1);
    }
}

/// What storing a record in order does: it is found under its key, the others are found as
/// before, and the order is kept.
pub proof fn lemma_with_in_order<T: Keyed>(s: Seq<T>, x: T)
    ensures
        ascending(s) ==> ascending(with_in_order(s, x)),
        keyed::key_get(with_in_order(s, x), x.key()) == Some(x),
        forall|k: Seq<char>|
            k != x.key() ==> #[trigger] keyed::key_get(with_in_order(s, x), k) == keyed::key_get(
                s,
                k,
            ),
{
    let t = with_in_order(s, x);
    let key = x.key();
    keyed::lemma_key_pos(s, key);
    match keyed::key_pos(s, key) {
        Some(p) => {
            keyed::lemma_put(s, x);
            if ascending(s) {
                assert forall|i: int, j: int| 0 <= i < j < t.len() implies text_lt(
                    (#[trigger] t[i]).key(),
                    (#[trigger] t[j]).key(),
                ) by {
                    assert(text_lt(s[i].key(), s[j].key()));
                }
            }
        },
        None => {
            let p = slot_from(s, key, 0);
            lemma_slot(s, key, 0);
            if ascending(s) {
                assert forall|i: int, j: int| 0 <= i < j < t.len() implies text_lt(
                    (#[trigger] t[i]).key(),
                    (#[trigger] t[j]).key(),
                ) by {
                    if j < p {
                        assert(text_lt(s[i].key(), s[j].key()));
                    } else if i > p {
                        assert(text_lt(s[i - 1].key(), s[j - 1].key()));
                    } else if i == p {
                        if j - 1 > p {
                            assert(text_lt(s[p].key(), s[j - 1].key()));
                            law_text_transitive(key, s[p].key(), s[j - 1].key());
                        }
                    } else if j == p {
                        assert(s[i].key() != key);
                        law_text_total(key, s[i].key());
                    } else {
                        assert(text_lt(s[i].key(), s[j - 1].key()));
                    }
                }
            }
            assert forall|k: int| 0 <= k < p implies (#[trigger] t[k]).key() != key by {
                assert(s[k].key() != key);
            }
            keyed::lemma_key_pos_is(t, key, p);
            assert forall|k: Seq<char>| k != key implies #[trigger] keyed::key_get(t, k)
                == keyed::key_get(s, k) by {
                keyed::lemma_key_pos(s, k);
                keyed::lemma_key_pos(t, k);
                match keyed::key_pos(s, k) {
                    Some(m) => {
                        let m2 = if m < p {
                            m
                        } else {
                            m + 1
                        };
                        assert(t[m2] == s[m]);
                        assert forall|j: int| 0 <= j < m2 implies (#[trigger] t[j]).key() != k by {
                            if j < p {
                                assert(s[j].key() != k);
                            } else if j > p {
                                assert(s[j - 1].key() != k);
                            }
                        }
                        keyed::lemma_key_pos_is(t, k, m2);
                    },
                    None => {
                        if keyed::key_pos(t, k) is Some {
                            let m = keyed::key_pos(t, k)->0;
                            assert(t[m].key() == k);
                            if m < p {
                                assert(s[m].key() != k);
                            } else if m > p {
                                assert(s[m - 1].key() != k);
                            }
                        }
                    },
                }
            }
        },
    }
}

/// Stores a record in place of the one with its key, or else in the order of the keys.
pub fn put_in_order<T: Keyed>(v: &mut Vec<T>, x: T)
    ensures
        final(v)@ == with_in_order(old(v)@, x),
{
    match position(v, x.key_str()) {
        Some(i) => {
            let mut slot: T = x;
            std::mem::swap(&mut v[i], &mut slot);
        },
        None => {
            let mut i: usize = 0;
            while i < v.len() && !text_less(x.key_str(), v[i].key_str())
                invariant
                    i <= v.len(),
                    v@ == old(v)@,
                    slot_from(v@, x.key(), 0) == slot_from(v@, x.key(), i as int),
                decreases v.len() - i,
            {
                i += 1;
            }
            v.insert(i, x);
        },
    }
}

/// Whether records stand in the order of their keys; equal keys may follow one another.
pub open spec fn nondescending<T: Keyed>(s: Seq<T>) -> bool {
    forall|i: int, j: int|
        0 <= i < j < s.len() ==> !text_lt((#[trigger] s[j]).key(), (#[trigger] s[i]).key())
}

/// The records with a given key, in the order in which they stand.
pub open spec fn with_the_key<T: Keyed>(s: Seq<T>, key: Seq<char>) -> Seq<T>
    decreases s.len(),
{
    if s.len() == 0 {
        s
    } else if s.last().key() == key {
        with_the_key(s.drop_last(), key).push(s.last())
    } else {
        with_the_key(s.drop_last(), key)
    }
}

/// Whether records are the same ones as others, sorted by key, with those of equal keys in the
/// order in which they stood.
pub open spec fn sorted_from<T: Keyed>(r: Seq<T>, s: Seq<T>) -> bool {
    &&& nondescending(r)
    &&& r.len() == s.len()
    &&& forall|key: Seq<char>| #[trigger] with_the_key(r, key) == with_the_key(s, key)
}

proof fn lemma_key_insert<T: Keyed>(s: Seq<T>, p: int, x: T, key: Seq<char>)
    requires
        0 <= p <= s.len(),
        forall|k: int| p <= k < s.len() ==> (#[trigger] s[k]).key() != x.key(),
    ensures
        with_the_key(s.insert(p, x), key) == if key == x.key() {
            with_the_key(s, key).push(x)
        } else {
            with_the_key(s, key)
        },
    decreases s.len(),
{
    let t = s.insert(p, x);
    if p == s.len() {
        assert(t.drop_last() =~= s);
    } else {
        assert(t.drop_last() =~= s.drop_last().insert(p, x));
        assert(t.last() == s.last());
        assert forall|k: int| p <= k < s.drop_last().len() implies (#[trigger] s.drop_last()[k]).key()
            != x.key() by {
            assert(s[k].key() != x.key());
        }
        lemma_key_insert(s.drop_last(), p, x, key);
        assert(s[s.len() - 1].key() != x.key());
    }
}

/// Adds a record to sorted ones, behind those with its key.
fn insert_sorted<T: Keyed>(v: &mut Vec<T>, x: T)
    requires
        nondescending(old(v)@),
    ensures
        nondescending(final(v)@),
        final(v)@.len() == old(v)@.len() + 1,
        forall|key: Seq<char>| #[trigger]
            with_the_key(final(v)@, key) == if key == x.key() {
                with_the_key(old(v)@, key).push(x)
            } else {
                with_the_key(old(v)@, key)
            },
{
    let mut i: usize = 0;
    while i < v.len() && !text_less(x.key_str(), v[i].key_str())
        invariant
            i <= v.len(),
            v@ == old(v)@,
            slot_from(v@, x.key(), 0) == slot_from(v@, x.key(), i as int),
        decreases v.len() - i,
    {
        i += 1;
    }
    let ghost s = v@;
    proof {
        lemma_slot(s, x.key(), 0);
        assert forall|k: int| i <= k < s.len() implies text_lt(x.key(), (#[trigger] s[k]).key()) by {
            if k > i {
                assert(!text_lt(s[k].key(), s[i as int].key()));
                if s[k].key() != s[i as int].key() {
                    law_text_total(s[k].key(), s[i as int].key());
                    law_text_transitive(x.key(), s[i as int].key(), s[k].key());
                }
            }
        }
        assert forall|k: int| i <= k < s.len() implies (#[trigger] s[k]).key() != x.key() by {
            law_text_irreflexive(x.key());
        }
        assert forall|key: Seq<char>| #[trigger]
            with_the_key(s.insert(i as int, x), key) == if key == x.key() {
                with_the_key(s, key).push(x)
            } else {
                with_the_key(s, key)
            } by {
            lemma_key_insert(s, i as int, x, key);
        }
        let t = s.insert(i as int, x);
        assert forall|a: int, b: int| 0 <= a < b < t.len() implies !text_lt(
            (#[trigger] t[b]).key(),
            (#[trigger] t[a]).key(),
        ) by {
            if b < i {
                assert(!text_lt(s[b].key(), s[a].key()));
            } else if a > i {
                assert(!text_lt(s[b - 1].key(), s[a - 1].key()));
            } else if a == i {
                if text_lt(s[b - 1].key(), x.key()) {
                    law_text_transitive(x.key(), s[b - 1].key(), x.key());
                    law_text_irreflexive(x.key());
                }
            } else if b == i {
                assert(!text_lt(x.key(), s[a].key()));
            } else {
                assert(!text_lt(s[b - 1].key(), s[a].key()));
            }
        }
    }
    v.insert(i, x);
}

/// The records sorted by key; those with equal keys stay in order.
pub fn sort_by_key<T: Keyed>(v: Vec<T>) -> (r: Vec<T>)
    ensures
        sorted_from(r@, v@),
{
    let mut out: Vec<T> = Vec::new();
    let ghost all = v@;
    assert(all.take(0) =~= Seq::<T>::empty());
    for x in it: v
        invariant
            it.seq() == all,
            nondescending(out@),
            out@.len() == it.index(),
            forall|key: Seq<char>| #[trigger]
                with_the_key(out@, key) == with_the_key(all.take(it.index() as int), key),
    {
        proof {
            let i = it.index() as int;
            assert(all.take(i + 1).drop_last() =~= all.take(i));
            assert(all.take(i + 1).last() == all[i]);
        }
        insert_sorted(&mut out, x);
    }
    assert(all.take(all.len() as int) =~= all);
    out
}

/// Leaving records out keeps the others in order.
pub proof fn lemma_filter_ascending<T: Keyed>(s: Seq<T>, p: spec_fn(T) -> bool)
    ensures
        ascending(s) ==> ascending(s.filter(p)),
        forall|i: int| 0 <= i < s.filter(p).len() ==> s.contains(#[trigger] s.filter(p)[i]),
    decreases s.len(),
{
    reveal(Seq::filter);
    if s.len() > 0 {
        let t = s.drop_last();
        lemma_filter_ascending(t, p);
        let f = s.filter(p);
        assert forall|i: int| 0 <= i < f.len() implies s.contains(#[trigger] f[i]) by {
            if i < t.filter(p).len() {
                let k = choose|k: int| 0 <= k < t.len() && t[k] == t.filter(p)[i];
                assert(s[k] == f[i]);
            } else {
                assert(s[s.len() - 1] == f[i]);
            }
        }
        if ascending(s) {
            assert(ascending(t)) by {
                assert forall|i: int, j: int| 0 <= i < j < t.len() implies text_lt(
                    (#[trigger] t[i]).key(),
                    (#[trigger] t[j]).key(),
                ) by {
                    assert(text_lt(s[i].key(), s[j].key()));
                }
            }
            assert forall|i: int, j: int| 0 <= i < j < f.len() implies text_lt(
                (#[trigger] f[i]).key(),
                (#[trigger] f[j]).key(),
            ) by {
                if j == t.filter(p).len() {
                    let k = choose|k: int| 0 <= k < t.len() && t[k] == t.filter(p)[i];
                    assert(text_lt(s[k].key(), s[s.len() - 1].key()));
                } else {
                    assert(text_lt(t.filter(p)[i].key(), t.filter(p)[j].key()));
                }
            }
        }
    }
}

} // verus!
