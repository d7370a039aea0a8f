//! Facts on texts and members of JSON objects that laws share.

use vstd::prelude::*;
use vstd::string::*;
use vstd::utf8::*;

use crate::json;
use crate::json::{JsonView, Members};
use crate::text;

verus! {

/// How many bytes a text of ASCII takes: one for each character.
pub proof fn lemma_ascii_bytes(s: Seq<char>)
    requires
        is_ascii_chars(s),
    ensures
        text::byte_count(s) == s.len(),
{
    is_ascii_chars_encode_utf8(s);
}

/// A whole number of 64 bits has twenty digits at most.
proof fn lemma_decimal_short(n: nat, digits: nat)
    requires
        n < pow10(digits),
        digits > 0,
    ensures
        text::decimal(n).len() <= digits,
        is_ascii_chars(text::decimal(n)),
    decreases digits,
{
    if n >= 10 {
        assert(digits > 1) by {
            if digits == 1 {
                assert(pow10(1) == 10 * pow10(0));
            }
        }
        assert(n / 10 < pow10((digits - 1) as nat));
        lemma_decimal_short(n / 10, (digits - 1) as nat);
    }
}

spec fn pow10(n: nat) -> nat
    decreases n,
{
    if n == 0 {
        1
    } else {
        10 * pow10((n - 1) as nat)
    }
}

/// The digits of a whole number of 64 bits are short enough for the value of a state.
pub proof fn lemma_number_short(n: u64)
    ensures
        text::byte_count(text::decimal(n as nat)) <= 255,
{
    reveal_with_fuel(pow10, 21);
    lemma_decimal_short(n as nat, 20);
    lemma_ascii_bytes(text::decimal(n as nat));
}

/// So are these words.
pub proof fn lemma_words_short()
    ensures
        text::byte_count("on"@) <= 255,
        text::byte_count("off"@) <= 255,
        text::byte_count("true"@) <= 255,
        text::byte_count("false"@) <= 255,
        text::byte_count("unknown"@) <= 255,
{
    reveal_strlit("on");
    reveal_strlit("off");
    lemma_ascii_bytes("on"@);
    reveal_strlit("true");
    reveal_strlit("false");
    reveal_strlit("unknown");
    lemma_ascii_bytes("off"@);
    lemma_ascii_bytes("true"@);
    lemma_ascii_bytes("false"@);
    lemma_ascii_bytes("unknown"@);
}

/// So are the digits of a number below zero, with the sign.
pub proof fn lemma_negative_short(n: i64)
    requires
        n < 0,
    ensures
        text::byte_count("-"@ + text::decimal((-n) as nat)) <= 255,
{
    reveal_with_fuel(pow10, 21);
    reveal_strlit("-");
    lemma_decimal_short((-n) as nat, 20);
    let s = "-"@ + text::decimal((-n) as nat);
    assert forall|i: int| 0 <= i < s.len() implies '\0' <= #[trigger] s[i] <= '\u{7f}' by {
        if i > 0 {
            assert(s[i] == text::decimal((-n) as nat)[i - 1]);
        }
    }
    lemma_ascii_bytes(s);
}

/// Setting a member leaves all others.
pub proof fn lemma_with(s: Members, name: Seq<char>, value: JsonView)
    ensures
        forall|other: Seq<char>| #[trigger]
            json::member(json::with_member(s, name, value), other) == (if other == name {
                Some(value)
            } else {
                json::member(s, other)
            }),
{
    assert forall|other: Seq<char>| #[trigger]
        json::member(json::with_member(s, name, value), other) == (if other == name {
            Some(value)
        } else {
            json::member(s, other)
        }) by {
        json::law_with_member(s, name, value, other);
    }
}

/// What stands in a text stands in one that goes on from it, and so does what it goes on with.
pub proof fn lemma_more(a: Seq<char>, b: Seq<char>)
    ensures
        text::has_text(a + b, b),
        forall|p: Seq<char>| #[trigger] text::has_text(a, p) ==> text::has_text(a + b, p),
{
    let whole = a + b;
    let i = a.len() as int;
    assert(whole.subrange(i, i + b.len()) =~= b);
    assert forall|p: Seq<char>| #[trigger] text::has_text(a, p) implies text::has_text(
        whole,
        p,
    ) by {
        let j = choose|j: int|
            0 <= j && j + p.len() <= a.len() && #[trigger] a.subrange(j, j + p.len()) == p;
        assert(whole.subrange(j, j + p.len()) =~= a.subrange(j, j + p.len()));
    }
}

/// What stands in a piece of a text stands in the text.
pub proof fn lemma_piece_within(whole: Seq<char>, piece: Seq<char>, part: Seq<char>)
    requires
        text::has_text(whole, piece),
        text::has_text(piece, part),
    ensures
        text::has_text(whole, part),
{
    let i = choose|i: int|
        0 <= i && i + piece.len() <= whole.len() && #[trigger] whole.subrange(i, i + piece.len())
            == piece;
    let j = choose|j: int|
        0 <= j && j + part.len() <= piece.len() && #[trigger] piece.subrange(j, j + part.len())
            == part;
    let k = i + j;
    assert(whole.subrange(k, k + part.len()) =~= part) by {
        assert forall|x: int| 0 <= x < part.len() implies whole.subrange(k, k + part.len())[x]
            == #[trigger] part[x] by {
            assert(piece.subrange(j, j + part.len())[x] == part[x]);
            assert(whole.subrange(i, i + piece.len())[j + x] == piece[j + x]);
        }
    }
}

} // verus!
