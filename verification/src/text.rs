//! Text: comparing, searching and building strings as sequences of characters.

use vstd::prelude::*;
use vstd::string::*;
use vstd::utf8::*;

verus! {

/// `String::push` appends one character.
pub assume_specification[ String::push ](s: &mut String, c: char)
    ensures
        final(s)@ == old(s)@.push(c),
;

/// Whether two strings hold the same characters.
pub fn str_eq(a: &str, b: &str) -> (r: bool)
    ensures
        r == (a@ == b@),
{
    let x: &[u8] = a.as_bytes();
    let y: &[u8] = b.as_bytes();
    proof {
        encode_utf8_decode_utf8(a@);
        encode_utf8_decode_utf8(b@);
    }
    if x.len() != y.len() {
        return false;
    }
    let mut i: usize = 0;
    while i < x.len()
        invariant
            i <= x.len(),
            x.len() == y.len(),
            x@ == encode_utf8(a@),
            y@ == encode_utf8(b@),
            forall|j: int| 0 <= j < i ==> x@[j] == y@[j],
        decreases x.len() - i,
    {
        if x[i] != y[i] {
            return false;
        }
        i += 1;
    }
    assert(x@ =~= y@);
    true
}

/// The characters of a string, in order.
pub fn chars_of(s: &str) -> (r: Vec<char>)
    ensures
        r@ == s@,
{
    let mut out: Vec<char> = Vec::new();
    for c in it: s.chars()
        invariant
            out@ == it.seq().take(it.index() as int),
    {
        out.push(c);
    }
    out
}

/// The string of the given characters.
pub fn string_of(cs: &[char]) -> (r: String)
    ensures
        r@ == cs@,
{
    let mut out: String = String::new();
    let mut i: usize = 0;
    while i < cs.len()
        invariant
            i <= cs.len(),
            out@ == cs@.take(i as int),
        decreases cs.len() - i,
    {
        out.push(cs[i]);
        i += 1;
        assert(cs@.take(i as int) =~= cs@.take(i - 1).push(cs@[i - 1]));
    }
    assert(cs@.take(i as int) =~= cs@);
    out
}

/// Whether an optional string holds exactly `want`.
pub fn opt_is(s: &Option<String>, want: &str) -> (r: bool)
    ensures
        r == (s.deep_view() == Some(want@)),
{
    match s {
        Some(v) => str_eq(v.as_str(), want),
        None => false,
    }
}

/// Two strings, one after the other.
pub fn concat(a: &str, b: &str) -> (r: String)
    ensures
        r@ == a@ + b@,
{
    let mut out: String = a.to_owned();
    out.append(b);
    out
}

/// Whether a character is one of ASCII.
pub open spec fn is_ascii(c: char) -> bool {
    (c as u32) < 128
}

/// Whether a character is white space: whether it has the Unicode property White_Space.
pub open spec fn white_space(c: char) -> bool {
    let n = c as u32;
    ||| 0x9 <= n <= 0xd
    ||| n == 0x20
    ||| n == 0x85
    ||| n == 0xa0
    ||| n == 0x1680
    ||| 0x2000 <= n <= 0x200a
    ||| n == 0x2028
    ||| n == 0x2029
    ||| n == 0x202f
    ||| n == 0x205f
    ||| n == 0x3000
}

/// What `char::is_alphanumeric` says of a character.
pub uninterp spec fn unicode_alphanumeric(c: char) -> bool;

/// Whether a character is a letter or a number: of ASCII, the letters and the digits.
pub open spec fn alphanumeric(c: char) -> bool {
    if is_ascii(c) {
        ('a' <= c && c <= 'z') || ('A' <= c && c <= 'Z') || ('0' <= c && c <= '9')
    } else {
        unicode_alphanumeric(c)
    }
}

/// What `str::to_lowercase` makes of a text.
pub uninterp spec fn unicode_lowercased(s: Seq<char>) -> Seq<char>;

/// A character of ASCII in lower case.
pub open spec fn ascii_lowercased(c: char) -> char {
    if 'A' <= c && c <= 'Z' {
        ((c as u32 + 32) as u8) as char
    } else {
        c
    }
}

/// Whether a text has no upper-case letter of ASCII.
pub open spec fn no_upper(s: Seq<char>) -> bool {
    forall|i: int| 0 <= i < s.len() ==> !('A' <= #[trigger] s[i] && s[i] <= 'Z')
}

/// A text in lower case: one of ASCII character by character.
pub open spec fn lowercased(s: Seq<char>) -> Seq<char> {
    if is_ascii_chars(s) {
        s.map_values(|c: char| ascii_lowercased(c))
    } else {
        unicode_lowercased(s)
    }
}

/// `char::is_whitespace`: whether a character has the Unicode property White_Space, which twenty-five
/// characters have.
#[verifier::external_body]
pub(crate) fn is_whitespace(c: char) -> (r: bool)
    ensures
        r == white_space(c),
{
    c.is_whitespace()
}

/// `char::is_alphanumeric`: whether Unicode counts a character as a letter or a number. Of the
/// characters of ASCII, it does the letters and the digits; which others is not stated.
#[verifier::external_body]
pub(crate) fn is_alphanumeric(c: char) -> (r: bool)
    ensures
        r == unicode_alphanumeric(c),
        r == alphanumeric(c),
{
    c.is_alphanumeric()
}

/// `str::to_lowercase`: the text in lower case, by Unicode's rules. In a text of ASCII the letters
/// from `A` to `Z` become those from `a` to `z`, and nothing else changes. No text has letters from
/// `A` to `Z` afterwards; what else becomes of another text is not stated.
#[verifier::external_body]
pub(crate) fn to_lowercase(s: &str) -> (r: String)
    ensures
        r@ == unicode_lowercased(s@),
        r@ == lowercased(s@),
        no_upper(r@),
{
    s.to_lowercase()
}

/// A text without white space at its end.
pub open spec fn trimmed_end(s: Seq<char>) -> Seq<char>
    decreases s.len(),
{
    if s.len() > 0 && white_space(s.last()) {
        trimmed_end(s.drop_last())
    } else {
        s
    }
}

/// A text without white space at its start.
pub open spec fn trimmed_start(s: Seq<char>) -> Seq<char>
    decreases s.len(),
{
    if s.len() > 0 && white_space(s[0]) {
        trimmed_start(s.drop_first())
    } else {
        s
    }
}

/// A text without white space at either end.
pub open spec fn trimmed(s: Seq<char>) -> Seq<char> {
    trimmed_end(trimmed_start(s))
}

/// A string without white space at either end.
pub fn trim(s: &str) -> (r: String)
    ensures
        r@ == trimmed(s@),
{
    let cs: Vec<char> = chars_of(s);
    let n: usize = cs.len();
    let mut from: usize = 0;
    assert(cs@.skip(0) =~= cs@);
    while from < n && is_whitespace(cs[from])
        invariant
            from <= n,
            n == cs.len(),
            trimmed_start(cs@) == trimmed_start(cs@.skip(from as int)),
        decreases n - from,
    {
        assert(cs@.skip(from as int).drop_first() =~= cs@.skip(from + 1));
        from += 1;
    }
    let mut to: usize = n;
    assert(cs@.skip(from as int) =~= cs@.subrange(from as int, to as int));
    assert(trimmed_start(cs@) == cs@.subrange(from as int, to as int));
    while to > from && is_whitespace(cs[to - 1])
        invariant
            from <= to <= n,
            n == cs.len(),
            trimmed(cs@) == trimmed_end(cs@.subrange(from as int, to as int)),
        decreases to - from,
    {
        assert(cs@.subrange(from as int, to as int).drop_last() =~= cs@.subrange(
            from as int,
            to - 1,
        ));
        to -= 1;
    }
    let out: Vec<char> = copy_range(&cs, from, to);
    string_of(out.as_slice())
}

/// The characters from `from` up to `to`.
pub fn copy_range(cs: &Vec<char>, from: usize, to: usize) -> (r: Vec<char>)
    requires
        from <= to <= cs.len(),
    ensures
        r@ == cs@.subrange(from as int, to as int),
{
    let mut out: Vec<char> = Vec::new();
    let mut i: usize = from;
    while i < to
        invariant
            from <= i <= to <= cs.len(),
            out@ == cs@.subrange(from as int, i as int),
        decreases to - i,
    {
        out.push(cs[i]);
        i += 1;
        assert(cs@.subrange(from as int, i as int) =~= cs@.subrange(from as int, i - 1).push(
            cs@[i - 1],
        ));
    }
    out
}

/// What is left of a lower-case name in an identifier: spaces become underscores, and all but
/// letters, numbers and underscores goes.
pub open spec fn slug_of(s: Seq<char>) -> Seq<char>
    decreases s.len(),
{
    if s.len() == 0 {
        s
    } else {
        let rest = slug_of(s.drop_last());
        let c = if s.last() == ' ' {
            '_'
        } else {
            s.last()
        };
        if alphanumeric(c) || c == '_' {
            rest.push(c)
        } else {
            rest
        }
    }
}

/// What is left of a lower-case name in an identifier.
pub fn slug_chars(lower: &str) -> (r: String)
    ensures
        r@ == slug_of(lower@),
{
    let cs: Vec<char> = chars_of(lower);
    let mut out: Vec<char> = Vec::new();
    let mut i: usize = 0;
    while i < cs.len()
        invariant
            i <= cs.len(),
            out@ == slug_of(cs@.take(i as int)),
        decreases cs.len() - i,
    {
        let c: char = if cs[i] == ' ' {
            '_'
        } else {
            cs[i]
        };
        if is_alphanumeric(c) || c == '_' {
            out.push(c);
        }
        i += 1;
        assert(cs@.take(i as int).drop_last() =~= cs@.take(i - 1));
        assert(cs@.take(i as int).last() == cs@[i - 1]);
    }
    assert(cs@.take(i as int) =~= cs@);
    string_of(out.as_slice())
}

/// An identifier from a name: in lower case, with underscores for spaces, and only letters,
/// numbers and underscores.
pub fn slugify(name: &str) -> (r: String)
    ensures
        r@ == slug_of(lowercased(name@)),
        no_upper(r@),
{
    let lower: String = to_lowercase(name);
    proof {
        lemma_slug_no_upper(lower@);
    }
    slug_chars(lower.as_str())
}

proof fn lemma_slug_no_upper(s: Seq<char>)
    requires
        no_upper(s),
    ensures
        no_upper(slug_of(s)),
    decreases s.len(),
{
    if s.len() > 0 {
        let front = s.drop_last();
        assert forall|i: int| 0 <= i < front.len() implies !('A' <= #[trigger] front[i] && front[i]
            <= 'Z') by {
            assert(front[i] == s[i]);
        }
        lemma_slug_no_upper(front);
        assert(s.last() == s[s.len() - 1]);
    }
}

/// A text of lower-case letters, digits and underscores is the identifier of itself.
proof fn lemma_slug_same(s: Seq<char>)
    requires
        forall|i: int|
            0 <= i < s.len() ==> is_ascii(#[trigger] s[i]) && (alphanumeric(s[i]) || s[i] == '_'),
    ensures
        slug_of(s) == s,
    decreases s.len(),
{
    if s.len() > 0 {
        let front = s.drop_last();
        assert forall|i: int| 0 <= i < front.len() implies is_ascii(#[trigger] front[i]) && (
        alphanumeric(front[i]) || front[i] == '_') by {
            assert(front[i] == s[i]);
        }
        lemma_slug_same(front);
        assert(s.last() == s[s.len() - 1]);
        assert(front.push(s.last()) =~= s);
    }
}

proof fn lemma_slug_ascii(s: Seq<char>)
    requires
        is_ascii_chars(s),
    ensures
        is_ascii_chars(slug_of(s)),
    decreases s.len(),
{
    if s.len() > 0 {
        let front = s.drop_last();
        assert forall|i: int| 0 <= i < front.len() implies '\0' <= #[trigger] front[i] <= '\u{7f}' by {
            assert(front[i] == s[i]);
        }
        lemma_slug_ascii(front);
        assert(s.last() == s[s.len() - 1]);
    }
}

/// The identifier of an identifier is itself, for a name of ASCII, and it has no upper-case letter.
pub proof fn law_slug_again(name: Seq<char>)
    requires
        is_ascii_chars(name),
    ensures
        ({
            let slug = slug_of(lowercased(name));
            &&& slug_of(lowercased(slug)) == slug
            &&& no_upper(slug)
        }),
{
    let lower = lowercased(name);
    assert forall|i: int| 0 <= i < lower.len() implies '\0' <= #[trigger] lower[i] <= '\u{7f}'
        && !('A' <= lower[i] && lower[i] <= 'Z') by {
        assert(lower[i] == ascii_lowercased(name[i]));
    }
    let slug = slug_of(lower);
    lemma_slug_ascii(lower);
    lemma_slug_no_upper(lower);
    law_slug_alphabet(lower);
    assert(lowercased(slug) =~= slug) by {
        assert forall|i: int| 0 <= i < slug.len() implies #[trigger] lowercased(slug)[i]
            == slug[i] by {
            assert(lowercased(slug)[i] == ascii_lowercased(slug[i]));
        }
    }
    lemma_slug_same(slug);
}

/// An identifier holds letters, numbers and underscores only.
pub proof fn law_slug_alphabet(s: Seq<char>)
    ensures
        forall|i: int|
            0 <= i < slug_of(s).len() ==> alphanumeric(#[trigger] slug_of(s)[i]) || slug_of(s)[i]
                == '_',
        slug_of(s).len() <= s.len(),
    decreases s.len(),
{
    if s.len() > 0 {
        law_slug_alphabet(s.drop_last());
    }
}

/// How many bytes a text takes in UTF-8.
pub open spec fn byte_count(s: Seq<char>) -> nat {
    encode_utf8(s).len()
}

/// How many bytes a string takes in UTF-8.
pub fn byte_len(s: &str) -> (r: usize)
    ensures
        r == byte_count(s@),
{
    s.as_bytes().len()
}

/// The character of a decimal digit.
pub open spec fn digit(n: nat) -> char
    recommends
        n < 10,
{
    (48 + n) as char
}

/// A number in decimal, without leading zeros.
pub open spec fn decimal(n: nat) -> Seq<char>
    decreases n,
{
    if n < 10 {
        seq![digit(n)]
    } else {
        decimal(n / 10).push(digit(n % 10))
    }
}

/// `n` times the character `0`.
pub open spec fn zeros(n: int) -> Seq<char> {
    Seq::new(
        if n > 0 {
            n as nat
        } else {
            0
        },
        |i: int| '0',
    )
}

/// A number in decimal, filled up with zeros on the left to at least `width` characters.
pub open spec fn padded(n: nat, width: nat) -> Seq<char> {
    zeros(width - decimal(n).len()) + decimal(n)
}

/// How many characters a number takes in decimal, for numbers of a few digits.
pub proof fn lemma_decimal_len(n: nat)
    ensures
        decimal(n).len() >= 1,
        n < 10 ==> decimal(n).len() == 1,
        10 <= n < 100 ==> decimal(n).len() == 2,
        100 <= n < 1000 ==> decimal(n).len() == 3,
        1000 <= n < 10000 ==> decimal(n).len() == 4,
        10000 <= n < 100000 ==> decimal(n).len() == 5,
        100000 <= n < 1000000 ==> decimal(n).len() == 6,
    decreases n,
{
    if n >= 10 {
        lemma_decimal_len(n / 10);
    }
}

/// The decimal digit character of a number below ten.
pub fn digit_char(n: u64) -> (r: char)
    requires
        n < 10,
    ensures
        r == digit(n as nat),
{
    ((48 + n) as u8) as char
}

/// A number in decimal.
pub fn decimal_string(n: u64) -> (r: String)
    ensures
        r@ == decimal(n as nat),
    decreases n,
{
    if n < 10 {
        let mut out: String = String::new();
        out.push(digit_char(n));
        assert(out@ =~= seq![digit(n as nat)]);
        out
    } else {
        let mut out: String = decimal_string(n / 10);
        out.push(digit_char(n % 10));
        out
    }
}

/// Appends a number in decimal, filled up with zeros on the left to at least `width` characters.
pub fn push_padded(out: &mut String, n: u64, width: usize)
    requires
        width <= 20,
    ensures
        final(out)@ == old(out)@ + padded(n as nat, width as nat),
{
    let digits: String = decimal_string(n);
    let len: usize = chars_of(digits.as_str()).len();
    let ghost before = out@;
    let mut k: usize = len;
    while k < width
        invariant
            len <= k,
            k <= width || k == len,
            len == decimal(n as nat).len(),
            out@ == before + zeros(k - len),
        decreases width - k,
    {
        out.push('0');
        k += 1;
        assert(before + zeros(k - len) =~= (before + zeros(k - 1 - len)).push('0'));
    }
    out.append(digits.as_str());
    assert(out@ =~= before + padded(n as nat, width as nat));
}

/// The first position at or after `i` that holds a character, or the length.
pub open spec fn find_char(s: Seq<char>, c: char, i: int) -> int
    decreases s.len() - i,
{
    if i < 0 || i >= s.len() {
        s.len() as int
    } else if s[i] == c {
        i
    } else {
        find_char(s, c, i + 1)
    }
}

/// The pieces of a text between the places where a character stands.
pub open spec fn split(s: Seq<char>, c: char) -> Seq<Seq<char>>
    decreases s.len(),
    when s.len() >= 0
    via split_decreases
{
    let p = find_char(s, c, 0);
    if p >= s.len() {
        Seq::empty().push(s)
    } else {
        Seq::empty().push(s.take(p)) + split(s.skip(p + 1), c)
    }
}

#[via_fn]
proof fn split_decreases(s: Seq<char>, c: char) {
    lemma_find_char(s, c, 0);
}

/// What a found position is: the character stands there, and nowhere before.
pub proof fn lemma_find_char(s: Seq<char>, c: char, i: int)
    requires
        0 <= i <= s.len(),
    ensures
        i <= find_char(s, c, i) <= s.len(),
        find_char(s, c, i) < s.len() ==> s[find_char(s, c, i)] == c,
        forall|k: int| i <= k < find_char(s, c, i) ==> #[trigger] s[k] != c,
    decreases s.len() - i,
{
    if i < s.len() && s[i] != c {
        lemma_find_char(s, c, i + 1);
    }
}

/// The first position at or after `from` that holds a character, or the length.
pub fn position_of(cs: &Vec<char>, c: char, from: usize) -> (r: usize)
    requires
        from <= cs.len(),
    ensures
        r == find_char(cs@, c, from as int),
        from <= r <= cs.len(),
        r < cs.len() ==> cs@[r as int] == c,
{
    let mut i: usize = from;
    while i < cs.len()
        invariant
            from <= i <= cs.len(),
            find_char(cs@, c, from as int) == find_char(cs@, c, i as int),
        decreases cs.len() - i,
    {
        if cs[i] == c {
            return i;
        }
        i += 1;
    }
    i
}

proof fn lemma_find_char_skip(s: Seq<char>, c: char, from: int, i: int)
    requires
        0 <= from <= i <= s.len(),
    ensures
        find_char(s.skip(from), c, i - from) == find_char(s, c, i) - from,
    decreases s.len() - i,
{
    if i < s.len() {
        assert(s.skip(from)[i - from] == s[i]);
        if s[i] != c {
            lemma_find_char_skip(s, c, from, i + 1);
        }
    }
}

/// The pieces of a string between the places where a character stands.
pub fn split_on(s: &str, c: char) -> (r: Vec<String>)
    ensures
        r.deep_view() == split(s@, c),
{
    let cs: Vec<char> = chars_of(s);
    let mut out: Vec<String> = Vec::new();
    let mut from: usize = 0;
    assert(out.deep_view() =~= Seq::<Seq<char>>::empty());
    assert(cs@.skip(0) =~= cs@);
    loop
        invariant
            from <= cs.len(),
            cs@ == s@,
            split(cs@, c) =~= out.deep_view() + split(cs@.skip(from as int), c),
        decreases cs.len() - from,
    {
        let p: usize = position_of(&cs, c, from);
        let ghost rest = cs@.skip(from as int);
        proof {
            lemma_find_char_skip(cs@, c, from as int, from as int);
        }
        let piece: Vec<char> = copy_range(&cs, from, p);
        let ghost before = out.deep_view();
        assert(piece@ =~= rest.take(p - from));
        out.push(string_of(piece.as_slice()));
        assert(out.deep_view() =~= before.push(piece@));
        if p == cs.len() {
            assert(rest.take(p - from) =~= rest);
            return out;
        }
        assert(rest.skip(p - from + 1) =~= cs@.skip(p + 1));
        from = p + 1;
    }
}

/// The parts of a text before and after the first place where a character stands.
pub open spec fn split_once(s: Seq<char>, c: char) -> Option<(Seq<char>, Seq<char>)> {
    let p = find_char(s, c, 0);
    if p < s.len() {
        Some((s.take(p), s.skip(p + 1)))
    } else {
        None
    }
}

/// The parts of a string before and after the first place where a character stands.
pub fn split_once_on(s: &str, c: char) -> (r: Option<(String, String)>)
    ensures
        match r {
            Some(pair) => split_once(s@, c) == Some((pair.0@, pair.1@)),
            None => split_once(s@, c) is None,
        },
{
    let cs: Vec<char> = chars_of(s);
    let p: usize = position_of(&cs, c, 0);
    if p == cs.len() {
        return None;
    }
    let a: Vec<char> = copy_range(&cs, 0, p);
    let b: Vec<char> = copy_range(&cs, p + 1, cs.len());
    assert(a@ =~= cs@.take(p as int));
    assert(b@ =~= cs@.skip(p + 1));
    Some((string_of(a.as_slice()), string_of(b.as_slice())))
}

/// Whether a string starts with another.
pub fn starts_with(s: &str, prefix: &str) -> (r: bool)
    ensures
        r == prefix@.is_prefix_of(s@),
{
    let a: Vec<char> = chars_of(s);
    let b: Vec<char> = chars_of(prefix);
    if b.len() > a.len() {
        return false;
    }
    let mut i: usize = 0;
    while i < b.len()
        invariant
            i <= b.len() <= a.len(),
            a@ == s@,
            b@ == prefix@,
            forall|k: int| 0 <= k < i ==> a@[k] == b@[k],
        decreases b.len() - i,
    {
        if a[i] != b[i] {
            assert(s@.subrange(0, b.len() as int)[i as int] != prefix@[i as int]);
            return false;
        }
        i += 1;
    }
    assert(prefix@ =~= s@.subrange(0, prefix@.len() as int));
    true
}

/// Whether a text holds another.
pub open spec fn has_text(s: Seq<char>, part: Seq<char>) -> bool {
    exists|i: int|
        0 <= i && i + part.len() <= s.len() && #[trigger] s.subrange(i, i + part.len()) == part
}

/// Whether a string holds another.
pub fn contains_text(s: &str, part: &str) -> (r: bool)
    ensures
        r == has_text(s@, part@),
{
    let a: Vec<char> = chars_of(s);
    let b: Vec<char> = chars_of(part);
    if b.len() > a.len() {
        return false;
    }
    let last: usize = a.len() - b.len();
    let mut i: usize = 0;
    while i <= last
        invariant
            last == a.len() - b.len(),
            b.len() <= a.len(),
            i <= last + 1,
            a@ == s@,
            b@ == part@,
            forall|k: int| 0 <= k < i ==> #[trigger] s@.subrange(k, k + part@.len()) != part@,
        decreases last + 1 - i,
    {
        let mut j: usize = 0;
        while j < b.len() && a[i + j] == b[j]
            invariant
                j <= b.len(),
                i <= last,
                last == a.len() - b.len(),
                b.len() <= a.len(),
                forall|k: int| 0 <= k < j ==> #[trigger] a@[i + k] == b@[k],
            decreases b.len() - j,
        {
            j += 1;
        }
        if j == b.len() {
            assert forall|k: int| 0 <= k < part@.len() implies #[trigger] s@.subrange(
                i as int,
                i + part@.len(),
            )[k] == part@[k] by {
                assert(a@[i + k] == b@[k]);
            }
            assert(s@.subrange(i as int, i + part@.len()) =~= part@);
            return true;
        }
        assert(s@.subrange(i as int, i + part@.len())[j as int] != part@[j as int]);
        if i == last {
            return false;
        }
        i += 1;
    }
    false
}

/// An optional text, or an empty one.
pub open spec fn or_empty(s: Option<Seq<char>>) -> Seq<char> {
    match s {
        Some(v) => v,
        None => Seq::empty(),
    }
}

/// Copies of texts.
pub fn copy_strings(v: &Vec<String>) -> (r: Vec<String>)
    ensures
        r@ == v@,
        r.deep_view() == v.deep_view(),
{
    let mut out: Vec<String> = Vec::new();
    let mut i: usize = 0;
    while i < v.len()
        invariant
            i <= v.len(),
            out@ == v@.take(i as int),
        decreases v.len() - i,
    {
        out.push(v[i].clone());
        i += 1;
        assert(v@.take(i as int) =~= v@.take(i - 1).push(v@[i - 1]));
    }
    assert(v@.take(i as int) =~= v@);
    assert(out.deep_view() =~= v.deep_view());
    out
}

/// Whether a character is a decimal digit.
pub open spec fn is_digit(c: char) -> bool {
    '0' <= c && c <= '9'
}

/// The number that decimal digits make; nothing if a character is none.
pub open spec fn digits_value(s: Seq<char>) -> Option<nat>
    decreases s.len(),
{
    if s.len() == 0 {
        Some(0)
    } else {
        match digits_value(s.drop_last()) {
            Some(v) => if is_digit(s.last()) {
                Some(v * 10 + (s.last() as u32 - 48) as nat)
            } else {
                None
            },
            None => None,
        }
    }
}

/// The number that a text stands for: digits, with a plus sign before them or not, and no more
/// than 64 bits hold.
pub open spec fn number_of(s: Seq<char>) -> Option<u64> {
    let digits = if s.len() > 0 && s[0] == '+' {
        s.skip(1)
    } else {
        s
    };
    if digits.len() == 0 {
        None
    } else {
        match digits_value(digits) {
            Some(v) => if v <= u64::MAX {
                Some(v as u64)
            } else {
                None
            },
            None => None,
        }
    }
}

proof fn lemma_digits_grow(s: Seq<char>, i: int)
    requires
        0 <= i <= s.len(),
    ensures
        digits_value(s.take(i)) is None ==> digits_value(s) is None,
        digits_value(s.take(i)) matches Some(v) ==> (digits_value(s) matches Some(w) ==> w >= v),
    decreases s.len() - i,
{
    if i < s.len() {
        lemma_digits_grow(s, i + 1);
        assert(s.take(i + 1).drop_last() =~= s.take(i));
    } else {
        assert(s.take(i) =~= s);
    }
}

/// The number that a text stands for.
pub fn parse_number(s: &str) -> (r: Option<u64>)
    ensures
        r == number_of(s@),
{
    let cs: Vec<char> = chars_of(s);
    let start: usize = if cs.len() > 0 && cs[0] == '+' {
        1
    } else {
        0
    };
    let ghost digits = cs@.skip(start as int);
    assert(start == 0 ==> digits =~= s@);
    if start == cs.len() {
        return None;
    }
    let mut value: u64 = 0;
    let mut i: usize = start;
    assert(digits.take(0) =~= Seq::empty());
    while i < cs.len()
        invariant
            start <= i <= cs.len(),
            cs@ == s@,
            start == if s@.len() > 0 && s@[0] == '+' {
                1int
            } else {
                0
            },
            digits == cs@.skip(start as int),
            start == 0 ==> digits == s@,
            digits.len() > 0,
            digits_value(digits.take(i - start)) == Some(value as nat),
        decreases cs.len() - i,
    {
        let c: char = cs[i];
        proof {
            assert(digits.take(i - start + 1).drop_last() =~= digits.take(i - start));
            assert(digits.take(i - start + 1).last() == c);
            lemma_digits_grow(digits, i - start + 1);
        }
        if !('0' <= c && c <= '9') {
            return None;
        }
        let d: u64 = (c as u32 - 48) as u64;
        if value > (u64::MAX - d) / 10 {
            assert(value * 10 + d > u64::MAX);
            return None;
        }
        value = value * 10 + d;
        i += 1;
    }
    assert(digits.take(i - start) =~= digits);
    Some(value)
}

/// The numbers among texts; those that stand for none are left out.
pub open spec fn numbers_of(s: Seq<Seq<char>>) -> Seq<u64>
    decreases s.len(),
{
    if s.len() == 0 {
        Seq::empty()
    } else {
        match number_of(s.last()) {
            Some(n) => numbers_of(s.drop_last()).push(n),
            None => numbers_of(s.drop_last()),
        }
    }
}

/// The numbers among strings; those that stand for none are left out.
pub fn parse_numbers(v: &Vec<String>) -> (r: Vec<u64>)
    ensures
        r@ == numbers_of(v.deep_view()),
{
    let ghost all = v.deep_view();
    let mut out: Vec<u64> = Vec::new();
    let mut i: usize = 0;
    assert(all.take(0) =~= Seq::empty());
    while i < v.len()
        invariant
            i <= v.len(),
            all == v.deep_view(),
            out@ == numbers_of(all.take(i as int)),
        decreases v.len() - i,
    {
        proof {
            assert(all.take(i + 1).drop_last() =~= all.take(i as int));
            assert(all.take(i + 1).last() == v@[i as int]@);
        }
        if let Some(n) = parse_number(v[i].as_str()) {
            out.push(n);
        }
        i += 1;
    }
    assert(all.take(i as int) =~= all);
    out
}

/// A number in decimal is a text of digits that stands for it.
pub proof fn lemma_decimal_value(n: nat)
    ensures
        digits_value(decimal(n)) == Some(n),
        forall|i: int| 0 <= i < decimal(n).len() ==> is_digit(#[trigger] decimal(n)[i]),
    decreases n,
{
    if n < 10 {
        assert(digit(n) as u32 == 48 + n);
        assert(decimal(n).drop_last() =~= Seq::empty());
        assert(digits_value(Seq::empty()) == Some(0nat));
    } else {
        lemma_decimal_value(n / 10);
        assert(digit(n % 10) as u32 == 48 + n % 10);
        assert(decimal(n).drop_last() =~= decimal(n / 10));
    }
}

proof fn lemma_zeros_value(k: int)
    requires
        k >= 0,
    ensures
        digits_value(zeros(k)) == Some(0nat),
    decreases k,
{
    if k > 0 {
        lemma_zeros_value(k - 1);
        assert(zeros(k).drop_last() =~= zeros(k - 1));
    }
}

proof fn lemma_leading_zeros(k: int, s: Seq<char>)
    requires
        k >= 0,
    ensures
        digits_value(zeros(k) + s) == digits_value(s),
    decreases s.len(),
{
    if s.len() == 0 {
        lemma_zeros_value(k);
        assert(zeros(k) + s =~= zeros(k));
    } else {
        lemma_leading_zeros(k, s.drop_last());
        assert((zeros(k) + s).drop_last() =~= zeros(k) + s.drop_last());
    }
}

/// A number stands for itself, however many zeros are before it.
pub proof fn law_padded_number(n: u64, width: nat)
    ensures
        number_of(padded(n as nat, width)) == Some(n),
        forall|i: int|
            0 <= i < padded(n as nat, width).len() ==> is_digit(
                #[trigger] padded(n as nat, width)[i],
            ),
        padded(n as nat, width).len() >= 1,
{
    let s = padded(n as nat, width);
    lemma_decimal_value(n as nat);
    lemma_decimal_len(n as nat);
    let k = width - decimal(n as nat).len();
    if k > 0 {
        lemma_leading_zeros(k, decimal(n as nat));
    } else {
        assert(s =~= decimal(n as nat));
    }
    assert forall|i: int| 0 <= i < s.len() implies is_digit(#[trigger] s[i]) by {
        if i >= s.len() - decimal(n as nat).len() {
            assert(s[i] == decimal(n as nat)[i - (s.len() - decimal(n as nat).len())]);
        }
    }
    assert(is_digit(s[0]));
}

/// A text is split at the first place where a character stands.
pub proof fn lemma_split_first(a: Seq<char>, c: char, b: Seq<char>)
    requires
        !a.contains(c),
    ensures
        split_once(a.push(c) + b, c) == Some((a, b)),
        split(a.push(c) + b, c) == Seq::empty().push(a) + split(b, c),
        split(a, c) == Seq::empty().push(a),
{
    let s = a.push(c) + b;
    lemma_find_char(s, c, 0);
    let p = find_char(s, c, 0);
    assert(s[a.len() as int] == c);
    if p < a.len() {
        assert(s[p] == a[p]);
        assert(a.contains(a[p]));
    }
    assert(p == a.len());
    assert(s.take(p) =~= a);
    assert(s.skip(p + 1) =~= b);
    lemma_find_char(a, c, 0);
    let q = find_char(a, c, 0);
    if q < a.len() {
        assert(a.contains(a[q]));
    }
}

/// The number that a text with a sign or without one stands for.
pub open spec fn signed_of(s: Seq<char>) -> Option<i64> {
    if s.len() > 0 && s[0] == '-' {
        let digits = s.skip(1);
        if digits.len() == 0 || digits[0] == '+' {
            None
        } else {
            match number_of(digits) {
                Some(v) => if v <= 0x8000_0000_0000_0000 {
                    Some((0 - v) as i64)
                } else {
                    None
                },
                None => None,
            }
        }
    } else {
        match number_of(s) {
            Some(v) => if v <= i64::MAX {
                Some(v as i64)
            } else {
                None
            },
            None => None,
        }
    }
}

/// The number that a text with a sign or without one stands for.
pub fn parse_signed(s: &str) -> (r: Option<i64>)
    ensures
        r == signed_of(s@),
{
    let cs: Vec<char> = chars_of(s);
    if cs.len() > 0 && cs[0] == '-' {
        let rest: Vec<char> = copy_range(&cs, 1, cs.len());
        assert(rest@ =~= s@.skip(1));
        if rest.len() == 0 || rest[0] == '+' {
            return None;
        }
        match parse_number(string_of(rest.as_slice()).as_str()) {
            Some(v) => if v == 0x8000_0000_0000_0000 {
                Some(i64::MIN)
            } else if v < 0x8000_0000_0000_0000 {
                Some(-(v as i64))
            } else {
                None
            },
            None => None,
        }
    } else {
        match parse_number(s) {
            Some(v) => if v <= 0x7fff_ffff_ffff_ffff {
                Some(v as i64)
            } else {
                None
            },
            None => None,
        }
    }
}

} // verus!
