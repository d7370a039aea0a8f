//! What texts, numbers and dates stand for: laws over how they are read and written.

use vstd::prelude::*;
use vstd::string::*;
use vstd::utf8::*;

use crate::calendar;
use crate::calendar::{date_of, is_date_triple, month_len};
use crate::clock::iso_text;
use crate::ha_ws::hexadecimal;
use crate::text;
use crate::text::{
    decimal, is_digit, lowercased, number_of, padded, signed_of, slug_of, split, split_once,
    trimmed, trimmed_end, trimmed_start, white_space,
};
use crate::web::{encoded_byte, escaped_char, html_escaped, percent_decoded, percent_encoded};

verus! {

/// Whether a text is white space, if anything.
pub open spec fn blank(s: Seq<char>) -> bool {
    forall|i: int| 0 <= i < s.len() ==> white_space(#[trigger] s[i])
}

/// A text that is trimmed is the text without the white space at its ends, and has none there.
pub proof fn law_trimmed(s: Seq<char>)
    ensures
        exists|a: int, b: int|
            0 <= a <= b <= s.len() && #[trigger] s.subrange(a, b) == trimmed(s) && blank(s.take(a))
                && blank(s.skip(b)),
        trimmed(s).len() > 0 ==> !white_space(trimmed(s)[0]) && !white_space(trimmed(s).last()),
{
    let t = trimmed_start(s);
    lemma_start(s);
    lemma_end(t);
    let a = s.len() - t.len();
    let b = a + trimmed(s).len();
    assert(s.subrange(a, b) =~= trimmed(s)) by {
        assert(t =~= s.skip(a));
        assert(trimmed(s) =~= t.take(trimmed(s).len() as int));
    }
    assert forall|i: int| 0 <= i < s.skip(b).len() implies white_space(#[trigger] s.skip(b)[i]) by {
        assert(s.skip(b)[i] == t.skip(trimmed(s).len() as int)[i]);
    }
}

proof fn lemma_start(s: Seq<char>)
    ensures
        trimmed_start(s).len() <= s.len(),
        trimmed_start(s) == s.skip(s.len() - trimmed_start(s).len()),
        blank(s.take(s.len() - trimmed_start(s).len())),
        trimmed_start(s).len() > 0 ==> !white_space(trimmed_start(s)[0]),
    decreases s.len(),
{
    if s.len() > 0 && white_space(s[0]) {
        let rest = s.drop_first();
        lemma_start(rest);
        let t = trimmed_start(s);
        let n = s.len() - t.len();
        assert(t =~= s.skip(n)) by {
            assert(rest.skip(n - 1) =~= s.skip(n));
        }
        assert forall|i: int| 0 <= i < s.take(n).len() implies white_space(#[trigger] s.take(n)[i]) by {
            if i > 0 {
                assert(rest.take(n - 1)[i - 1] == s[i]);
            }
        }
    } else {
        assert(s.skip(0) =~= s);
    }
}

proof fn lemma_end(s: Seq<char>)
    ensures
        trimmed_end(s).len() <= s.len(),
        trimmed_end(s) == s.take(trimmed_end(s).len() as int),
        blank(s.skip(trimmed_end(s).len() as int)),
        trimmed_end(s).len() > 0 ==> !white_space(trimmed_end(s).last()) && trimmed_end(s)[0]
            == s[0],
    decreases s.len(),
{
    if s.len() > 0 && white_space(s.last()) {
        let rest = s.drop_last();
        lemma_end(rest);
        let n = trimmed_end(s).len() as int;
        assert(trimmed_end(s) =~= s.take(n));
        assert forall|i: int| 0 <= i < s.skip(n).len() implies white_space(#[trigger] s.skip(n)[i]) by {
            if n + i < rest.len() {
                assert(rest.skip(n)[i] == s[n + i]);
            }
        }
    } else {
        assert(s.take(s.len() as int) =~= s);
    }
}

/// A text of ASCII in lower case has the small letter for each capital, and the same character for
/// any other.
pub proof fn law_lowercased(s: Seq<char>, i: int)
    requires
        is_ascii_chars(s),
        0 <= i < s.len(),
    ensures
        lowercased(s).len() == s.len(),
        'A' <= s[i] && s[i] <= 'Z' ==> lowercased(s)[i] as int == s[i] as int + 32,
        !('A' <= s[i] && s[i] <= 'Z') ==> lowercased(s)[i] == s[i],
{
    assert(lowercased(s)[i] == text::ascii_lowercased(s[i]));
}

/// A slug has an underscore for each space, the letters, digits and underscores of the text, and
/// nothing for any other character, in order.
pub proof fn law_slug_joined(a: Seq<char>, b: Seq<char>, c: char)
    ensures
        slug_of(a + b) == slug_of(a) + slug_of(b),
        slug_of(seq![c]) == if c == ' ' || c == '_' {
            seq!['_']
        } else if text::alphanumeric(c) {
            seq![c]
        } else {
            Seq::empty()
        },
    decreases b.len(),
{
    let one = seq![c];
    assert(one.drop_last() =~= Seq::<char>::empty());
    assert(slug_of(Seq::<char>::empty()) =~= Seq::empty());
    if c == ' ' || c == '_' {
        assert(slug_of(one) =~= seq!['_']);
    } else if text::alphanumeric(c) {
        assert(slug_of(one) =~= seq![c]);
    } else {
        assert(slug_of(one) =~= Seq::empty());
    }
    if b.len() == 0 {
        assert(a + b =~= a);
        assert(slug_of(b) =~= Seq::empty());
    } else {
        law_slug_joined(a, b.drop_last(), c);
        assert((a + b).drop_last() =~= a + b.drop_last());
        assert(slug_of(a + b) =~= slug_of(a) + slug_of(b));
    }
}

/// A text is split once where a character stands first: the parts and the character between them
/// make up the text.
pub proof fn law_split_once(s: Seq<char>, c: char)
    ensures
        split_once(s, c) is Some <==> s.contains(c),
        split_once(s, c) matches Some((a, b)) ==> s == a.push(c) + b && !a.contains(c),
{
    text::lemma_find_char(s, c, 0);
    let p = text::find_char(s, c, 0);
    if p < s.len() {
        assert(s[p] == c);
        let a = s.take(p);
        assert(s =~= a.push(c) + s.skip(p + 1));
        if a.contains(c) {
            let k = choose|k: int| 0 <= k < a.len() && a[k] == c;
            assert(s[k] == c);
        }
    } else if s.contains(c) {
        let k = choose|k: int| 0 <= k < s.len() && s[k] == c;
        assert(s[k] != c);
    }
}

/// Texts without a character that stand with it between them are split into themselves.
pub proof fn law_split(a: Seq<char>, b: Seq<char>, c: char)
    requires
        !a.contains(c),
    ensures
        split(a, c) == seq![a],
        split(a.push(c) + b, c) == seq![a] + split(b, c),
{
    text::lemma_split_first(a, c, b);
    assert(seq![a] =~= Seq::empty().push(a));
}

/// A number is read as it is written; with a minus sign before it, it is read as the number below
/// zero. A text with anything but digits in it is no number.
pub proof fn law_number_read(n: u64, m: i64, s: Seq<char>, i: int)
    ensures
        number_of(decimal(n as nat)) == Some(n),
        m >= 0 ==> signed_of(decimal(m as nat)) == Some(m),
        m < 0 ==> signed_of(seq!['-'] + decimal((-m) as nat)) == Some(m),
        0 < i < s.len() && !is_digit(s[i]) ==> number_of(s) is None && signed_of(s) is None,
{
    lemma_read(n);
    if m >= 0 {
        lemma_read(m as u64);
        text::lemma_decimal_value(m as nat);
        assert(is_digit(decimal(m as nat)[0]));
    } else {
        let v = (-m) as u64;
        lemma_read(v);
        text::lemma_decimal_value(v as nat);
        assert(is_digit(decimal(v as nat)[0]));
        let t = seq!['-'] + decimal(v as nat);
        assert(t.skip(1) =~= decimal(v as nat));
    }
    if 0 < i < s.len() && !is_digit(s[i]) {
        lemma_no_number(s, i);
        lemma_no_number(s.skip(1), i - 1);
        if i > 1 {
            let u = s.skip(1);
            lemma_no_number(u.skip(1), i - 2);
        }
    }
}

proof fn lemma_read(n: u64)
    ensures
        number_of(decimal(n as nat)) == Some(n),
        decimal(n as nat).len() > 0,
{
    text::lemma_decimal_value(n as nat);
    let s = decimal(n as nat);
    assert(is_digit(s[0]));
}

proof fn lemma_no_number(s: Seq<char>, i: int)
    requires
        0 <= i < s.len(),
        !is_digit(s[i]),
    ensures
        text::digits_value(s) is None,
    decreases s.len(),
{
    if i < s.len() - 1 {
        assert(s.drop_last()[i] == s[i]);
        lemma_no_number(s.drop_last(), i);
    }
}

/// What a page shows of a text is each of its characters: the ones that mark up a page stand as
/// references, and any other as it is.
pub proof fn law_escaped_joined(a: Seq<char>, b: Seq<char>, c: char, quotes: bool)
    ensures
        html_escaped(a + b, quotes) == html_escaped(a, quotes) + html_escaped(b, quotes),
        html_escaped(seq![c], quotes) == if c == '&' {
            seq!['&', 'a', 'm', 'p', ';']
        } else if c == '<' {
            seq!['&', 'l', 't', ';']
        } else if c == '>' {
            seq!['&', 'g', 't', ';']
        } else if c == '"' && quotes {
            seq!['&', 'q', 'u', 'o', 't', ';']
        } else {
            seq![c]
        },
    decreases b.len(),
{
    reveal_strlit("&amp;");
    reveal_strlit("&lt;");
    reveal_strlit("&gt;");
    reveal_strlit("&quot;");
    let one = seq![c];
    assert(one.drop_last() =~= Seq::<char>::empty());
    assert(html_escaped(Seq::<char>::empty(), quotes) =~= Seq::empty());
    assert(html_escaped(one, quotes) =~= escaped_char(c, quotes));
    assert("&amp;"@ =~= seq!['&', 'a', 'm', 'p', ';']);
    assert("&lt;"@ =~= seq!['&', 'l', 't', ';']);
    assert("&gt;"@ =~= seq!['&', 'g', 't', ';']);
    assert("&quot;"@ =~= seq!['&', 'q', 'u', 'o', 't', ';']);
    if b.len() == 0 {
        assert(a + b =~= a);
        assert(html_escaped(b, quotes) =~= Seq::empty());
        assert(html_escaped(a + b, quotes) =~= html_escaped(a, quotes) + html_escaped(b, quotes));
    } else {
        law_escaped_joined(a, b.drop_last(), c, quotes);
        assert((a + b).drop_last() =~= a + b.drop_last());
        assert(html_escaped(a + b, quotes) =~= html_escaped(a, quotes) + html_escaped(b, quotes));
    }
}

/// The last day of a month in the Gregorian calendar.
pub open spec fn last_day(y: int, m: int) -> int {
    if m == 2 {
        if y % 400 == 0 || (y % 4 == 0 && y % 100 != 0) {
            29
        } else {
            28
        }
    } else if m == 4 || m == 6 || m == 9 || m == 11 {
        30
    } else {
        31
    }
}

/// Days are counted from the first of January 1970. The date of the next day is the next date: the
/// next day of the month or, after its last, the first of the next month.
pub proof fn law_next_day(days: int)
    requires
        days >= 0,
    ensures
        date_of(0) == (1970int, 1int, 1int),
        ({
            let (y, m, d) = date_of(days);
            date_of(days + 1) == if d < last_day(y, m) {
                (y, m, d + 1)
            } else if m < 12 {
                (y, m + 1, 1)
            } else {
                (y + 1, 1, 1)
            }
        }),
{
    assert(calendar::is_date(0, 1970, 1, 1)) by {
        assert(calendar::days_before(1970) == 0);
        assert(calendar::days_before_month(1970, 1) == 0);
    }
    calendar::lemma_date_of(0, 1970, 1, 1);
    calendar::lemma_date_exists(days);
    let t = date_of(days);
    let (y, m, d) = t;
    assert(is_date_triple(days, t));
    calendar::lemma_months(y);
    if d < month_len(y, m) {
        calendar::lemma_date_of(days + 1, y, m, d + 1);
    } else if m < 12 {
        assert(calendar::days_before_month(y, m + 1) == calendar::days_before_month(y, m)
            + month_len(y, m));
        calendar::lemma_date_of(days + 1, y, m + 1, 1);
    } else {
        assert(calendar::is_date_triple(days + 1, (y + 1, 1, 1)));
        calendar::lemma_date_of(days + 1, y + 1, 1, 1);
    }
}

/// Where the parts of a point in time stand in its text: the year, the month and the day, then the
/// hour, the minute, the second and the millionths of it.
pub proof fn law_iso_parts(secs: nat, micros: nat)
    requires
        secs < 253_402_300_800,
        micros < 1_000_000,
    ensures
        ({
            let s = iso_text(secs, micros);
            let (y, m, d) = date_of((secs / 86400) as int);
            &&& s.len() == 32
            &&& s.subrange(0, 4) == padded(y as nat, 4)
            &&& s.subrange(5, 7) == padded(m as nat, 2)
            &&& s.subrange(8, 10) == padded(d as nat, 2)
            &&& s.subrange(11, 13) == padded((secs % 86400 / 3600) as nat, 2)
            &&& s.subrange(14, 16) == padded((secs % 3600 / 60) as nat, 2)
            &&& s.subrange(17, 19) == padded((secs % 60) as nat, 2)
            &&& s.subrange(20, 26) == padded(micros, 6)
        }),
{
    let days = (secs / 86400) as int;
    calendar::lemma_date_exists(days);
    let (y, m, d) = date_of(days);
    assert(is_date_triple(days, date_of(days)));
    calendar::lemma_year_bound(days, y, m, d);
    text::lemma_decimal_len(y as nat);
    text::lemma_decimal_len(m as nat);
    text::lemma_decimal_len(d as nat);
    text::lemma_decimal_len(secs / 3600 % 24);
    text::lemma_decimal_len(secs / 60 % 60);
    text::lemma_decimal_len(secs % 60);
    text::lemma_decimal_len(micros);
    lemma_time_of_day(secs);
    lemma_layout(
        padded(y as nat, 4),
        padded(m as nat, 2),
        padded(d as nat, 2),
        padded(secs / 3600 % 24, 2),
        padded(secs / 60 % 60, 2),
        padded(secs % 60, 2),
        padded(micros, 6),
    );
}

proof fn lemma_time_of_day(secs: nat)
    ensures
        secs % 86400 / 3600 == secs / 3600 % 24,
        secs % 3600 / 60 == secs / 60 % 60,
{
    lemma_within(secs as int, 24, 3600);
    lemma_within(secs as int, 60, 60);
}

/// Which part of a larger span a number falls in.
proof fn lemma_within(n: int, count: int, size: int)
    requires
        n >= 0,
        count > 0,
        size > 0,
    ensures
        n % (count * size) / size == n / size % count,
{
    vstd::arithmetic::div_mod::lemma_mod_breakdown(n, size, count);
    vstd::arithmetic::mul::lemma_mul_is_commutative(count, size);
    let q = n / size % count;
    let low = n % size;
    vstd::arithmetic::mul::lemma_mul_is_commutative(size, q);
    assert(n % (size * count) == size * q + low);
    vstd::arithmetic::div_mod::lemma_fundamental_div_mod_converse(
        size * q + low,
        size,
        q,
        low,
    );
}

proof fn lemma_layout(
    y: Seq<char>,
    m: Seq<char>,
    d: Seq<char>,
    h: Seq<char>,
    mi: Seq<char>,
    s: Seq<char>,
    u: Seq<char>,
)
    requires
        y.len() == 4,
        m.len() == 2,
        d.len() == 2,
        h.len() == 2,
        mi.len() == 2,
        s.len() == 2,
        u.len() == 6,
    ensures
        ({
            let date = y + seq!['-'] + m + seq!['-'] + d;
            let t = date + seq!['T'] + h + seq![':'] + mi + seq![':'] + s + seq!['.'] + u + seq![
                '+',
                '0',
                '0',
                ':',
                '0',
                '0',
            ];
            &&& t.len() == 32
            &&& t.subrange(0, 4) == y
            &&& t.subrange(5, 7) == m
            &&& t.subrange(8, 10) == d
            &&& t.subrange(11, 13) == h
            &&& t.subrange(14, 16) == mi
            &&& t.subrange(17, 19) == s
            &&& t.subrange(20, 26) == u
        }),
{
    let date = y + seq!['-'] + m + seq!['-'] + d;
    let t = date + seq!['T'] + h + seq![':'] + mi + seq![':'] + s + seq!['.'] + u + seq![
        '+',
        '0',
        '0',
        ':',
        '0',
        '0',
    ];
    assert(t.subrange(0, 4) =~= y);
    assert(t.subrange(5, 7) =~= m);
    assert(t.subrange(8, 10) =~= d);
    assert(t.subrange(11, 13) =~= h);
    assert(t.subrange(14, 16) =~= mi);
    assert(t.subrange(17, 19) =~= s);
    assert(t.subrange(20, 26) =~= u);
}

/// A byte of a text in an address: letters, digits and the four marks stand for themselves, and any
/// other byte stands as a percent sign and two capital hexadecimal digits.
pub proof fn law_percent_encoded(a: Seq<u8>, b: Seq<u8>, c: u8)
    ensures
        percent_encoded(a + b) == percent_encoded(a) + percent_encoded(b),
        ({
            let plain = (97 <= c <= 122) || (65 <= c <= 90) || (48 <= c <= 57) || c == 45 || c == 46
                || c == 95 || c == 126;
            let e = percent_encoded(seq![c]);
            &&& plain ==> e == seq![c as char]
            &&& !plain ==> e.len() == 3 && e[0] == '%' && 16 * capital_hex(e[1]) + capital_hex(e[2])
                == c
        }),
    decreases a.len(),
{
    let one = seq![c];
    assert(one.skip(1) =~= Seq::<u8>::empty());
    assert(percent_encoded(Seq::<u8>::empty()) =~= Seq::empty());
    assert(percent_encoded(one) =~= encoded_byte(c));
    if a.len() == 0 {
        assert(a + b =~= b);
        assert(percent_encoded(a) + percent_encoded(b) =~= percent_encoded(b));
    } else {
        law_percent_encoded(a.skip(1), b, c);
        assert((a + b).skip(1) =~= a.skip(1) + b);
        assert(percent_encoded(a + b) =~= percent_encoded(a) + percent_encoded(b));
    }
}

/// What a capital hexadecimal digit stands for.
pub open spec fn capital_hex(c: char) -> int {
    if '0' <= c && c <= '9' {
        c as int - '0' as int
    } else {
        c as int - 'A' as int + 10
    }
}

/// A plus sign in an address is read as a space, a percent sign with two hexadecimal digits as the
/// byte that they stand for, and any other byte as itself.
pub proof fn law_percent_decoded(rest: Seq<u8>, c: u8, high: u8, low: u8)
    ensures
        percent_decoded(seq![43u8] + rest) == seq![32u8] + percent_decoded(rest),
        c != 43 && c != 37 ==> percent_decoded(seq![c] + rest) == seq![c] + percent_decoded(rest),
        48 <= high <= 57 && 48 <= low <= 57 ==> percent_decoded(seq![37u8, high, low] + rest)
            == seq![(16 * (high - 48) + (low - 48)) as u8] + percent_decoded(rest),
        65 <= high <= 70 && 65 <= low <= 70 ==> percent_decoded(seq![37u8, high, low] + rest)
            == seq![(16 * (high - 55) + (low - 55)) as u8] + percent_decoded(rest),
        97 <= high <= 102 && 97 <= low <= 102 ==> percent_decoded(seq![37u8, high, low] + rest)
            == seq![(16 * (high - 87) + (low - 87)) as u8] + percent_decoded(rest),
{
    assert((seq![43u8] + rest).skip(1) =~= rest);
    assert((seq![c] + rest).skip(1) =~= rest);
    let b = seq![37u8, high, low] + rest;
    assert(b.skip(3) =~= rest);
    assert(b[0] == 37 && b[1] == high && b[2] == low);
}

/// A name is that of a page if it ends with `.html`.
pub proof fn law_html_name(stem: Seq<char>, name: Seq<char>)
    ensures
        crate::templates::html_template(stem + ".html"@),
        crate::templates::html_template(name) ==> name.len() >= 5 && name.take(name.len() - 5)
            + ".html"@ == name,
{
    reveal_strlit(".html");
    assert((stem + ".html"@).skip(stem.len() as int) =~= ".html"@);
    if crate::templates::html_template(name) {
        assert(name.take(name.len() - 5) + ".html"@ =~= name);
    }
}

/// An id with hyphens and one without them are made of the same digits, in order.
pub proof fn law_unhyphenated(a: Seq<char>, b: Seq<char>)
    requires
        !a.contains('-'),
    ensures
        crate::ids::unhyphenated(a) == a,
        crate::ids::unhyphenated(b.push('-')) == crate::ids::unhyphenated(b),
        crate::ids::unhyphenated(b + a) == crate::ids::unhyphenated(b) + a,
    decreases a.len(),
{
    assert(b.push('-').drop_last() =~= b);
    if a.len() == 0 {
        assert(crate::ids::unhyphenated(a) =~= a);
        assert(b + a =~= b);
        assert(crate::ids::unhyphenated(b) + a =~= crate::ids::unhyphenated(b));
    } else {
        let front = a.drop_last();
        assert(a.last() != '-') by {
            assert(a.contains(a[a.len() - 1]));
        }
        assert(!front.contains('-')) by {
            if front.contains('-') {
                let k = choose|k: int| 0 <= k < front.len() && front[k] == '-';
                assert(a[k] == '-');
            }
        }
        law_unhyphenated(front, b);
        assert((b + a).drop_last() =~= b + front);
        assert(crate::ids::unhyphenated(a) =~= a);
        assert(crate::ids::unhyphenated(b + a) =~= crate::ids::unhyphenated(b) + a);
    }
}

/// The digits of a number to the base of sixteen stand for it.
pub proof fn law_hexadecimal(n: nat)
    ensures
        hexadecimal_value(hexadecimal(n)) == n,
    decreases n,
{
    if n < 16 {
        assert(hexadecimal(n).drop_last() =~= Seq::empty());
        assert(hexadecimal_value(Seq::empty()) == 0);
    } else {
        law_hexadecimal(n / 16);
        assert(hexadecimal(n).drop_last() =~= hexadecimal(n / 16));
    }
}

/// The number that digits to the base of sixteen stand for.
pub open spec fn hexadecimal_value(s: Seq<char>) -> int
    decreases s.len(),
{
    if s.len() == 0 {
        0
    } else {
        16 * hexadecimal_value(s.drop_last()) + if '0' <= s.last() && s.last() <= '9' {
            s.last() as int - '0' as int
        } else {
            s.last() as int - 'a' as int + 10
        }
    }
}

} // verus!
