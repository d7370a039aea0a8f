//! Reading points in time.

use vstd::prelude::*;
use vstd::string::*;

use crate::calendar;
use crate::calendar::is_leap;
use crate::clock;
use crate::text;
use crate::text::{chars_of, copy_range, parse_numbers, split_on, split_once_on, string_of};

verus! {

/// A point in time: whole seconds since 1970-01-01, and the digits after the decimal point, if
/// there is one.
pub struct Epoch {
    pub secs: u64,
    pub fraction: Option<String>,
}

/// The mathematical value of an [`Epoch`].
pub struct EpochModel {
    pub secs: u64,
    pub fraction: Option<Seq<char>>,
}

impl View for Epoch {
    type V = EpochModel;

    open spec fn view(&self) -> EpochModel {
        EpochModel { secs: self.secs, fraction: self.fraction.deep_view() }
    }
}

/// A text without a suffix, however often it ends with it.
pub open spec fn without_suffix(s: Seq<char>, suffix: Seq<char>) -> Seq<char>
    decreases s.len(),
{
    if suffix.len() > 0 && s.len() >= suffix.len() && s.skip(s.len() - suffix.len()) == suffix {
        without_suffix(s.take(s.len() - suffix.len()), suffix)
    } else {
        s
    }
}

/// A text without a suffix, however often it ends with it.
fn drop_suffix(s: &str, suffix: &str) -> (r: String)
    ensures
        r@ == without_suffix(s@, suffix@),
{
    let cs: Vec<char> = chars_of(s);
    let tail: Vec<char> = chars_of(suffix);
    let k: usize = tail.len();
    let mut n: usize = cs.len();
    assert(cs@.take(n as int) =~= cs@);
    while k > 0 && n >= k && ends_with(&cs, n, &tail)
        invariant
            k == tail.len(),
            tail@ == suffix@,
            n <= cs.len(),
            without_suffix(s@, suffix@) == without_suffix(cs@.take(n as int), suffix@),
        decreases n,
    {
        assert(cs@.take(n as int).take(n - k) =~= cs@.take(n - k));
        n -= k;
    }
    let kept: Vec<char> = copy_range(&cs, 0, n);
    assert(kept@ =~= cs@.take(n as int));
    string_of(kept.as_slice())
}

/// Whether the first `n` characters end with others.
fn ends_with(cs: &Vec<char>, n: usize, tail: &Vec<char>) -> (r: bool)
    requires
        tail@.len() <= n <= cs@.len(),
    ensures
        r == (cs@.take(n as int).skip(n - tail@.len()) == tail@),
{
    let ghost end = cs@.take(n as int).skip(n - tail@.len());
    let mut i: usize = 0;
    while i < tail.len()
        invariant
            i <= tail@.len(),
            tail@.len() <= n <= cs@.len(),
            end == cs@.take(n as int).skip(n - tail@.len()),
            forall|k: int| 0 <= k < i ==> #[trigger] end[k] == tail@[k],
        decreases tail.len() - i,
    {
        if cs[n - tail.len() + i] != tail[i] {
            assert(end[i as int] != tail@[i as int]);
            return false;
        }
        i += 1;
    }
    assert(end =~= tail@);
    true
}

/// The seconds from 1970-01-01 to a time of a day. Years before 1970 count as that one, and the
/// month may be one more than there are.
pub open spec fn seconds_at(y: u64, m: u64, d: u64, h: u64, mi: u64, s: u64) -> int {
    (calendar::days_before(y as int) + calendar::days_before_month(y as int, m as int) + d - 1)
        * 86400 + h * 3600 + mi * 60 + s
}

/// The seconds from 1970-01-01 to a time of a day; nothing if there is no such month, or if 64
/// bits do not hold the number.
pub open spec fn seconds_of(date: Seq<u64>, time: Seq<u64>) -> Option<u64> {
    let n = seconds_at(date[0], date[1], date[2], time[0], time[1], time[2]);
    if 1 <= date[1] <= 13 && (date[2] >= 1 || calendar::days_before(date[0] as int)
        + calendar::days_before_month(date[0] as int, date[1] as int) >= 1) && n <= u64::MAX {
        Some(n as u64)
    } else {
        None
    }
}

/// The point in time that a text stands for: a date, `T`, and a time with a fraction or without,
/// in UTC. Any other text stands for the start of 1970. Nothing comes of a date that cannot be
/// counted.
pub open spec fn epoch_of(ts: Seq<char>) -> Option<EpochModel> {
    let start = EpochModel { secs: 0, fraction: None };
    match text::split_once(without_suffix(without_suffix(ts, "+00:00"@), "Z"@), 'T') {
        None => Some(start),
        Some((day, clock)) => {
            let date = text::numbers_of(text::split(day, '-'));
            let (whole, fraction) = match text::split_once(clock, '.') {
                Some((w, f)) => (w, Some(f)),
                None => (clock, None),
            };
            let time = text::numbers_of(text::split(whole, ':'));
            if date.len() < 3 || time.len() < 3 {
                Some(start)
            } else {
                match seconds_of(date, time) {
                    Some(secs) => Some(EpochModel { secs, fraction }),
                    None => None,
                }
            }
        },
    }
}

/// The days from 1970-01-01 to the first day of a year.
fn year_days(y: u64) -> (r: u128)
    ensures
        r == calendar::days_before(y as int),
        r <= 367 * u64::MAX,
{
    if y <= 1970 {
        return 0;
    }
    proof {
        calendar::lemma_days_before(y as int);
    }
    let p: u128 = (y - 1) as u128;
    365 * (y - 1970) as u128 + p / 4 - p / 100 + p / 400 - 477
}

/// The days of a year before a month; the month may be one more than there are.
fn month_days(y: u64, m: u64) -> (r: u128)
    requires
        1 <= m <= 13,
    ensures
        r == calendar::days_before_month(y as int, m as int),
        r <= 366,
{
    let mut total: u128 = 0;
    let mut i: u64 = 1;
    while i < m
        invariant
            1 <= i <= m <= 13,
            total == calendar::days_before_month(y as int, i as int),
            total <= 31 * (i - 1),
        decreases m - i,
    {
        let len: u128 = if i == 2 {
            if is_leap(y) {
                29
            } else {
                28
            }
        } else if i == 4 || i == 6 || i == 9 || i == 11 {
            30
        } else {
            31
        };
        total += len;
        i += 1;
    }
    proof {
        if m == 13 {
            calendar::lemma_months(y as int);
        }
    }
    total
}

/// The seconds from 1970-01-01 to a time of a day.
fn count_seconds(date: &Vec<u64>, time: &Vec<u64>) -> (r: Option<u64>)
    requires
        date@.len() >= 3,
        time@.len() >= 3,
    ensures
        r == seconds_of(date@, time@),
{
    if date[1] < 1 || date[1] > 13 {
        return None;
    }
    let whole: u128 = year_days(date[0]) + month_days(date[0], date[1]);
    if date[2] < 1 && whole < 1 {
        return None;
    }
    let days: u128 = whole + date[2] as u128 - 1;
    let n: u128 = days * 86400 + time[0] as u128 * 3600 + time[1] as u128 * 60 + time[2] as u128;
    if n <= u64::MAX as u128 {
        Some(n as u64)
    } else {
        None
    }
}

/// The point in time that a text stands for.
pub fn iso_to_epoch(ts: &str) -> (r: Option<Epoch>)
    ensures
        match r {
            Some(e) => epoch_of(ts@) == Some(e@),
            None => epoch_of(ts@) is None,
        },
{
    let utc: String = drop_suffix(drop_suffix(ts, "+00:00").as_str(), "Z");
    let (day, clock): (String, String) = match split_once_on(utc.as_str(), 'T') {
        Some(pair) => pair,
        None => {
            return Some(Epoch { secs: 0, fraction: None });
        },
    };
    let date: Vec<u64> = parse_numbers(&split_on(day.as_str(), '-'));
    let (whole, fraction): (String, Option<String>) = match split_once_on(clock.as_str(), '.') {
        Some((w, f)) => (w, Some(f)),
        None => (clock, None),
    };
    let time: Vec<u64> = parse_numbers(&split_on(whole.as_str(), ':'));
    if date.len() < 3 || time.len() < 3 {
        return Some(Epoch { secs: 0, fraction: None });
    }
    match count_seconds(&date, &time) {
        Some(secs) => Some(Epoch { secs, fraction }),
        None => None,
    }
}

/// Whether a text has digits only.
spec fn all_digits(s: Seq<char>) -> bool {
    forall|i: int| 0 <= i < s.len() ==> text::is_digit(#[trigger] s[i])
}

/// The offset of UTC is taken off, and nothing more.
proof fn lemma_strip(head: Seq<char>, tf: Seq<char>)
    requires
        tf.len() == 6,
        all_digits(tf),
    ensures
        without_suffix(without_suffix(head + tf + "+00:00"@, "+00:00"@), "Z"@) == head + tf,
{
    reveal_strlit("+00:00");
    reveal_strlit("Z");
    let body = head + tf;
    let full = body + "+00:00"@;
    assert(full.skip(full.len() - 6) =~= "+00:00"@);
    assert(full.take(full.len() - 6) =~= body);
    assert(body.skip(body.len() - 6) =~= tf);
    assert(text::is_digit(tf[0]));
    assert(text::is_digit(tf[5]));
    assert(body.skip(body.len() - 6) != "+00:00"@) by {
        assert("+00:00"@[0] == '+');
    }
    assert(without_suffix(body, "+00:00"@) == body);
    assert(body.skip(body.len() - 1)[0] == tf[5]);
    assert(body.skip(body.len() - 1) != "Z"@) by {
        assert("Z"@[0] == 'Z');
    }
}

/// Three texts of digits with a sign between them.
spec fn joined(a: Seq<char>, b: Seq<char>, c: Seq<char>, sign: char) -> Seq<char> {
    a.push(sign) + (b.push(sign) + c)
}

proof fn lemma_joined(
    a: Seq<char>,
    b: Seq<char>,
    c: Seq<char>,
    sign: char,
    other: char,
    x: u64,
    y: u64,
    z: u64,
)
    requires
        all_digits(a),
        all_digits(b),
        all_digits(c),
        !text::is_digit(sign),
        !text::is_digit(other),
        sign != other,
        text::number_of(a) == Some(x),
        text::number_of(b) == Some(y),
        text::number_of(c) == Some(z),
    ensures
        text::numbers_of(text::split(joined(a, b, c, sign), sign)) == Seq::empty().push(x).push(
            y,
        ).push(z),
        !joined(a, b, c, sign).contains(other),
{
    assert(!a.contains(sign));
    assert(!b.contains(sign));
    assert(!c.contains(sign));
    text::lemma_split_first(a, sign, b.push(sign) + c);
    text::lemma_split_first(b, sign, c);
    text::lemma_split_first(c, sign, c);
    assert(text::split(joined(a, b, c, sign), sign) =~= Seq::empty().push(a).push(b).push(c));
    lemma_three_numbers(a, b, c, x, y, z);
    let s = joined(a, b, c, sign);
    assert forall|i: int| 0 <= i < s.len() implies #[trigger] s[i] != other by {
        if i < a.len() {
            assert(s[i] == a[i]);
        } else if i == a.len() {
        } else if i < a.len() + 1 + b.len() {
            assert(s[i] == b[i - a.len() - 1]);
        } else if i > a.len() + 1 + b.len() {
            assert(s[i] == c[i - a.len() - 1 - b.len() - 1]);
        }
    }
}

/// The parts of a point in time are found again.
proof fn lemma_parts(day: Seq<char>, whole: Seq<char>, tf: Seq<char>)
    requires
        !day.contains('T'),
        !whole.contains('.'),
        tf.len() == 6,
        all_digits(tf),
        text::numbers_of(text::split(day, '-')).len() == 3,
        text::numbers_of(text::split(whole, ':')).len() == 3,
    ensures
        epoch_of(day.push('T') + (whole.push('.') + tf) + "+00:00"@) == match seconds_of(
            text::numbers_of(text::split(day, '-')),
            text::numbers_of(text::split(whole, ':')),
        ) {
            Some(secs) => Some(EpochModel { secs, fraction: Some(tf) }),
            None => None,
        },
{
    let head = day.push('T') + whole.push('.');
    let body = day.push('T') + (whole.push('.') + tf);
    assert(body =~= head + tf);
    lemma_strip(head, tf);
    text::lemma_split_first(day, 'T', whole.push('.') + tf);
    text::lemma_split_first(whole, '.', tf);
}

/// Days, hours, minutes and seconds make up the whole.
proof fn lemma_clock(secs: int)
    requires
        secs >= 0,
    ensures
        secs == secs / 86400 * 86400 + secs / 3600 % 24 * 3600 + secs / 60 % 60 * 60 + secs % 60,
{
    let minutes = secs / 60;
    let hours = minutes / 60;
    assert(hours == secs / 3600);
    assert(hours / 24 == secs / 86400);
}

/// The seconds of a day and its time make up the whole.
proof fn lemma_seconds(secs: u64, y: int, m: int, d: int, h: u64, mi: u64, s: u64)
    requires
        calendar::is_date((secs / 86400) as int, y, m, d),
        h == secs / 3600 % 24,
        mi == secs / 60 % 60,
        s == secs % 60,
    ensures
        y <= u64::MAX,
        seconds_at(y as u64, m as u64, d as u64, h, mi, s) == secs,
{
    lemma_clock(secs as int);
    calendar::lemma_days_before(y);
    lemma_months_grow(y, m);
    assert(365 * (y - 1970) <= secs / 86400);
}

/// A point in time that was written reads as it was.
pub proof fn law_iso_round_trip(secs: u64, micros: u64)
    requires
        micros < 1_000_000,
    ensures
        epoch_of(clock::iso_text(secs as nat, micros as nat)) == Some(
            EpochModel { secs, fraction: Some(text::padded(micros as nat, 6)) },
        ),
{
    let days = (secs / 86400) as int;
    calendar::lemma_date_exists(days);
    let date = calendar::date_of(days);
    let (y, m, d) = (date.0, date.1, date.2);
    assert(calendar::is_date(days, y, m, d));
    let h = (secs / 3600 % 24) as u64;
    let mi = (secs / 60 % 60) as u64;
    let s = (secs % 60) as u64;
    lemma_seconds(secs, y, m, d, h, mi, s);
    lemma_written(secs, micros, y as u64, m as u64, d as u64, h, mi, s);
}

/// The text of a point in time reads as its parts.
proof fn lemma_written(
    secs: u64,
    micros: u64,
    y: u64,
    m: u64,
    d: u64,
    h: u64,
    mi: u64,
    s: u64,
)
    requires
        micros < 1_000_000,
        h == secs / 3600 % 24,
        mi == secs / 60 % 60,
        s == secs % 60,
        1 <= m <= 12,
        d >= 1,
        calendar::date_of((secs / 86400) as int) == (y as int, m as int, d as int),
        seconds_at(y, m, d, h, mi, s) == secs,
    ensures
        epoch_of(clock::iso_text(secs as nat, micros as nat)) == Some(
            EpochModel { secs, fraction: Some(text::padded(micros as nat, 6)) },
        ),
{
    let ty = text::padded(y as nat, 4);
    let tm = text::padded(m as nat, 2);
    let td = text::padded(d as nat, 2);
    let th = text::padded(h as nat, 2);
    let tmi = text::padded(mi as nat, 2);
    let tsec = text::padded(s as nat, 2);
    let tf = text::padded(micros as nat, 6);
    text::law_padded_number(y, 4);
    text::law_padded_number(m, 2);
    text::law_padded_number(d, 2);
    text::law_padded_number(h, 2);
    text::law_padded_number(mi, 2);
    text::law_padded_number(s, 2);
    text::law_padded_number(micros, 6);
    text::lemma_decimal_len(micros as nat);
    lemma_joined(ty, tm, td, '-', 'T', y, m, d);
    lemma_joined(th, tmi, tsec, ':', '.', h, mi, s);
    let day = joined(ty, tm, td, '-');
    let whole = joined(th, tmi, tsec, ':');
    lemma_parts(day, whole, tf);
    lemma_date_text(ty, tm, td);
    lemma_time_text(day, th, tmi, tsec, tf);
}

proof fn lemma_date_text(ty: Seq<char>, tm: Seq<char>, td: Seq<char>)
    ensures
        ty + seq!['-'] + tm + seq!['-'] + td == joined(ty, tm, td, '-'),
{
    assert(ty + seq!['-'] + tm + seq!['-'] + td =~= joined(ty, tm, td, '-'));
}

proof fn lemma_time_text(
    day: Seq<char>,
    th: Seq<char>,
    tmi: Seq<char>,
    tsec: Seq<char>,
    tf: Seq<char>,
)
    ensures
        day + seq!['T'] + th + seq![':'] + tmi + seq![':'] + tsec + seq!['.'] + tf + seq![
            '+',
            '0',
            '0',
            ':',
            '0',
            '0',
        ] == day.push('T') + (joined(th, tmi, tsec, ':').push('.') + tf) + "+00:00"@,
{
    reveal_strlit("+00:00");
    let offset = seq!['+', '0', '0', ':', '0', '0'];
    assert(offset =~= "+00:00"@);
    let whole = joined(th, tmi, tsec, ':');
    assert(th + seq![':'] + tmi + seq![':'] + tsec =~= whole);
    let a = day + seq!['T'];
    assert(a =~= day.push('T'));
    assert(a + th + seq![':'] + tmi + seq![':'] + tsec =~= a + (th + seq![':'] + tmi + seq![':']
        + tsec));
    assert(a + whole + seq!['.'] + tf =~= a + (whole.push('.') + tf));
}

proof fn lemma_months_grow(y: int, m: int)
    ensures
        calendar::days_before_month(y, m) >= 0,
    decreases m,
{
    if m > 1 {
        lemma_months_grow(y, m - 1);
    }
}

proof fn lemma_three_numbers(a: Seq<char>, b: Seq<char>, c: Seq<char>, x: u64, y: u64, z: u64)
    requires
        text::number_of(a) == Some(x),
        text::number_of(b) == Some(y),
        text::number_of(c) == Some(z),
    ensures
        text::numbers_of(Seq::empty().push(a).push(b).push(c)) == Seq::empty().push(x).push(y).push(
            z,
        ),
{
    let none = Seq::<Seq<char>>::empty();
    assert(none.push(a).drop_last() =~= none);
    assert(none.push(a).push(b).drop_last() =~= none.push(a));
    assert(none.push(a).push(b).push(c).drop_last() =~= none.push(a).push(b));
    assert(text::numbers_of(none) == Seq::<u64>::empty());
    assert(text::numbers_of(none.push(a)) == Seq::empty().push(x));
    assert(text::numbers_of(none.push(a).push(b)) == Seq::empty().push(x).push(y));
}

} // verus!
