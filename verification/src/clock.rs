//! The wall clock and the text form of a point in time.

use vstd::prelude::*;
use vstd::string::*;

use crate::calendar;
use crate::calendar::days_to_ymd;
use crate::text;
use crate::text::push_padded;

verus! {

/// `std::time::SystemTime::now`, as the nanoseconds since 1970-01-01; a clock set before that
/// reads zero. A `Duration` counts its seconds in a `u64`, so the number stays below
/// 2^64 * 10^9. What the clock shows is not stated.
#[verifier::external_body]
pub(crate) fn unix_nanos() -> (r: u128)
    ensures
        r < 18_446_744_073_709_551_616_000_000_000u128,
{
    std::time::SystemTime::now()
        .duration_since(std::time::UNIX_EPOCH)
        .unwrap_or_default()
        .as_nanos()
}

/// The milliseconds since 1970-01-01.
pub fn now_unix_ms() -> (r: u128)
    ensures
        r < 18_446_744_073_709_551_616_000u128,
{
    unix_nanos() / 1_000_000
}

/// The seconds since 1970-01-01.
pub fn now_unix_secs() -> u64 {
    (unix_nanos() / 1_000_000_000) as u64
}

/// A point in time as `YYYY-MM-DDTHH:MM:SS.ffffff+00:00`.
pub open spec fn iso_text(secs: nat, micros: nat) -> Seq<char> {
    let date = calendar::date_of((secs / 86400) as int);
    calendar::date_text(date.0 as nat, date.1 as nat, date.2 as nat) + seq!['T'] + text::padded(
        secs / 3600 % 24,
        2,
    ) + seq![':'] + text::padded(secs / 60 % 60, 2) + seq![':'] + text::padded(secs % 60, 2)
        + seq!['.'] + text::padded(micros, 6) + seq!['+', '0', '0', ':', '0', '0']
}

/// The year, month, day, hour, minute and second of a number of seconds since 1970-01-01.
pub fn epoch_to_parts(secs: u64) -> (r: (u64, u64, u64, u64, u64, u64))
    ensures
        calendar::is_date((secs / 86400) as int, r.0 as int, r.1 as int, r.2 as int),
        r.3 == secs / 3600 % 24,
        r.4 == secs / 60 % 60,
        r.5 == secs % 60,
{
    let s: u64 = secs % 60;
    let total_min: u64 = secs / 60;
    let mi: u64 = total_min % 60;
    let total_hours: u64 = total_min / 60;
    let h: u64 = total_hours % 24;
    let total_days: u64 = total_hours / 24;
    assert(total_days == secs / 86400);
    assert(total_hours == secs / 3600);
    let (y, mo, d): (u64, u64, u64) = days_to_ymd(total_days);
    (y, mo, d, h, mi, s)
}

/// The text of a point in time.
pub fn iso8601(secs: u64, micros: u64) -> (r: String)
    requires
        micros < 1_000_000,
    ensures
        r@ == iso_text(secs as nat, micros as nat),
{
    let (y, mo, d, h, mi, s): (u64, u64, u64, u64, u64, u64) = epoch_to_parts(secs);
    proof {
        calendar::lemma_date_of((secs / 86400) as int, y as int, mo as int, d as int);
    }
    let mut out: String = String::new();
    push_padded(&mut out, y, 4);
    out.push('-');
    push_padded(&mut out, mo, 2);
    out.push('-');
    push_padded(&mut out, d, 2);
    out.push('T');
    push_padded(&mut out, h, 2);
    out.push(':');
    push_padded(&mut out, mi, 2);
    out.push(':');
    push_padded(&mut out, s, 2);
    out.push('.');
    push_padded(&mut out, micros, 6);
    out.append("+00:00");
    proof {
        reveal_strlit("+00:00");
        assert("+00:00"@ =~= seq!['+', '0', '0', ':', '0', '0']);
        assert(out@ =~= iso_text(secs as nat, micros as nat));
    }
    out
}

/// The current time as text.
pub fn now_iso8601() -> (r: String)
    ensures
        exists|secs: u64, micros: u64|
            micros < 1_000_000 && r@ == #[trigger] iso_text(secs as nat, micros as nat),
{
    let nanos: u128 = unix_nanos();
    let secs: u64 = (nanos / 1_000_000_000) as u64;
    let micros: u64 = (nanos / 1000 % 1_000_000) as u64;
    iso8601(secs, micros)
}

/// Until the end of the year 9999 a point in time has 32 characters, the separator `T` in the
/// eleventh place and the offset `+00:00` at the end.
pub proof fn law_iso_shape(secs: nat, micros: nat)
    requires
        secs < 253_402_300_800,
        micros < 1_000_000,
    ensures
        iso_text(secs, micros).len() == 32,
        iso_text(secs, micros)[10] == 'T',
        iso_text(secs, micros).skip(26) == seq!['+', '0', '0', ':', '0', '0'],
{
    let days = (secs / 86400) as int;
    calendar::lemma_date_exists(days);
    let date = calendar::date_of(days);
    calendar::lemma_year_bound(days, date.0, date.1, date.2);
    text::lemma_decimal_len(date.0 as nat);
    text::lemma_decimal_len(date.1 as nat);
    text::lemma_decimal_len(date.2 as nat);
    text::lemma_decimal_len(secs / 3600 % 24);
    text::lemma_decimal_len(secs / 60 % 60);
    text::lemma_decimal_len(secs % 60);
    text::lemma_decimal_len(micros);
    assert(iso_text(secs, micros).skip(26) =~= seq!['+', '0', '0', ':', '0', '0']);
}

} // verus!
