//! UTC calendar arithmetic for log timestamps and file names: days since the
//! Unix epoch to a proleptic Gregorian date, and the two stamp formats the log
//! sink writes.

use vstd::prelude::*;

use crate::text::{owned, padded, push_char, push_padded, push_str};

verus! {

/// Days from 0000-03-01 to 1970-01-01: the epoch shift used by the
/// era/year-of-era decomposition below.
pub open spec fn epoch_shift() -> int {
    719_468
}

/// Days in one 400-year Gregorian era.
pub open spec fn era_days() -> int {
    146_097
}

/// The era (a 400-year block starting on a March 1st) of a shifted day count.
pub open spec fn era_of(shifted: int) -> int {
    shifted / era_days()
}

/// Day of the era, `0..=146096`.
pub open spec fn day_of_era(shifted: int) -> int {
    shifted - era_of(shifted) * era_days()
}

/// Year of the era, counting years from March 1st, `0..=399`.
pub open spec fn year_of_era(doe: int) -> int {
    (doe - doe / 1460 + doe / 36_524 - doe / 146_096) / 365
}

/// Day of the March-based year, `0..=365`.
pub open spec fn day_of_year(doe: int) -> int {
    let yoe = year_of_era(doe);
    doe - (365 * yoe + yoe / 4 - yoe / 100)
}

/// Month index counted from March, `0..=11`.
pub open spec fn march_month(doy: int) -> int {
    (5 * doy + 2) / 153
}

/// The proleptic Gregorian `(year, month, day)` of the date `z` days after
/// 1970-01-01 (negative `z` counts back from it).
pub open spec fn civil_date(z: int) -> (int, int, int) {
    let shifted = z + epoch_shift();
    let doe = day_of_era(shifted);
    let yoe = year_of_era(doe);
    let doy = day_of_year(doe);
    let mp = march_month(doy);
    let d = doy - (153 * mp + 2) / 5 + 1;
    let m = if mp < 10 { mp + 3 } else { mp - 9 };
    let y = yoe + era_of(shifted) * 400;
    (if m <= 2 { y + 1 } else { y }, m, d)
}

/// The day count of a proleptic Gregorian date, counted from 1970-01-01: the
/// inverse of [`civil_date`].
pub open spec fn days_from_civil(y: int, m: int, d: int) -> int {
    let yy = if m <= 2 { y - 1 } else { y };
    let era = yy / 400;
    let yoe = yy - era * 400;
    let mp = if m > 2 { m - 3 } else { m + 9 };
    let doy = (153 * mp + 2) / 5 + d - 1;
    let doe = yoe * 365 + yoe / 4 - yoe / 100 + doy;
    era * era_days() + doe - epoch_shift()
}

/// Gregorian leap years: divisible by 4, except centuries not divisible by 400.
pub open spec fn is_leap_year(y: int) -> bool {
    y % 4 == 0 && (y % 100 != 0 || y % 400 == 0)
}

/// The number of days in month `m` (1 to 12) of year `y`.
pub open spec fn days_in_month(y: int, m: int) -> int {
    if m == 2 {
        if is_leap_year(y) { 29 } else { 28 }
    } else if m == 4 || m == 6 || m == 9 || m == 11 {
        30
    } else {
        31
    }
}

/// A real calendar date.
pub open spec fn is_valid_date(y: int, m: int, d: int) -> bool {
    1 <= m <= 12 && 1 <= d <= days_in_month(y, m)
}

proof fn lemma_day_of_era_range(shifted: int)
    ensures
        0 <= day_of_era(shifted) < era_days(),
{
}

proof fn lemma_year_of_era_range(doe: int)
    requires
        0 <= doe < era_days(),
    ensures
        0 <= year_of_era(doe) <= 399,
        0 <= day_of_year(doe) <= 365,
{
}

/// Counting the days of the date that `z` names gives back `z`: the civil
/// date of a day count is the one that day count is of.
#[verifier::spinoff_prover]
#[verifier::rlimit(30)]
pub proof fn law_days_round_trip(z: int)
    ensures
        days_from_civil(civil_date(z).0, civil_date(z).1, civil_date(z).2) == z,
{
    let shifted = z + epoch_shift();
    lemma_day_of_era_range(shifted);
    let doe = day_of_era(shifted);
    lemma_year_of_era_range(doe);
}

/// Only a March-based year that ends in a leap February has a 366th day.
#[verifier::spinoff_prover]
#[verifier::rlimit(50)]
proof fn lemma_leap_day(doe: int)
    requires
        0 <= doe < era_days(),
        day_of_year(doe) == 365,
    ensures
        (year_of_era(doe) + 1) % 4 == 0,
        (year_of_era(doe) + 1) % 100 != 0 || year_of_era(doe) == 399,
{
    lemma_year_of_era_range(doe);
}

proof fn lemma_leap_shift(era: int, yoe: int)
    requires
        0 <= yoe <= 399,
    ensures
        is_leap_year(era * 400 + yoe + 1) <==> ((yoe + 1) % 4 == 0 && ((yoe + 1) % 100 != 0
            || yoe == 399)),
{
    assert((era * 400 + yoe + 1) % 4 == (yoe + 1) % 4) by (nonlinear_arith);
    assert((era * 400 + yoe + 1) % 100 == (yoe + 1) % 100) by (nonlinear_arith);
    assert((era * 400 + yoe + 1) % 400 == (yoe + 1) % 400) by (nonlinear_arith);
}

/// Every day count names a real calendar date.
pub proof fn law_civil_date_is_valid(z: int)
    ensures
        is_valid_date(civil_date(z).0, civil_date(z).1, civil_date(z).2),
{
    let shifted = z + epoch_shift();
    lemma_day_of_era_range(shifted);
    let doe = day_of_era(shifted);
    lemma_year_of_era_range(doe);
    let yoe = year_of_era(doe);
    lemma_leap_shift(era_of(shifted), yoe);
    if day_of_year(doe) == 365 {
        lemma_leap_day(doe);
    }
}

#[verifier::spinoff_prover]
proof fn lemma_march_month(mp: int, d: int, leap: bool)
    requires
        0 <= mp <= 11,
        1 <= d,
        mp == 11 ==> d <= (if leap { 29int } else { 28int }),
        mp != 11 ==> d <= days_in_month(1, if mp < 10 { mp + 3 } else { mp - 9 }),
    ensures
        ({
            let doy = (153 * mp + 2) / 5 + d - 1;
            &&& 0 <= doy <= 365
            &&& doy == 365 ==> leap && mp == 11
            &&& march_month(doy) == mp
            &&& doy - (153 * mp + 2) / 5 + 1 == d
        }),
{
}

#[verifier::spinoff_prover]
#[verifier::rlimit(50)]
proof fn lemma_era_day(yoe: int, doy: int)
    requires
        0 <= yoe <= 399,
        0 <= doy <= 365,
        doy == 365 ==> (yoe + 1) % 4 == 0 && ((yoe + 1) % 100 != 0 || yoe == 399),
    ensures
        ({
            let doe = yoe * 365 + yoe / 4 - yoe / 100 + doy;
            &&& 0 <= doe < era_days()
            &&& year_of_era(doe) == yoe
            &&& day_of_year(doe) == doy
        }),
{
}

/// Every real calendar date is the date of its own day count.
pub proof fn law_date_round_trip(y: int, m: int, d: int)
    requires
        is_valid_date(y, m, d),
    ensures
        civil_date(days_from_civil(y, m, d)) == (y, m, d),
{
    let yy = if m <= 2 { y - 1 } else { y };
    let era = yy / 400;
    let yoe = yy - era * 400;
    let mp = if m > 2 { m - 3 } else { m + 9 };
    lemma_leap_shift(era, yoe);
    lemma_march_month(mp, d, is_leap_year(era * 400 + yoe + 1));
    let doy = (153 * mp + 2) / 5 + d - 1;
    lemma_era_day(yoe, doy);
    let doe = yoe * 365 + yoe / 4 - yoe / 100 + doy;
    let shifted = era * era_days() + doe;
    assert(era_of(shifted) == era) by (nonlinear_arith)
        requires
            shifted == era * 146_097 + doe,
            0 <= doe < 146_097,
            era_of(shifted) == shifted / 146_097,
    ;
    assert(day_of_era(shifted) == doe);
}

/// Converts a count of days since the Unix epoch to a `(year, month, day)`
/// civil date in the proleptic Gregorian calendar.
pub fn civil_from_days(z: i64) -> (r: (i64, u32, u32))
    requires
        z <= i64::MAX - 719_468,
        z + 719_468 >= i64::MIN + 146_096,
    ensures
        (r.0 as int, r.1 as int, r.2 as int) == civil_date(z as int),
        1 <= r.1 <= 12,
        1 <= r.2 <= 31,
{
    let z = z + 719_468;
    let era: i64 = if z >= 0 { z } else { z - 146_096 } / 146_097;
    assert(era == era_of(z as int));
    let doe = z - era * 146_097;
    proof {
        lemma_day_of_era_range(z as int);
        lemma_year_of_era_range(doe as int);
    }
    let yoe = (doe - doe / 1460 + doe / 36_524 - doe / 146_096) / 365;
    let y = yoe + era * 400;
    let doy = doe - (365 * yoe + yoe / 4 - yoe / 100);
    let mp = (5 * doy + 2) / 153;
    let d = (doy - (153 * mp + 2) / 5 + 1) as u32;
    let m = if mp < 10 { mp + 3 } else { mp - 9 } as u32;
    (if m <= 2 { y + 1 } else { y }, m, d)
}

proof fn lemma_year_nonneg(z: int)
    requires
        z >= 0,
    ensures
        civil_date(z).0 >= 0,
{
    let shifted = z + epoch_shift();
    lemma_day_of_era_range(shifted);
    lemma_year_of_era_range(day_of_era(shifted));
}

/// The UTC civil parts `(year, month, day, hour, minute, second, millisecond)`
/// of the instant `secs` seconds and `millis` milliseconds after the epoch.
pub open spec fn civil_time(secs: nat, millis: nat) -> (int, int, int, int, int, int, int) {
    let days = secs / 86_400;
    let sod = secs % 86_400;
    let date = civil_date(days as int);
    (date.0, date.1, date.2, (sod / 3600) as int, ((sod % 3600) / 60) as int, (sod % 60) as int, millis as int)
}

/// Breaks an instant, given as whole seconds since the Unix epoch and the
/// milliseconds past that second, into its UTC civil parts.
pub fn civil(secs: u64, millis: u32) -> (r: (i64, u32, u32, u32, u32, u32, u32))
    ensures
        (r.0 as int, r.1 as int, r.2 as int, r.3 as int, r.4 as int, r.5 as int, r.6 as int)
            == civil_time(secs as nat, millis as nat),
        r.0 >= 0,
{
    let days = (secs / 86_400) as i64;
    let sod = secs % 86_400;
    let (y, mo, d) = civil_from_days(days);
    proof {
        lemma_year_nonneg(days as int);
    }
    let h = (sod / 3600) as u32;
    let mi = ((sod % 3600) / 60) as u32;
    let s = (sod % 60) as u32;
    (y, mo, d, h, mi, s, millis)
}

/// RFC 3339 text with millisecond precision in UTC, `YYYY-MM-DDThh:mm:ss.mmmZ`.
pub open spec fn rfc3339_text(secs: nat, millis: nat) -> Seq<char> {
    let t = civil_time(secs, millis);
    padded(t.0 as nat, 4) + seq!['-'] + padded(t.1 as nat, 2) + seq!['-'] + padded(t.2 as nat, 2)
        + seq!['T'] + padded(t.3 as nat, 2) + seq![':'] + padded(t.4 as nat, 2) + seq![':']
        + padded(t.5 as nat, 2) + seq!['.'] + padded(t.6 as nat, 3) + seq!['Z']
}

/// The compact UTC stamp used in file names, `YYYYMMDDThhmmssZ`.
pub open spec fn datestamp_text(secs: nat) -> Seq<char> {
    let t = civil_time(secs, 0);
    padded(t.0 as nat, 4) + padded(t.1 as nat, 2) + padded(t.2 as nat, 2) + seq!['T'] + padded(
        t.3 as nat,
        2,
    ) + padded(t.4 as nat, 2) + padded(t.5 as nat, 2) + seq!['Z']
}

/// RFC 3339 with millisecond precision in UTC, e.g. `2026-06-19T14:23:01.042Z`.
pub fn rfc3339_millis(secs: u64, millis: u32) -> (r: String)
    ensures
        r@ == rfc3339_text(secs as nat, millis as nat),
{
    let (y, mo, d, h, mi, s, ms) = civil(secs, millis);
    let mut out = String::new();
    push_padded(&mut out, y as u64, 4);
    push_char(&mut out, '-');
    push_padded(&mut out, mo as u64, 2);
    push_char(&mut out, '-');
    push_padded(&mut out, d as u64, 2);
    push_char(&mut out, 'T');
    push_padded(&mut out, h as u64, 2);
    push_char(&mut out, ':');
    push_padded(&mut out, mi as u64, 2);
    push_char(&mut out, ':');
    push_padded(&mut out, s as u64, 2);
    push_char(&mut out, '.');
    push_padded(&mut out, ms as u64, 3);
    push_char(&mut out, 'Z');
    assert(out@ =~= rfc3339_text(secs as nat, millis as nat));
    out
}

/// Compact UTC stamp for file names, e.g. `20260619T142301Z`.
pub fn datestamp(secs: u64) -> (r: String)
    ensures
        r@ == datestamp_text(secs as nat),
{
    let (y, mo, d, h, mi, s, _) = civil(secs, 0);
    let mut out = String::new();
    push_padded(&mut out, y as u64, 4);
    push_padded(&mut out, mo as u64, 2);
    push_padded(&mut out, d as u64, 2);
    push_char(&mut out, 'T');
    push_padded(&mut out, h as u64, 2);
    push_padded(&mut out, mi as u64, 2);
    push_padded(&mut out, s as u64, 2);
    push_char(&mut out, 'Z');
    assert(out@ =~= datestamp_text(secs as nat));
    out
}

/// Characters kept as they are in a file name: ASCII letters and digits, `.`,
/// `_` and `-`.
pub open spec fn filename_safe(c: char) -> bool {
    ('a' <= c && c <= 'z') || ('A' <= c && c <= 'Z') || ('0' <= c && c <= '9') || c == '.'
        || c == '_' || c == '-'
}

/// `root` with every character outside `[A-Za-z0-9._-]` replaced by `_`, or
/// `run` when `root` is empty.
pub open spec fn sanitized(root: Seq<char>) -> Seq<char> {
    if root.len() == 0 {
        "run"@
    } else {
        Seq::new(root.len(), |i: int| if filename_safe(root[i]) { root[i] } else { '_' })
    }
}

/// Maps anything outside `[A-Za-z0-9._-]` to `_` so a name is a safe file name;
/// an empty name becomes `run`.
pub fn sanitize(root: &str) -> (r: String)
    ensures
        r@ == sanitized(root@),
{
    let n = root.unicode_len();
    if n == 0 {
        return owned("run");
    }
    let mut out = String::new();
    let mut i: usize = 0;
    while i < n
        invariant
            i <= n,
            n == root@.len(),
            out@ == Seq::new(i as nat, |k: int| if filename_safe(root@[k]) { root@[k] } else { '_' }),
        decreases n - i,
    {
        let c = root.get_char(i);
        let safe = ('a' <= c && c <= 'z') || ('A' <= c && c <= 'Z') || ('0' <= c && c <= '9')
            || c == '.' || c == '_' || c == '-';
        if safe {
            push_char(&mut out, c);
        } else {
            push_char(&mut out, '_');
        }
        i += 1;
        assert(out@ =~= Seq::new(i as nat, |k: int| if filename_safe(root@[k]) { root@[k] } else { '_' }));
    }
    out
}

/// The log file of a run: `logs/<datestamp>-<root>.ndjson`.
pub open spec fn log_path_text(secs: nat, root: Seq<char>) -> Seq<char> {
    "logs/"@ + datestamp_text(secs) + seq!['-'] + sanitized(root) + ".ndjson"@
}

/// `logs/<datestamp>-<root>.ndjson`, with `root` reduced to file-name-safe
/// characters and `<datestamp>` a compact UTC stamp.
pub fn log_path(secs: u64, root: &str) -> (r: String)
    ensures
        r@ == log_path_text(secs as nat, root@),
{
    let mut out = owned("logs/");
    let stamp = datestamp(secs);
    push_str(&mut out, stamp.as_str());
    push_char(&mut out, '-');
    let safe = sanitize(root);
    push_str(&mut out, safe.as_str());
    push_str(&mut out, ".ndjson");
    assert(out@ =~= log_path_text(secs as nat, root@));
    out
}

/// The run id of an invocation started `nanos` nanoseconds after the epoch by
/// process `pid`: the clock and the pid folded into 32 bits.
pub open spec fn run_id_value(nanos: u128, pid: u32) -> u32 {
    let mixed = (nanos as u64) ^ ((nanos >> 64u128) as u64) ^ ((pid as u64) << 32u64);
    (mixed ^ (mixed >> 32u64)) as u32
}

pub open spec fn hex_digit(d: nat) -> char {
    if d < 10 {
        (('0' as u32) + d) as char
    } else {
        (('a' as u32) + d - 10) as char
    }
}

pub open spec fn pow16(k: nat) -> nat
    decreases k,
{
    if k == 0 {
        1
    } else {
        16 * pow16((k - 1) as nat)
    }
}

/// `x` as eight lowercase hex digits, zero-padded (the `{:08x}` format).
pub open spec fn hex8(x: nat) -> Seq<char> {
    Seq::new(8, |i: int| hex_digit((x / pow16((7 - i) as nat)) % 16))
}

fn hex_char(d: u32) -> (c: char)
    requires
        d < 16,
    ensures
        c == hex_digit(d as nat),
{
    if d < 10 {
        proof {
            assert(('0' as u32) + d <= 0x39);
        }
        (('0' as u32) + d) as u8 as char
    } else {
        proof {
            assert(('a' as u32) + d - 10 <= 0x66);
        }
        (('a' as u32) + d - 10) as u8 as char
    }
}

/// 8 hex characters derived from the wall clock and the process id, tying
/// one invocation's log events together (not a security token).
pub fn run_id(nanos: u128, pid: u32) -> (r: String)
    ensures
        r@ == hex8(run_id_value(nanos, pid) as nat),
{
    let mixed = (nanos as u64) ^ ((nanos >> 64u128) as u64) ^ ((pid as u64) << 32u64);
    let x = (mixed ^ (mixed >> 32u64)) as u32;
    let mut out = String::new();
    let mut div: u32 = 0x1000_0000;
    let mut i: usize = 0;
    proof {
        reveal_with_fuel(pow16, 8);
    }
    while i < 8
        invariant
            i <= 8,
            div as nat == pow16((7 - i) as nat) || (i == 8 && div == 0),
            x == run_id_value(nanos, pid),
            out@ == hex8(x as nat).subrange(0, i as int),
        decreases 8 - i,
    {
        proof {
            reveal_with_fuel(pow16, 8);
        }
        let c = hex_char((x / div) % 16);
        push_char(&mut out, c);
        div = div / 16;
        i += 1;
        assert(out@ =~= hex8(x as nat).subrange(0, i as int));
    }
    assert(out@ =~= hex8(x as nat));
    out
}

/// A sanitized name is a safe, non-empty file name, and a name that already
/// is one is kept as it is.
pub proof fn law_sanitized_is_safe(root: Seq<char>)
    ensures
        sanitized(root).len() > 0,
        forall|i: int| 0 <= i < sanitized(root).len() ==> filename_safe(#[trigger] sanitized(root)[i]),
        root.len() > 0 && (forall|i: int| 0 <= i < root.len() ==> filename_safe(#[trigger] root[i]))
            ==> sanitized(root) == root,
{
    reveal_strlit("run");
    if root.len() > 0 && (forall|i: int| 0 <= i < root.len() ==> filename_safe(#[trigger] root[i])) {
        assert(sanitized(root) =~= root);
    }
}

/// A lowercase hexadecimal digit.
pub open spec fn is_hex(c: char) -> bool {
    ('0' <= c && c <= '9') || ('a' <= c && c <= 'f')
}

/// A run id is eight lowercase hexadecimal digits.
pub proof fn law_run_id_is_eight_hex_digits(x: nat)
    ensures
        hex8(x).len() == 8,
        forall|i: int| 0 <= i < 8 ==> is_hex(#[trigger] hex8(x)[i]),
{
    assert forall|i: int| 0 <= i < 8 implies is_hex(#[trigger] hex8(x)[i]) by {
        let d = (x / pow16((7 - i) as nat)) % 16;
        assert(d < 16);
        if d < 10 {
            assert(('0' as u32) + d <= 0x39);
        } else {
            assert(('a' as u32) + d - 10 <= 0x66);
        }
    }
}

} // verus!
