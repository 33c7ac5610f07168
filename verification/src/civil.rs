//! Wall-clock date-times, their reading from SNCF's compact notation,
//! their resolution in the machine's time zone and their printing.

use vstd::prelude::*;
use vstd::utf8::{is_char_boundary, is_ascii_chars};
use vstd::string::{StrSliceExecFns, StringSliceAdditionalSpecFns};
use crate::digits::{lemma_parse_int_small, parse_int, parse_int_in, pow10};

verus! {

broadcast use vstd::utf8::group_utf8_lib, vstd::string::group_string_axioms;

/// A proleptic-Gregorian wall-clock reading, to the second.
#[derive(Clone, Copy, Debug, PartialEq, Eq, Structural)]
pub struct CivilDateTime {
    pub year: i16,
    pub month: i8,
    pub day: i8,
    pub hour: i8,
    pub minute: i8,
    pub second: i8,
}

/// A date-time resolved in a time zone: the wall clock shown there, the
/// zone's offset from UTC at that instant, and the instant in Unix seconds.
#[derive(Clone, Copy, Debug, PartialEq, Eq, Structural)]
pub struct ZonedTime {
    pub civil: CivilDateTime,
    pub offset_seconds: i32,
    pub epoch_seconds: i64,
}

pub open spec fn is_leap_year(y: int) -> bool {
    y % 4 == 0 && (y % 100 != 0 || y % 400 == 0)
}

pub open spec fn days_in_month(y: int, m: int) -> int {
    if m == 2 {
        if is_leap_year(y) {
            29
        } else {
            28
        }
    } else if m == 4 || m == 6 || m == 9 || m == 11 {
        30
    } else {
        31
    }
}

/// The range of wall-clock readings that jiff accepts.
pub open spec fn is_valid_civil(c: CivilDateTime) -> bool {
    &&& -9999 <= c.year <= 9999
    &&& 1 <= c.month <= 12
    &&& 1 <= c.day <= days_in_month(c.year as int, c.month as int)
    &&& 0 <= c.hour <= 23
    &&& 0 <= c.minute <= 59
    &&& 0 <= c.second <= 59
}

/// Number of leap years before year `y`, counted from a fixed origin
/// (floor division, valid for every integer year).
pub open spec fn leap_count(y: int) -> int {
    (y - 1) / 4 - (y - 1) / 100 + (y - 1) / 400
}

/// Days from 1970-01-01 to January 1st of year `y`.
pub open spec fn days_before_year(y: int) -> int {
    365 * (y - 1970) + leap_count(y) - leap_count(1970)
}

/// Days from January 1st to the first day of month `m` of year `y`.
pub open spec fn days_before_month(y: int, m: int) -> int {
    let base = if m == 1 {
        0int
    } else if m == 2 {
        31
    } else if m == 3 {
        59
    } else if m == 4 {
        90
    } else if m == 5 {
        120
    } else if m == 6 {
        151
    } else if m == 7 {
        181
    } else if m == 8 {
        212
    } else if m == 9 {
        243
    } else if m == 10 {
        273
    } else if m == 11 {
        304
    } else {
        334
    };
    if m > 2 && is_leap_year(y) {
        base + 1
    } else {
        base
    }
}

/// Days from 1970-01-01 to the date `y-m-d`.
pub open spec fn days_from_civil(y: int, m: int, d: int) -> int {
    days_before_year(y) + days_before_month(y, m) + d - 1
}

/// Seconds from 1970-01-01T00:00:00 to the wall-clock reading `c`, both read
/// on the same clock.
pub open spec fn civil_seconds(c: CivilDateTime) -> int {
    days_from_civil(c.year as int, c.month as int, c.day as int) * 86400 + c.hour * 3600 + c.minute
        * 60 + c.second
}

/// jiff's range of instants, in Unix seconds: those that every offset
/// within ±25:59:59 turns into a wall clock of years -9999..=9999.
pub open spec fn in_instant_range(epoch: int) -> bool {
    -377705023201 <= epoch <= 253402207200
}

impl ZonedTime {
    /// What every resolved date-time satisfies: a valid wall clock, an
    /// offset within jiff's bounds (±25:59:59), an instant that the wall
    /// clock shows at that offset, within jiff's range of instants.
    pub open spec fn wf(self) -> bool {
        &&& is_valid_civil(self.civil)
        &&& -93599 <= self.offset_seconds <= 93599
        &&& self.epoch_seconds == civil_seconds(self.civil) - self.offset_seconds
        &&& in_instant_range(self.epoch_seconds as int)
    }
}

// ---------------------------------------------------------------------------
// Reading SNCF's compact notation "YYYYMMDDTHHMMSS"
// ---------------------------------------------------------------------------

/// The byte range of each of the six numeric fields of "YYYYMMDDTHHMMSS".
pub open spec fn sncf_field_start(k: int) -> int {
    if k == 0 {
        0
    } else if k == 1 {
        4
    } else if k == 2 {
        6
    } else if k == 3 {
        9
    } else if k == 4 {
        11
    } else {
        13
    }
}

pub open spec fn sncf_field_end(k: int) -> int {
    if k == 0 {
        4
    } else if k == 1 {
        6
    } else if k == 2 {
        8
    } else if k == 3 {
        11
    } else if k == 4 {
        13
    } else {
        15
    }
}

/// The value read from field `k`, as Rust's integer parsing reads it.
pub open spec fn sncf_field(b: Seq<u8>, k: int) -> Option<int> {
    parse_int(b.subrange(sncf_field_start(k), sncf_field_end(k)), true)
}

/// The wall-clock reading that "YYYYMMDDTHHMMSS" denotes, when the string is
/// at least 15 bytes long and all six fields read as numbers (the byte at
/// index 8 is not looked at).
pub open spec fn sncf_civil_spec(b: Seq<u8>) -> Option<CivilDateTime> {
    if b.len() < 15 {
        None
    } else {
        match (
            sncf_field(b, 0),
            sncf_field(b, 1),
            sncf_field(b, 2),
            sncf_field(b, 3),
            sncf_field(b, 4),
            sncf_field(b, 5),
        ) {
            (Some(y), Some(m), Some(d), Some(hh), Some(mm), Some(ss)) => Some(
                CivilDateTime {
                    year: y as i16,
                    month: m as i8,
                    day: d as i8,
                    hour: hh as i8,
                    minute: mm as i8,
                    second: ss as i8,
                },
            ),
            _ => None,
        }
    }
}

/// The inputs on which reading "YYYYMMDDTHHMMSS" does not panic: each field
/// is cut out at character boundaries (checked only once the fields before
/// it have been read), and when all six fields read as numbers they form a
/// valid date and time.
pub open spec fn sncf_dt_safe(b: Seq<u8>) -> bool {
    b.len() < 15 || {
        &&& is_char_boundary(b, 4)
        &&& sncf_field(b, 0) is Some ==> {
            &&& is_char_boundary(b, 6)
            &&& sncf_field(b, 1) is Some ==> {
                &&& is_char_boundary(b, 8)
                &&& sncf_field(b, 2) is Some ==> {
                    &&& is_char_boundary(b, 9)
                    &&& is_char_boundary(b, 11)
                    &&& sncf_field(b, 3) is Some ==> {
                        &&& is_char_boundary(b, 13)
                        &&& sncf_field(b, 4) is Some ==> {
                            &&& is_char_boundary(b, 15)
                            &&& sncf_field(b, 5) is Some ==> is_valid_civil(
                                sncf_civil_spec(b).unwrap(),
                            )
                        }
                    }
                }
            }
        }
    }
}

proof fn lemma_small_pow10()
    ensures
        pow10(2) == 100,
        pow10(4) == 10000,
{
    reveal_with_fuel(pow10, 5);
}

/// Reads field `k` of "YYYYMMDDTHHMMSS".
fn read_sncf_field(b: &[u8], k: usize) -> (r: Option<i64>)
    requires
        b@.len() >= 15,
        k < 6,
    ensures
        match r {
            Some(v) => sncf_field(b@, k as int) == Some(v as int),
            None => sncf_field(b@, k as int) is None,
        },
        r matches Some(v) ==> (k == 0 ==> -10000 < v < 10000) && (k != 0 ==> -100 < v < 100),
{
    proof {
        lemma_small_pow10();
    }
    let (from, to): (usize, usize) = if k == 0 {
        (0, 4)
    } else if k == 1 {
        (4, 6)
    } else if k == 2 {
        (6, 8)
    } else if k == 3 {
        (9, 11)
    } else if k == 4 {
        (11, 13)
    } else {
        (13, 15)
    };
    parse_int_in(b, from, to, true)
}

/// Whether reading "YYYYMMDDTHHMMSS" from `s` stays clear of the panics of
/// slicing and of building an invalid date.
pub fn sncf_dt_is_safe(s: &str) -> (r: bool)
    ensures
        r == sncf_dt_safe(s.spec_bytes()),
{
    let b = s.as_bytes();
    if b.len() < 15 {
        return true;
    }
    if !s.is_char_boundary(4) {
        return false;
    }
    let y = match read_sncf_field(b, 0) {
        Some(v) => v,
        None => return true,
    };
    if !s.is_char_boundary(6) {
        return false;
    }
    let m = match read_sncf_field(b, 1) {
        Some(v) => v,
        None => return true,
    };
    if !s.is_char_boundary(8) {
        return false;
    }
    let d = match read_sncf_field(b, 2) {
        Some(v) => v,
        None => return true,
    };
    if !s.is_char_boundary(9) || !s.is_char_boundary(11) {
        return false;
    }
    let hh = match read_sncf_field(b, 3) {
        Some(v) => v,
        None => return true,
    };
    if !s.is_char_boundary(13) {
        return false;
    }
    let mm = match read_sncf_field(b, 4) {
        Some(v) => v,
        None => return true,
    };
    if !s.is_char_boundary(15) {
        return false;
    }
    let ss = match read_sncf_field(b, 5) {
        Some(v) => v,
        None => return true,
    };
    let c = CivilDateTime {
        year: y as i16,
        month: m as i8,
        day: d as i8,
        hour: hh as i8,
        minute: mm as i8,
        second: ss as i8,
    };
    is_valid_civil_exec(&c)
}

/// `y` is a leap year of the proleptic Gregorian calendar.
pub fn is_leap_year_exec(y: i64) -> (r: bool)
    ensures
        r == is_leap_year(y as int),
{
    y % 4 == 0 && (y % 100 != 0 || y % 400 == 0)
}

/// Whether `c` is a wall-clock reading that jiff accepts.
pub fn is_valid_civil_exec(c: &CivilDateTime) -> (r: bool)
    ensures
        r == is_valid_civil(*c),
{
    if !(-9999 <= c.year && c.year <= 9999 && 1 <= c.month && c.month <= 12) {
        return false;
    }
    let m = c.month;
    let dim: i8 = if m == 2 {
        if is_leap_year_exec(c.year as i64) {
            29
        } else {
            28
        }
    } else if m == 4 || m == 6 || m == 9 || m == 11 {
        30
    } else {
        31
    };
    1 <= c.day && c.day <= dim && 0 <= c.hour && c.hour <= 23 && 0 <= c.minute && c.minute <= 59
        && 0 <= c.second && c.second <= 59
}

/// Reads the wall-clock reading of SNCF's "YYYYMMDDTHHMMSS" notation.
pub fn parse_sncf_civil(s: &str) -> (r: Option<CivilDateTime>)
    requires
        sncf_dt_safe(s.spec_bytes()),
    ensures
        r == sncf_civil_spec(s.spec_bytes()),
        r matches Some(c) ==> is_valid_civil(c),
{
    let b = s.as_bytes();
    if b.len() < 15 {
        return None;
    }
    let y = match read_sncf_field(b, 0) {
        Some(v) => v,
        None => return None,
    };
    let m = match read_sncf_field(b, 1) {
        Some(v) => v,
        None => return None,
    };
    let d = match read_sncf_field(b, 2) {
        Some(v) => v,
        None => return None,
    };
    let hh = match read_sncf_field(b, 3) {
        Some(v) => v,
        None => return None,
    };
    let mm = match read_sncf_field(b, 4) {
        Some(v) => v,
        None => return None,
    };
    let ss = match read_sncf_field(b, 5) {
        Some(v) => v,
        None => return None,
    };
    Some(
        CivilDateTime {
            year: y as i16,
            month: m as i8,
            day: d as i8,
            hour: hh as i8,
            minute: mm as i8,
            second: ss as i8,
        },
    )
}


// ---------------------------------------------------------------------------
// Resolution in the machine's time zone, and printing
// ---------------------------------------------------------------------------

/// The reading `c` lies far enough inside jiff's range of instants that
/// reading it at any offset within ±25:59:59 gives an instant of that range.
pub open spec fn resolvable_anywhere(c: CivilDateTime) -> bool {
    &&& in_instant_range(civil_seconds(c) - 93599)
    &&& in_instant_range(civil_seconds(c) + 93599)
}

/// `z` is what resolving the wall-clock reading `c` in some time zone can
/// give: a well-formed zoned time whose instant is `c` read at an offset
/// within ±25:59:59, and whose wall clock is not earlier than `c` (it is
/// later when `c` falls in a gap of the zone and is moved forward).
pub open spec fn resolved_from(c: CivilDateTime, z: ZonedTime) -> bool {
    &&& z.wf()
    &&& -93599 <= civil_seconds(c) - z.epoch_seconds <= 93599
    &&& civil_seconds(c) <= civil_seconds(z.civil)
}

/// `jiff::civil::DateTime::to_zoned` with `jiff::tz::TimeZone::system()`, on
/// the date-time `c` with no fraction of a second. The result depends on the
/// machine's time zone, so only what holds of every outcome is claimed: a
/// returned value is a valid wall clock with an offset within ±25:59:59 and
/// an instant that this wall clock shows at this offset; its instant is `c`
/// read at one of the zone's offsets (jiff's "compatible" rule: the earlier
/// instant in a fold, the later one in a gap), so within ±25:59:59 of `c`
/// read as UTC, and its wall clock is `c`, or later when `c` falls in a
/// gap. jiff fails only when `c` read at the zone's offset falls outside
/// its range of instants, so a reading that lies far enough inside that
/// range (`resolvable_anywhere`) always resolves. Not claimed: which offset
/// the zone has, and so whether a reading near the ends of the range
/// resolves.
#[verifier::external_body]
fn resolve_in_system_zone(c: CivilDateTime) -> (r: Option<ZonedTime>)
    requires
        is_valid_civil(c),
    ensures
        r matches Some(z) ==> resolved_from(c, z),
        resolvable_anywhere(c) ==> r is Some,
{
    let dt = jiff::civil::date(c.year, c.month, c.day).at(c.hour, c.minute, c.second, 0);
    match dt.to_zoned(jiff::tz::TimeZone::system()) {
        Ok(z) => Some(ZonedTime {
            civil: CivilDateTime { year: z.year(), month: z.month(), day: z.day(), hour: z.hour(), minute: z.minute(), second: z.second() },
            offset_seconds: z.offset().seconds(),
            epoch_seconds: z.timestamp().as_second(),
        }),
        Err(_) => None,
    }
}

/// Reads SNCF's "YYYYMMDDTHHMMSS" notation and resolves it in the machine's
/// time zone. `None` when the text does not read as a date-time (then
/// whatever the zone), or when the zone cannot hold it; a reading that lies
/// far enough inside jiff's range of instants always resolves.
pub fn parse_sncf_dt(s: &str) -> (r: Option<ZonedTime>)
    requires
        sncf_dt_safe(s.spec_bytes()),
    ensures
        sncf_civil_spec(s.spec_bytes()) is None ==> r is None,
        sncf_civil_spec(s.spec_bytes()) matches Some(c) && resolvable_anywhere(c) ==> r is Some,
        r matches Some(z) ==> sncf_civil_spec(s.spec_bytes()) matches Some(c) && resolved_from(
            c,
            z,
        ),
{
    match parse_sncf_civil(s) {
        Some(c) => resolve_in_system_zone(c),
        None => None,
    }
}

pub open spec fn digit_char(v: int) -> char {
    if v == 1 {
        '1'
    } else if v == 2 {
        '2'
    } else if v == 3 {
        '3'
    } else if v == 4 {
        '4'
    } else if v == 5 {
        '5'
    } else if v == 6 {
        '6'
    } else if v == 7 {
        '7'
    } else if v == 8 {
        '8'
    } else if v == 9 {
        '9'
    } else {
        '0'
    }
}

/// Two decimal digits of `v` (0..=99).
pub open spec fn pad2(v: int) -> Seq<char> {
    seq![digit_char(v / 10), digit_char(v % 10)]
}

/// Four decimal digits of `v` (0..=9999).
pub open spec fn pad4(v: int) -> Seq<char> {
    seq![digit_char(v / 1000), digit_char((v / 100) % 10), digit_char((v / 10) % 10), digit_char(v % 10)]
}

/// How jiff prints a year: four digits, or "-00" and four digits when negative.
pub open spec fn year_text(y: int) -> Seq<char> {
    if y < 0 {
        seq!['-', '0', '0'] + pad4(-y)
    } else {
        pad4(y)
    }
}

/// How jiff prints a date-time with no fraction of a second:
/// "YYYY-MM-DDTHH:MM:SS".
pub open spec fn civil_text_spec(c: CivilDateTime) -> Seq<char> {
    year_text(c.year as int) + seq!['-'] + pad2(c.month as int) + seq!['-'] + pad2(c.day as int)
        + seq!['T'] + pad2(c.hour as int) + seq![':'] + pad2(c.minute as int) + seq![':'] + pad2(
        c.second as int,
    )
}

/// `Display` of `jiff::civil::DateTime` (via `to_string`), for the date-time
/// `c` with no fraction of a second. Claimed: the text is `civil_text_spec(c)`
/// (year, "-", month, "-", day, "T", hour, ":", minute, ":", second, as
/// jiff's printer writes them). A `jiff::Zoned` prints this same text first,
/// then its offset and zone.
#[verifier::external_body]
fn civil_text(c: CivilDateTime) -> (r: String)
    requires
        is_valid_civil(c),
    ensures
        r@ == civil_text_spec(c),
{
    jiff::civil::date(c.year, c.month, c.day).at(c.hour, c.minute, c.second, 0).to_string()
}

proof fn lemma_civil_text_ascii(c: CivilDateTime)
    ensures
        is_ascii_chars(civil_text_spec(c)),
        civil_text_spec(c).len() >= 19,
{
    let t = civil_text_spec(c);
    assert forall|i| 0 <= i < t.len() implies '\0' <= #[trigger] t[i] <= '\u{7f}' by {}
}

/// The "HH:MM" part of a resolved date-time, cut from its printed form.
pub fn format_hm(z: &ZonedTime) -> (r: String)
    requires
        z.wf(),
    ensures
        r@ == civil_text_spec(z.civil).subrange(11, 16),
{
    let s = civil_text(z.civil);
    proof {
        lemma_civil_text_ascii(z.civil);
    }
    let t = s.as_str();
    if t.len() >= 16 {
        t.substring_ascii(11, 16).to_owned()
    } else {
        s
    }
}

/// The "YYYY-MM-DD" part of a resolved date-time, cut from its printed form.
pub fn format_date(z: &ZonedTime) -> (r: String)
    requires
        z.wf(),
    ensures
        r@ == civil_text_spec(z.civil).subrange(0, 10),
{
    let s = civil_text(z.civil);
    proof {
        lemma_civil_text_ascii(z.civil);
    }
    let t = s.as_str();
    if t.len() >= 10 {
        t.substring_ascii(0, 10).to_owned()
    } else {
        s
    }
}


// ---------------------------------------------------------------------------
// Reading "YYYY-MM-DDTHH:MM:SSZ" as Unix seconds
// ---------------------------------------------------------------------------

pub open spec fn rfc_field_start(k: int) -> int {
    if k == 0 {
        0
    } else {
        3 * k + 2
    }
}

pub open spec fn rfc_field_end(k: int) -> int {
    if k == 0 {
        4
    } else {
        3 * k + 4
    }
}

/// The value read from field `k` of "YYYY-MM-DDTHH:MM:SSZ".
pub open spec fn rfc_field(b: Seq<u8>, k: int) -> Option<int> {
    parse_int(b.subrange(rfc_field_start(k), rfc_field_end(k)), true)
}

/// The shape test: at least 20 bytes, the last being `Z`.
pub open spec fn rfc_shape(b: Seq<u8>) -> bool {
    b.len() >= 20 && b.last() == 90
}

/// Integer division rounding toward zero, as Rust's `/` on `i64` does.
pub open spec fn div_toward_zero(a: int, d: int) -> int {
    if a >= 0 {
        a / d
    } else {
        -((-a) / d)
    }
}

/// Days from 1970-01-01 to January 1st of year `y`, counted as the reader
/// counts them: leap years before `y` by division rounding toward zero, less
/// the 477 leap years before 1970.
pub open spec fn rfc_days_before_year(y: int) -> int {
    (y - 1970) * 365 + (div_toward_zero(y - 1, 4) - div_toward_zero(y - 1, 100) + div_toward_zero(
        y - 1,
        400,
    ) - 477)
}

/// The number of seconds the reader computes from the six fields; the day,
/// hour, minute and second are used as read, without range checks.
pub open spec fn rfc_seconds(y: int, m: int, d: int, hh: int, mm: int, ss: int) -> int {
    (rfc_days_before_year(y) + days_before_month(y, m) + (d - 1)) * 86400 + hh * 3600 + mm * 60
        + ss
}

/// What `rfc3339z_to_epoch` returns for the bytes `b`.
pub open spec fn rfc3339z_spec(b: Seq<u8>) -> Option<int> {
    if !rfc_shape(b) {
        None
    } else {
        match (
            rfc_field(b, 0),
            rfc_field(b, 1),
            rfc_field(b, 2),
            rfc_field(b, 3),
            rfc_field(b, 4),
            rfc_field(b, 5),
        ) {
            (Some(y), Some(m), Some(d), Some(hh), Some(mm), Some(ss)) => Some(
                rfc_seconds(y, m, d, hh, mm, ss),
            ),
            _ => None,
        }
    }
}

/// The inputs on which `rfc3339z_to_epoch` does not panic: each field is cut
/// out at character boundaries (checked once the fields before it have been
/// read), and a month that reads as a number lies in 1..=12 (it indexes the
/// table of month lengths).
pub open spec fn rfc3339z_safe(b: Seq<u8>) -> bool {
    !rfc_shape(b) || {
        &&& is_char_boundary(b, 4)
        &&& rfc_field(b, 0) is Some ==> {
            &&& is_char_boundary(b, 5) && is_char_boundary(b, 7)
            &&& rfc_field(b, 1) is Some ==> {
                &&& is_char_boundary(b, 8) && is_char_boundary(b, 10)
                &&& rfc_field(b, 2) is Some ==> {
                    &&& is_char_boundary(b, 11) && is_char_boundary(b, 13)
                    &&& rfc_field(b, 3) is Some ==> {
                        &&& is_char_boundary(b, 14) && is_char_boundary(b, 16)
                        &&& rfc_field(b, 4) is Some ==> {
                            &&& is_char_boundary(b, 17) && is_char_boundary(b, 19)
                            &&& rfc_field(b, 5) is Some ==> 1 <= rfc_field(b, 1).unwrap() <= 12
                        }
                    }
                }
            }
        }
    }
}

fn read_rfc_field(b: &[u8], k: usize) -> (r: Option<i64>)
    requires
        b@.len() >= 20,
        k < 6,
    ensures
        match r {
            Some(v) => rfc_field(b@, k as int) == Some(v as int),
            None => rfc_field(b@, k as int) is None,
        },
        r matches Some(v) ==> -10000 < v < 10000,
{
    let from: usize = if k == 0 {
        0
    } else {
        3 * k + 2
    };
    let to: usize = if k == 0 {
        4
    } else {
        3 * k + 4
    };
    parse_int_in(b, from, to, true)
}

/// Whether `rfc3339z_to_epoch` reads `s` without a panic.
pub fn rfc3339z_is_safe(s: &str) -> (r: bool)
    ensures
        r == rfc3339z_safe(s.spec_bytes()),
{
    let b = s.as_bytes();
    if b.len() < 20 || b[b.len() - 1] != 90 {
        return true;
    }
    if !s.is_char_boundary(4) {
        return false;
    }
    if read_rfc_field(b, 0).is_none() {
        return true;
    }
    if !s.is_char_boundary(5) || !s.is_char_boundary(7) {
        return false;
    }
    let month = match read_rfc_field(b, 1) {
        Some(v) => v,
        None => return true,
    };
    if !s.is_char_boundary(8) || !s.is_char_boundary(10) {
        return false;
    }
    if read_rfc_field(b, 2).is_none() {
        return true;
    }
    if !s.is_char_boundary(11) || !s.is_char_boundary(13) {
        return false;
    }
    if read_rfc_field(b, 3).is_none() {
        return true;
    }
    if !s.is_char_boundary(14) || !s.is_char_boundary(16) {
        return false;
    }
    if read_rfc_field(b, 4).is_none() {
        return true;
    }
    if !s.is_char_boundary(17) || !s.is_char_boundary(19) {
        return false;
    }
    if read_rfc_field(b, 5).is_none() {
        return true;
    }
    1 <= month && month <= 12
}

fn div_toward_zero_exec(a: i64, d: i64) -> (r: i64)
    requires
        d > 0,
        -100000 < a < 100000,
    ensures
        r == div_toward_zero(a as int, d as int),
{
    if a >= 0 {
        a / d
    } else {
        -((-a) / d)
    }
}

/// Reads a UTC timestamp "YYYY-MM-DDTHH:MM:SSZ" (anything may follow the
/// seconds, as long as the text ends with `Z`) as seconds since the Unix
/// epoch. `None` when the text is shorter than 20 bytes, does not end with
/// `Z`, or a field does not read as a number.
pub fn rfc3339z_to_epoch(s: &str) -> (r: Option<i64>)
    requires
        rfc3339z_safe(s.spec_bytes()),
    ensures
        match r {
            Some(v) => rfc3339z_spec(s.spec_bytes()) == Some(v as int),
            None => rfc3339z_spec(s.spec_bytes()) is None,
        },
{
    let b = s.as_bytes();
    if b.len() < 20 || b[b.len() - 1] != 90 {
        return None;
    }
    let year = match read_rfc_field(b, 0) {
        Some(v) => v,
        None => return None,
    };
    let month = match read_rfc_field(b, 1) {
        Some(v) => v,
        None => return None,
    };
    let day = match read_rfc_field(b, 2) {
        Some(v) => v,
        None => return None,
    };
    let hour = match read_rfc_field(b, 3) {
        Some(v) => v,
        None => return None,
    };
    let minute = match read_rfc_field(b, 4) {
        Some(v) => v,
        None => return None,
    };
    let second = match read_rfc_field(b, 5) {
        Some(v) => v,
        None => return None,
    };
    let y1 = year - 1;
    let leaps = div_toward_zero_exec(y1, 4) - div_toward_zero_exec(y1, 100) + div_toward_zero_exec(
        y1,
        400,
    );
    let before_year = (y1 - 1970 + 1) * 365 + (leaps - 477);
    let month_start: i64 = if month == 1 {
        0
    } else if month == 2 {
        31
    } else if month == 3 {
        59
    } else if month == 4 {
        90
    } else if month == 5 {
        120
    } else if month == 6 {
        151
    } else if month == 7 {
        181
    } else if month == 8 {
        212
    } else if month == 9 {
        243
    } else if month == 10 {
        273
    } else if month == 11 {
        304
    } else {
        334
    };
    let before_month = if month > 2 && is_leap_year_exec(year) {
        month_start + 1
    } else {
        month_start
    };
    let days = before_year + before_month + (day - 1);
    Some(days * 86400 + hour * 3600 + minute * 60 + second)
}


/// The bytes of an ASCII text.
pub open spec fn ascii_bytes(t: Seq<char>) -> Seq<u8> {
    t.map_values(|c: char| c as u8)
}

proof fn lemma_digit_byte(v: int)
    requires
        0 <= v <= 9,
    ensures
        digit_char(v) as u8 == 48 + v,
{
}

proof fn lemma_pad2_reads(v: int)
    requires
        0 <= v <= 99,
    ensures
        parse_int(ascii_bytes(pad2(v)), true) == Some(v),
{
    let b = ascii_bytes(pad2(v));
    lemma_digit_byte(v / 10);
    lemma_digit_byte(v % 10);
    let b1 = b.drop_last();
    assert(b1.drop_last() =~= Seq::<u8>::empty());
    assert(crate::digits::digits_value(b1.drop_last()) == 0);
    assert(b1.last() == b[0]);
    assert(crate::digits::digits_value(b1) == v / 10);
    assert(crate::digits::all_digits(b));
}

proof fn lemma_pad4_reads(v: int)
    requires
        0 <= v <= 9999,
    ensures
        parse_int(ascii_bytes(pad4(v)), true) == Some(v),
{
    let b = ascii_bytes(pad4(v));
    lemma_digit_byte(v / 1000);
    lemma_digit_byte((v / 100) % 10);
    lemma_digit_byte((v / 10) % 10);
    lemma_digit_byte(v % 10);
    assert(crate::digits::all_digits(b));
    let b3 = b.drop_last();
    let b2 = b3.drop_last();
    let b1 = b2.drop_last();
    assert(b1.drop_last() =~= Seq::<u8>::empty());
    assert(crate::digits::digits_value(b1.drop_last()) == 0);
    assert(b1.last() == b[0] && b2.last() == b[1] && b3.last() == b[2]);
    assert(crate::digits::digits_value(b1) == v / 1000);
    assert((v / 1000) * 10 + (v / 100) % 10 == v / 100) by (nonlinear_arith)
        requires
            0 <= v,
    ;
    assert((v / 100) * 10 + (v / 10) % 10 == v / 10) by (nonlinear_arith)
        requires
            0 <= v,
    ;
    assert((v / 10) * 10 + v % 10 == v) by (nonlinear_arith)
        requires
            0 <= v,
    ;
    assert(crate::digits::digits_value(b2) == v / 100);
    assert(crate::digits::digits_value(b3) == v / 10);
}

/// The text jiff prints for an instant: the UTC wall clock followed by `Z`.
pub open spec fn utc_text_spec(c: CivilDateTime) -> Seq<u8> {
    ascii_bytes(civil_text_spec(c) + seq!['Z'])
}

/// Law: reading back what jiff prints for an instant gives that instant.
/// For every valid UTC wall clock `c` from year 1 on, `rfc3339z_to_epoch`
/// reads the text "YYYY-MM-DDTHH:MM:SSZ" of `c` as the seconds between the
/// Unix epoch and `c`. (Year 0 is left out: there the reader's division
/// rounding toward zero counts one leap year less.)
pub proof fn law_rfc3339z_reads_printed_instant(c: CivilDateTime)
    requires
        is_valid_civil(c),
        c.year >= 1,
    ensures
        rfc3339z_spec(utc_text_spec(c)) == Some(civil_seconds(c)),
{
    let b = utc_text_spec(c);
    assert(b.len() == 20);
    assert(b.last() == 90);
    assert(b.subrange(0, 4) =~= ascii_bytes(pad4(c.year as int)));
    assert(b.subrange(5, 7) =~= ascii_bytes(pad2(c.month as int)));
    assert(b.subrange(8, 10) =~= ascii_bytes(pad2(c.day as int)));
    assert(b.subrange(11, 13) =~= ascii_bytes(pad2(c.hour as int)));
    assert(b.subrange(14, 16) =~= ascii_bytes(pad2(c.minute as int)));
    assert(b.subrange(17, 19) =~= ascii_bytes(pad2(c.second as int)));
    lemma_pad4_reads(c.year as int);
    lemma_pad2_reads(c.month as int);
    lemma_pad2_reads(c.day as int);
    lemma_pad2_reads(c.hour as int);
    lemma_pad2_reads(c.minute as int);
    lemma_pad2_reads(c.second as int);
    assert(rfc_field(b, 0) == Some(c.year as int));
    assert(rfc_field(b, 1) == Some(c.month as int));
    assert(rfc_field(b, 2) == Some(c.day as int));
    assert(rfc_field(b, 3) == Some(c.hour as int));
    assert(rfc_field(b, 4) == Some(c.minute as int));
    assert(rfc_field(b, 5) == Some(c.second as int));
    assert(rfc_days_before_year(c.year as int) == days_before_year(c.year as int));
}

proof fn lemma_two_digits(b: Seq<u8>, i: int)
    requires
        0 <= i,
        i + 2 <= b.len(),
        crate::digits::all_digits(b.subrange(i, i + 2)),
    ensures
        parse_int(b.subrange(i, i + 2), true) matches Some(v) && 0 <= v <= 99 && pad2(v)
            == seq![b[i] as char, b[i + 1] as char],
{
    let t = b.subrange(i, i + 2);
    assert(crate::digits::is_digit(t[0]) && crate::digits::is_digit(t[1]));
    let t1 = t.drop_last();
    assert(t1.drop_last() =~= Seq::<u8>::empty());
    assert(crate::digits::digits_value(t1.drop_last()) == 0);
    assert(t1.last() == b[i] && t.last() == b[i + 1]);
    let d0 = b[i] - 48;
    let d1 = b[i + 1] - 48;
    assert(crate::digits::digits_value(t1) == d0);
    let v = d0 * 10 + d1;
    assert(crate::digits::digits_value(t) == v);
    assert(v / 10 == d0 && v % 10 == d1) by (nonlinear_arith)
        requires
            0 <= d0 <= 9,
            0 <= d1 <= 9,
            v == d0 * 10 + d1,
    ;
    assert(pad2(v) =~= seq![b[i] as char, b[i + 1] as char]);
}

proof fn lemma_four_digits(b: Seq<u8>)
    requires
        4 <= b.len(),
        crate::digits::all_digits(b.subrange(0, 4)),
    ensures
        parse_int(b.subrange(0, 4), true) matches Some(v) && 0 <= v <= 9999 && year_text(v)
            == seq![b[0] as char, b[1] as char, b[2] as char, b[3] as char],
{
    let t = b.subrange(0, 4);
    assert(crate::digits::is_digit(t[0]) && crate::digits::is_digit(t[1]));
    assert(crate::digits::is_digit(t[2]) && crate::digits::is_digit(t[3]));
    let t3 = t.drop_last();
    let t2 = t3.drop_last();
    let t1 = t2.drop_last();
    assert(t1.drop_last() =~= Seq::<u8>::empty());
    assert(crate::digits::digits_value(t1.drop_last()) == 0);
    assert(t1.last() == b[0] && t2.last() == b[1] && t3.last() == b[2] && t.last() == b[3]);
    let d0 = b[0] - 48;
    let d1 = b[1] - 48;
    let d2 = b[2] - 48;
    let d3 = b[3] - 48;
    assert(crate::digits::digits_value(t1) == d0);
    assert(crate::digits::digits_value(t2) == d0 * 10 + d1);
    assert(crate::digits::digits_value(t3) == (d0 * 10 + d1) * 10 + d2);
    let v = ((d0 * 10 + d1) * 10 + d2) * 10 + d3;
    assert(crate::digits::digits_value(t) == v);
    assert(v / 1000 == d0 && (v / 100) % 10 == d1 && (v / 10) % 10 == d2 && v % 10 == d3)
        by (nonlinear_arith)
        requires
            0 <= d0 <= 9,
            0 <= d1 <= 9,
            0 <= d2 <= 9,
            0 <= d3 <= 9,
            v == ((d0 * 10 + d1) * 10 + d2) * 10 + d3,
    ;
    assert(year_text(v) =~= seq![b[0] as char, b[1] as char, b[2] as char, b[3] as char]);
}

/// Law: the date and time shown are the ones sent. When the first eight
/// bytes and the hour and minute of "YYYYMMDDTHHMMSS" are plain digits, the
/// printed date of the reading is "YYYY-MM-DD" and its printed time "HH:MM",
/// made of the very digits sent (so a journey shows its departure as the
/// API wrote it, unless the time zone moved the wall clock).
pub proof fn law_shown_date_and_time_are_sent_ones(b: Seq<u8>)
    requires
        b.len() >= 15,
        crate::digits::all_digits(b.subrange(0, 8)),
        crate::digits::all_digits(b.subrange(9, 13)),
        sncf_civil_spec(b) is Some,
    ensures
        civil_text_spec(sncf_civil_spec(b).unwrap()).subrange(0, 10) == seq![
            b[0] as char,
            b[1] as char,
            b[2] as char,
            b[3] as char,
            '-',
            b[4] as char,
            b[5] as char,
            '-',
            b[6] as char,
            b[7] as char,
        ],
        civil_text_spec(sncf_civil_spec(b).unwrap()).subrange(11, 16) == seq![
            b[9] as char,
            b[10] as char,
            ':',
            b[11] as char,
            b[12] as char,
        ],
{
    assert forall|i: int| 0 <= i < 4 implies crate::digits::is_digit(
        #[trigger] b.subrange(0, 4)[i],
    ) by {
        assert(b.subrange(0, 4)[i] == b.subrange(0, 8)[i]);
    }
    assert forall|i: int| 0 <= i < 2 implies crate::digits::is_digit(
        #[trigger] b.subrange(4, 6)[i],
    ) by {
        assert(b.subrange(4, 6)[i] == b.subrange(0, 8)[i + 4]);
    }
    assert forall|i: int| 0 <= i < 2 implies crate::digits::is_digit(
        #[trigger] b.subrange(6, 8)[i],
    ) by {
        assert(b.subrange(6, 8)[i] == b.subrange(0, 8)[i + 6]);
    }
    assert forall|i: int| 0 <= i < 2 implies crate::digits::is_digit(
        #[trigger] b.subrange(9, 11)[i],
    ) by {
        assert(b.subrange(9, 11)[i] == b.subrange(9, 13)[i]);
    }
    assert forall|i: int| 0 <= i < 2 implies crate::digits::is_digit(
        #[trigger] b.subrange(11, 13)[i],
    ) by {
        assert(b.subrange(11, 13)[i] == b.subrange(9, 13)[i + 2]);
    }
    lemma_four_digits(b);
    lemma_two_digits(b, 4);
    lemma_two_digits(b, 6);
    lemma_two_digits(b, 9);
    lemma_two_digits(b, 11);
    let c = sncf_civil_spec(b).unwrap();
    let t = civil_text_spec(c);
    assert(t.subrange(0, 10) =~= seq![
        b[0] as char,
        b[1] as char,
        b[2] as char,
        b[3] as char,
        '-',
        b[4] as char,
        b[5] as char,
        '-',
        b[6] as char,
        b[7] as char,
    ]);
    assert(t.subrange(11, 16) =~= seq![
        b[9] as char,
        b[10] as char,
        ':',
        b[11] as char,
        b[12] as char,
    ]);
}

/// The UTC wall clock of an instant: the valid reading whose seconds since
/// the epoch are `epoch`.
pub open spec fn utc_reading(epoch: int) -> CivilDateTime {
    choose|u: CivilDateTime| is_valid_civil(u) && civil_seconds(u) == epoch
}

/// `t` is the text of the instant `epoch`: its UTC wall clock (a valid
/// reading `epoch` seconds after the Unix epoch) as "YYYY-MM-DDTHH:MM:SS",
/// then `Z`.
pub open spec fn prints_instant(t: Seq<char>, epoch: int) -> bool {
    &&& is_valid_civil(utc_reading(epoch))
    &&& civil_seconds(utc_reading(epoch)) == epoch
    &&& t == civil_text_spec(utc_reading(epoch)) + seq!['Z']
}

/// `jiff::Timestamp::from_second` then `Display` (`to_string`). Claimed: for
/// an instant within jiff's range, there is a valid UTC wall clock whose
/// seconds since the epoch are `epoch`, and the text is that wall clock
/// printed as "YYYY-MM-DDTHH:MM:SS" followed by `Z`.
#[verifier::external_body]
fn instant_text(epoch: i64) -> (r: String)
    requires
        in_instant_range(epoch as int),
    ensures
        prints_instant(r@, epoch as int),
{
    jiff::Timestamp::from_second(epoch).unwrap().to_string()
}

proof fn lemma_rfc3339z_bound(b: Seq<u8>)
    ensures
        rfc3339z_spec(b) matches Some(v) ==> -1_000_000_000_000 < v < 1_000_000_000_000,
{
    if rfc3339z_spec(b) is Some {
        lemma_parse_int_small(b.subrange(rfc_field_start(0), rfc_field_end(0)), true);
        lemma_parse_int_small(b.subrange(rfc_field_start(1), rfc_field_end(1)), true);
        lemma_parse_int_small(b.subrange(rfc_field_start(2), rfc_field_end(2)), true);
        lemma_parse_int_small(b.subrange(rfc_field_start(3), rfc_field_end(3)), true);
        lemma_parse_int_small(b.subrange(rfc_field_start(4), rfc_field_end(4)), true);
        lemma_parse_int_small(b.subrange(rfc_field_start(5), rfc_field_end(5)), true);
    }
}

/// The seconds since the epoch that `rfc3339z_to_epoch` reads from the text
/// jiff prints for the instant `epoch`, or `default` when it reads none.
pub open spec fn epoch_read_back(epoch: int, default: int) -> int {
    match rfc3339z_spec(utc_text_spec(utc_reading(epoch))) {
        Some(v) => v,
        None => default,
    }
}

/// Prints the instant of `z` as jiff does and reads it back with
/// `rfc3339z_to_epoch`, `default` standing for an unreadable text.
pub fn epoch_via_text(z: &ZonedTime, default: i64) -> (r: i64)
    requires
        z.wf(),
        rfc3339z_safe(utc_text_spec(utc_reading(z.epoch_seconds as int))),
    ensures
        r == epoch_read_back(z.epoch_seconds as int, default as int),
        -1_000_000_000_000 < default < 1_000_000_000_000 ==> -1_000_000_000_000 < r
            < 1_000_000_000_000,
{
    proof {
        lemma_rfc3339z_bound(utc_text_spec(utc_reading(z.epoch_seconds as int)));
    }
    let text = instant_text(z.epoch_seconds);
    proof {
        let u = utc_reading(z.epoch_seconds as int);
        lemma_civil_text_ascii(u);
        let t = civil_text_spec(u) + seq!['Z'];
        assert(is_ascii_chars(t)) by {
            assert forall|i| 0 <= i < t.len() implies '\0' <= #[trigger] t[i] <= '\u{7f}' by {
                if i < civil_text_spec(u).len() {
                    assert(t[i] == civil_text_spec(u)[i]);
                }
            }
        }
        vstd::utf8::is_ascii_chars_encode_utf8(t);
    }
    let ts = text.as_str();
    proof {
        let u = utc_reading(z.epoch_seconds as int);
        assert(ts.spec_bytes() =~= utc_text_spec(u));
    }
    match rfc3339z_to_epoch(ts) {
        Some(v) => v,
        None => default,
    }
}

/// The instant's UTC wall clock is a valid reading from year 1 on.
pub open spec fn utc_from_year_one(epoch: int) -> bool {
    exists|u: CivilDateTime| is_valid_civil(u) && civil_seconds(u) == epoch && u.year >= 1
}

/// Law: reading back what jiff prints for an instant gives that instant
/// (whatever the default), for every instant whose UTC wall clock is from
/// year 1 on.
pub proof fn law_epoch_read_back(epoch: int, default: int)
    requires
        utc_from_year_one(epoch),
    ensures
        epoch_read_back(epoch, default) == epoch,
{
    let w = choose|u: CivilDateTime| is_valid_civil(u) && civil_seconds(u) == epoch && u.year >= 1;
    let u = utc_reading(epoch);
    assert(is_valid_civil(u) && civil_seconds(u) == epoch);
    crate::calendar::law_readings_are_distinct_instants(u, w);
    law_rfc3339z_reads_printed_instant(u);
}

} // verus!
