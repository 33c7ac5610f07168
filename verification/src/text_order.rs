//! The order of the UTC texts "YYYY-MM-DDTHH:MM:SSZ" that jiff prints:
//! reading them back as Unix seconds keeps their byte order, and tells
//! distinct texts apart.

use vstd::prelude::*;
use crate::calendar::{civil_before, law_earlier_reading_is_earlier_instant};
use crate::civil::{
    CivilDateTime, civil_seconds, is_valid_civil, law_rfc3339z_reads_printed_instant,
    rfc3339z_spec, utc_text_spec,
};

verus! {

/// Of two byte strings of the same length, `a` comes first: at the first
/// place where they differ, `a` holds the smaller byte.
pub open spec fn bytes_before(a: Seq<u8>, b: Seq<u8>) -> bool {
    exists|i: int|
        #![trigger a[i], b[i]]
        0 <= i < a.len() && i < b.len() && a.subrange(0, i) == b.subrange(0, i) && a[i] < b[i]
}

/// Digit `k` (from the left) of the four-digit number `v`.
pub open spec fn digit4(v: int, k: int) -> int {
    if k == 0 {
        v / 1000
    } else if k == 1 {
        (v / 100) % 10
    } else if k == 2 {
        (v / 10) % 10
    } else {
        v % 10
    }
}

/// Digit `k` (from the left) of the two-digit number `v`.
pub open spec fn digit2(v: int, k: int) -> int {
    if k == 0 {
        v / 10
    } else {
        v % 10
    }
}

/// Byte `j` of the UTC text of `c` (a year from 0 on): digits at their
/// places, `-`, `T`, `:` and `Z` between them.
pub open spec fn text_byte(c: CivilDateTime, j: int) -> int {
    if j < 4 {
        48 + digit4(c.year as int, j)
    } else if j == 4 {
        45
    } else if j < 7 {
        48 + digit2(c.month as int, j - 5)
    } else if j == 7 {
        45
    } else if j < 10 {
        48 + digit2(c.day as int, j - 8)
    } else if j == 10 {
        84
    } else if j < 13 {
        48 + digit2(c.hour as int, j - 11)
    } else if j == 13 {
        58
    } else if j < 16 {
        48 + digit2(c.minute as int, j - 14)
    } else if j == 16 {
        58
    } else if j < 19 {
        48 + digit2(c.second as int, j - 17)
    } else {
        90
    }
}

proof fn lemma_text_bytes(c: CivilDateTime)
    requires
        is_valid_civil(c),
        c.year >= 0,
    ensures
        utc_text_spec(c).len() == 20,
        forall|j: int| 0 <= j < 20 ==> #[trigger] utc_text_spec(c)[j] == text_byte(c, j),
{
    let t = utc_text_spec(c);
    assert(t =~= seq![
        (48 + digit4(c.year as int, 0)) as u8,
        (48 + digit4(c.year as int, 1)) as u8,
        (48 + digit4(c.year as int, 2)) as u8,
        (48 + digit4(c.year as int, 3)) as u8,
        45u8,
        (48 + digit2(c.month as int, 0)) as u8,
        (48 + digit2(c.month as int, 1)) as u8,
        45u8,
        (48 + digit2(c.day as int, 0)) as u8,
        (48 + digit2(c.day as int, 1)) as u8,
        84u8,
        (48 + digit2(c.hour as int, 0)) as u8,
        (48 + digit2(c.hour as int, 1)) as u8,
        58u8,
        (48 + digit2(c.minute as int, 0)) as u8,
        (48 + digit2(c.minute as int, 1)) as u8,
        58u8,
        (48 + digit2(c.second as int, 0)) as u8,
        (48 + digit2(c.second as int, 1)) as u8,
        90u8,
    ]);
}

proof fn lemma_digit4_first_difference(x: int, y: int) -> (k: int)
    requires
        0 <= x < y <= 9999,
    ensures
        0 <= k < 4,
        forall|j: int| 0 <= j < k ==> digit4(x, j) == digit4(y, j),
        digit4(x, k) < digit4(y, k),
{
    if x / 1000 != y / 1000 {
        0
    } else if (x / 100) % 10 != (y / 100) % 10 {
        1
    } else if (x / 10) % 10 != (y / 10) % 10 {
        2
    } else {
        3
    }
}

proof fn lemma_digit2_first_difference(x: int, y: int) -> (k: int)
    requires
        0 <= x < y <= 99,
    ensures
        0 <= k < 2,
        forall|j: int| 0 <= j < k ==> digit2(x, j) == digit2(y, j),
        digit2(x, k) < digit2(y, k),
{
    if x / 10 != y / 10 {
        0
    } else {
        1
    }
}

/// The place where the texts of `u` and `w` first differ: the first field
/// that differs, and in it the first digit that differs.
proof fn lemma_text_before(u: CivilDateTime, w: CivilDateTime)
    requires
        is_valid_civil(u),
        is_valid_civil(w),
        u.year >= 0,
        w.year >= 0,
        civil_before(u, w),
    ensures
        bytes_before(utc_text_spec(u), utc_text_spec(w)),
{
    let tu = utc_text_spec(u);
    let tw = utc_text_spec(w);
    lemma_text_bytes(u);
    lemma_text_bytes(w);
    let i: int = if u.year < w.year {
        lemma_digit4_first_difference(u.year as int, w.year as int)
    } else if u.month < w.month {
        5 + lemma_digit2_first_difference(u.month as int, w.month as int)
    } else if u.month == w.month && u.day < w.day {
        8 + lemma_digit2_first_difference(u.day as int, w.day as int)
    } else if u.month == w.month && u.day == w.day && u.hour < w.hour {
        11 + lemma_digit2_first_difference(u.hour as int, w.hour as int)
    } else if u.month == w.month && u.day == w.day && u.hour == w.hour && u.minute < w.minute {
        14 + lemma_digit2_first_difference(u.minute as int, w.minute as int)
    } else {
        17 + lemma_digit2_first_difference(u.second as int, w.second as int)
    };
    assert forall|j: int| 0 <= j < i implies tu.subrange(0, i)[j] == tw.subrange(0, i)[j] by {
        assert(tu[j] == text_byte(u, j));
        assert(tw[j] == text_byte(w, j));
    }
    assert(tu.subrange(0, i) =~= tw.subrange(0, i));
    assert(tu[i] == text_byte(u, i));
    assert(tw[i] == text_byte(w, i));
    assert(tu[i] < tw[i]);
}

proof fn lemma_bytes_before_asymmetric(a: Seq<u8>, b: Seq<u8>)
    requires
        bytes_before(a, b),
    ensures
        !bytes_before(b, a),
        a != b,
{
    let i = choose|i: int|
        #![trigger a[i], b[i]]
        0 <= i < a.len() && i < b.len() && a.subrange(0, i) == b.subrange(0, i) && a[i] < b[i];
    if bytes_before(b, a) {
        let j = choose|j: int|
            #![trigger b[j], a[j]]
            0 <= j < b.len() && j < a.len() && b.subrange(0, j) == a.subrange(0, j) && b[j] < a[j];
        if i < j {
            assert(a.subrange(0, j)[i] == b.subrange(0, j)[i]);
        } else if j < i {
            assert(a.subrange(0, i)[j] == b.subrange(0, i)[j]);
        }
    }
}

/// Law: reading jiff's UTC texts back keeps their order. For two valid UTC
/// wall clocks from year 1 on, `rfc3339z_to_epoch` reads both texts
/// "YYYY-MM-DDTHH:MM:SSZ", the first text comes before the second in byte
/// order exactly when it reads as the earlier instant, and the two texts
/// are equal exactly when they read as the same instant.
pub proof fn law_reading_keeps_text_order(u: CivilDateTime, w: CivilDateTime)
    requires
        is_valid_civil(u),
        is_valid_civil(w),
        u.year >= 1,
        w.year >= 1,
    ensures
        rfc3339z_spec(utc_text_spec(u)) matches Some(a) && rfc3339z_spec(utc_text_spec(w))
            matches Some(b) && (bytes_before(utc_text_spec(u), utc_text_spec(w)) <==> a < b) && (
        utc_text_spec(u) == utc_text_spec(w) <==> a == b),
{
    let tu = utc_text_spec(u);
    let tw = utc_text_spec(w);
    law_rfc3339z_reads_printed_instant(u);
    law_rfc3339z_reads_printed_instant(w);
    if u == w {
        if bytes_before(tu, tw) {
            lemma_bytes_before_asymmetric(tu, tw);
        }
    } else if civil_before(u, w) {
        law_earlier_reading_is_earlier_instant(u, w);
        lemma_text_before(u, w);
        lemma_bytes_before_asymmetric(tu, tw);
    } else {
        assert(civil_before(w, u));
        law_earlier_reading_is_earlier_instant(w, u);
        lemma_text_before(w, u);
        lemma_bytes_before_asymmetric(tw, tu);
    }
}

} // verus!
