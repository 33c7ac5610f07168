//! Decimal digits: parsing integers out of byte strings the way Rust's
//! integer `FromStr` does, and printing integers as decimal text.

use vstd::prelude::*;

verus! {

/// The byte is an ASCII decimal digit.
pub open spec fn is_digit(b: u8) -> bool {
    48 <= b <= 57
}

/// Every byte of `s` is an ASCII decimal digit.
pub open spec fn all_digits(s: Seq<u8>) -> bool {
    forall|i: int| 0 <= i < s.len() ==> is_digit(#[trigger] s[i])
}

/// The number written by the decimal digits `s` (most significant first).
pub open spec fn digits_value(s: Seq<u8>) -> nat
    decreases s.len(),
{
    if s.len() == 0 {
        0
    } else {
        digits_value(s.drop_last()) * 10 + (s.last() - 48) as nat
    }
}

/// What Rust's integer `FromStr` reads from the bytes `s`, before the range
/// check of the target type: an optional `+` (or, for a signed type, `-`)
/// followed by one or more ASCII digits.
pub open spec fn parse_int(s: Seq<u8>, signed: bool) -> Option<int> {
    if s.len() == 0 {
        None
    } else if (s[0] == 43 || s[0] == 45) && s.len() == 1 {
        None
    } else if s[0] == 43 {
        if all_digits(s.drop_first()) {
            Some(digits_value(s.drop_first()) as int)
        } else {
            None
        }
    } else if s[0] == 45 && signed {
        if all_digits(s.drop_first()) {
            Some(-(digits_value(s.drop_first()) as int))
        } else {
            None
        }
    } else if all_digits(s) {
        Some(digits_value(s) as int)
    } else {
        None
    }
}

/// A value written with `n` digits is below `10^n`.
pub open spec fn pow10(n: nat) -> nat
    decreases n,
{
    if n == 0 {
        1
    } else {
        10 * pow10((n - 1) as nat)
    }
}

/// Reads the digits `b[from..to]` as a number.
fn digits_in(b: &[u8], from: usize, to: usize) -> (r: u64)
    requires
        from <= to <= b@.len(),
        to - from <= 4,
        all_digits(b@.subrange(from as int, to as int)),
    ensures
        r == digits_value(b@.subrange(from as int, to as int)),
        r < pow10((to - from) as nat),
        r < 10000,
{
    let mut v: u64 = 0;
    let mut i = from;
    while i < to
        invariant
            from <= i <= to <= b@.len(),
            to - from <= 4,
            all_digits(b@.subrange(from as int, to as int)),
            v == digits_value(b@.subrange(from as int, i as int)),
            v < pow10((i - from) as nat),
        decreases to - i,
    {
        assert(b@.subrange(from as int, i + 1).drop_last() =~= b@.subrange(from as int, i as int));
        assert(b@[i as int] == b@.subrange(from as int, to as int)[i - from]);
        assert(pow10((i + 1 - from) as nat) == 10 * pow10((i - from) as nat));
        assert(pow10((i - from) as nat) <= 1000) by {
            reveal_with_fuel(pow10, 4);
        }
        v = v * 10 + (b[i] - 48) as u64;
        i = i + 1;
    }
    assert(pow10((to - from) as nat) <= 10000) by {
        reveal_with_fuel(pow10, 5);
    }
    v
}

/// Whether `b[from..to]` is made of ASCII digits only.
fn only_digits_in(b: &[u8], from: usize, to: usize) -> (r: bool)
    requires
        from <= to <= b@.len(),
    ensures
        r == all_digits(b@.subrange(from as int, to as int)),
{
    let mut i = from;
    while i < to
        invariant
            from <= i <= to <= b@.len(),
            all_digits(b@.subrange(from as int, i as int)),
        decreases to - i,
    {
        if !(48 <= b[i] && b[i] <= 57) {
            assert(b@.subrange(from as int, to as int)[i - from] == b@[i as int]);
            return false;
        }
        assert forall|k: int| 0 <= k < i + 1 - from implies is_digit(
            #[trigger] b@.subrange(from as int, i + 1)[k],
        ) by {
            if k < i - from {
                assert(b@.subrange(from as int, i + 1)[k] == b@.subrange(from as int, i as int)[k]);
            }
        }
        i = i + 1;
    }
    true
}

/// Parses `b[from..to]` (at most four bytes) as Rust's integer `FromStr`
/// does; with at most four bytes no value overflows an `i16`.
pub fn parse_int_in(b: &[u8], from: usize, to: usize, signed: bool) -> (r: Option<i64>)
    requires
        from <= to <= b@.len(),
        to - from <= 4,
    ensures
        match r {
            Some(v) => parse_int(b@.subrange(from as int, to as int), signed) == Some(v as int),
            None => parse_int(b@.subrange(from as int, to as int), signed) is None,
        },
        r matches Some(v) ==> -(pow10((to - from) as nat) as int) < v < pow10((to - from) as nat),
        r matches Some(v) ==> -10000 < v < 10000,
{
    let ghost s = b@.subrange(from as int, to as int);
    if from == to {
        return None;
    }
    let first = b[from];
    assert(first == s[0]);
    if (first == 43 || first == 45) && to - from == 1 {
        return None;
    }
    if first == 43 || (first == 45 && signed) {
        assert(s.drop_first() =~= b@.subrange(from + 1, to as int));
        if only_digits_in(b, from + 1, to) {
            let v = digits_in(b, from + 1, to);
            assert(pow10((to - from) as nat) == 10 * pow10((to - from - 1) as nat));
            if first == 43 {
                Some(v as i64)
            } else {
                Some(-(v as i64))
            }
        } else {
            None
        }
    } else {
        if only_digits_in(b, from, to) {
            let v = digits_in(b, from, to);
            Some(v as i64)
        } else {
            None
        }
    }
}


proof fn lemma_digits_value_bound(s: Seq<u8>)
    requires
        all_digits(s),
    ensures
        digits_value(s) < pow10(s.len()),
    decreases s.len(),
{
    if s.len() > 0 {
        assert(is_digit(s[s.len() - 1]));
        assert forall|i: int| 0 <= i < s.drop_last().len() implies is_digit(
            #[trigger] s.drop_last()[i],
        ) by {
            assert(s.drop_last()[i] == s[i]);
        }
        lemma_digits_value_bound(s.drop_last());
    }
}

/// A number read from at most four bytes lies strictly between -10000 and
/// 10000.
pub proof fn lemma_parse_int_small(s: Seq<u8>, signed: bool)
    requires
        s.len() <= 4,
    ensures
        parse_int(s, signed) matches Some(v) ==> -10000 < v < 10000,
{
    reveal_with_fuel(pow10, 5);
    if s.len() > 0 {
        if all_digits(s) {
            lemma_digits_value_bound(s);
        }
        if all_digits(s.drop_first()) {
            lemma_digits_value_bound(s.drop_first());
        }
    }
}

} // verus!
