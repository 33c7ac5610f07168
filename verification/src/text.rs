//! Editing strings at byte positions, and printing integers in decimal.

use vstd::prelude::*;
use vstd::utf8::{encode_utf8, is_char_boundary, length_of_first_codepoint};

verus! {

broadcast use vstd::utf8::group_utf8_lib;

/// The UTF-8 bytes of a text.
pub open spec fn text_bytes(t: Seq<char>) -> Seq<u8> {
    encode_utf8(t)
}

/// The bytes `b` with the UTF-8 encoding of `c` put in at byte `idx`.
pub open spec fn bytes_with_char_at(b: Seq<u8>, idx: int, c: char) -> Seq<u8> {
    b.subrange(0, idx) + encode_utf8(seq![c]) + b.subrange(idx, b.len() as int)
}

/// `String::insert`. Claimed, as its documentation says: the UTF-8 bytes of
/// `c` are put in at byte `idx`, everything else kept in order; a `String`
/// never exceeds `isize::MAX` bytes. It panics when `idx` is not on a char
/// boundary (beyond the end included), which `requires` leaves out.
#[verifier::external_body]
pub(crate) fn string_insert(s: &mut String, idx: usize, c: char)
    requires
        is_char_boundary(text_bytes(old(s)@), idx as int),
    ensures
        text_bytes(final(s)@) == bytes_with_char_at(text_bytes(old(s)@), idx as int, c),
        text_bytes(final(s)@).len() <= isize::MAX,
{
    s.insert(idx, c)
}

/// `String::remove`. Claimed, as its documentation says: the char starting
/// at byte `idx` is taken out and returned, everything else kept in order.
/// It panics when `idx` is at or past the end or not on a char boundary,
/// which `requires` leaves out.
#[verifier::external_body]
pub(crate) fn string_remove(s: &mut String, idx: usize) -> (r: char)
    requires
        is_char_boundary(text_bytes(old(s)@), idx as int),
        idx < text_bytes(old(s)@).len(),
    ensures
        idx + encode_utf8(seq![r]).len() <= text_bytes(old(s)@).len(),
        text_bytes(old(s)@).subrange(idx as int, idx + encode_utf8(seq![r]).len()) == encode_utf8(
            seq![r],
        ),
        text_bytes(final(s)@) == text_bytes(old(s)@).subrange(0, idx as int) + text_bytes(
            old(s)@,
        ).subrange(idx + encode_utf8(seq![r]).len(), text_bytes(old(s)@).len() as int),
{
    s.remove(idx)
}

/// `String::push`. Claimed, as its documentation says: `c` is appended.
#[verifier::external_body]
pub(crate) fn push_char(s: &mut String, c: char)
    ensures
        final(s)@ == old(s)@.push(c),
{
    s.push(c)
}

/// The length of the UTF-8 encoding of the char that starts at byte `i`
/// (read off its leading byte).
pub open spec fn char_width_at(b: Seq<u8>, i: int) -> int {
    length_of_first_codepoint(b.subrange(i, b.len() as int))
}

/// The bytes `b` without the char that starts at byte `i`.
pub open spec fn bytes_without_char_at(b: Seq<u8>, i: int) -> Seq<u8> {
    b.subrange(0, i) + b.subrange(i + char_width_at(b, i), b.len() as int)
}

/// Removes the char that starts at byte `idx`.
pub fn remove_char_at(s: &mut String, idx: usize)
    requires
        is_char_boundary(text_bytes(old(s)@), idx as int),
        idx < text_bytes(old(s)@).len(),
    ensures
        1 <= char_width_at(text_bytes(old(s)@), idx as int),
        idx + char_width_at(text_bytes(old(s)@), idx as int) <= text_bytes(old(s)@).len(),
        text_bytes(final(s)@) == bytes_without_char_at(text_bytes(old(s)@), idx as int),
{
    let ghost b = text_bytes(s@);
    let r = string_remove(s, idx);
    proof {
        let e = encode_utf8(seq![r]);
        vstd::utf8::encode_utf8_first_scalar(seq![r]);
        lemma_char_width(r);
        assert(b.subrange(idx as int, b.len() as int)[0] == e[0]);
        assert(length_of_first_codepoint(e) == e.len()) by {
            reveal_with_fuel(encode_utf8, 2);
            assert(seq![r].drop_first() =~= Seq::<char>::empty());
        }
    }
}

/// A char boundary lies within the text.
pub proof fn lemma_boundary_in_range(t: Seq<char>, i: int)
    requires
        is_char_boundary(text_bytes(t), i),
    ensures
        0 <= i <= text_bytes(t).len(),
{
    vstd::utf8::encode_utf8_valid_utf8(t);
}

/// A char's UTF-8 encoding is one to four bytes long.
pub proof fn lemma_char_width(c: char)
    ensures
        1 <= encode_utf8(seq![c]).len() <= 4,
{
    reveal_with_fuel(encode_utf8, 2);
    assert(seq![c].drop_first() =~= Seq::<char>::empty());
}

/// The byte length of a text is its UTF-8 length.
pub fn byte_len(s: &String) -> (r: usize)
    ensures
        r == text_bytes(s@).len(),
{
    s.as_str().as_bytes().len()
}

// ---------------------------------------------------------------------------
// Decimal printing
// ---------------------------------------------------------------------------

pub open spec fn digit_of(v: int) -> char {
    crate::civil::digit_char(v)
}

/// The decimal digits of `n`, without leading zeros ("0" for zero).
pub open spec fn decimal(n: nat) -> Seq<char>
    decreases n,
{
    if n < 10 {
        seq![digit_of(n as int)]
    } else {
        decimal(n / 10).push(digit_of((n % 10) as int))
    }
}

/// The decimal digits of `n`, at least two of them.
pub open spec fn decimal2(n: nat) -> Seq<char> {
    if n < 10 {
        seq!['0', digit_of(n as int)]
    } else {
        decimal(n)
    }
}

/// An integer in decimal, with a `-` when negative.
pub open spec fn signed_decimal(n: int) -> Seq<char> {
    if n < 0 {
        seq!['-'] + decimal((-n) as nat)
    } else {
        decimal(n as nat)
    }
}

fn digit_exec(v: u64) -> (r: char)
    requires
        v < 10,
    ensures
        r == digit_of(v as int),
{
    if v == 0 {
        '0'
    } else if v == 1 {
        '1'
    } else if v == 2 {
        '2'
    } else if v == 3 {
        '3'
    } else if v == 4 {
        '4'
    } else if v == 5 {
        '5'
    } else if v == 6 {
        '6'
    } else if v == 7 {
        '7'
    } else if v == 8 {
        '8'
    } else {
        '9'
    }
}

/// Appends the decimal digits of `n` to `s`.
pub fn push_decimal(s: &mut String, n: u64)
    ensures
        final(s)@ == old(s)@ + decimal(n as nat),
    decreases n,
{
    if n < 10 {
        push_char(s, digit_exec(n));
        assert(old(s)@.push(digit_of(n as int)) =~= old(s)@ + decimal(n as nat));
    } else {
        push_decimal(s, n / 10);
        push_char(s, digit_exec(n % 10));
        assert(old(s)@ + decimal((n / 10) as nat) + seq![digit_of((n % 10) as int)]
            =~= old(s)@ + decimal(n as nat));
    }
}

/// `n` in decimal, as `format!("{}", n)` prints it.
pub fn decimal_string(n: u64) -> (r: String)
    ensures
        r@ == decimal(n as nat),
{
    let mut s = String::new();
    push_decimal(&mut s, n);
    assert(s@ =~= decimal(n as nat));
    s
}

/// `n` in decimal with at least two digits, as `format!("{:02}", n)` prints it.
pub fn push_decimal2(s: &mut String, n: u64)
    ensures
        final(s)@ == old(s)@ + decimal2(n as nat),
{
    if n < 10 {
        push_char(s, '0');
        push_char(s, digit_exec(n));
        assert(old(s)@.push('0').push(digit_of(n as int)) =~= old(s)@ + decimal2(n as nat));
    } else {
        push_decimal(s, n);
    }
}

/// A signed integer in decimal, as `format!("{}", n)` prints it.
pub fn signed_decimal_string(n: i64) -> (r: String)
    ensures
        r@ == signed_decimal(n as int),
{
    let mut s = String::new();
    if n < 0 {
        push_char(&mut s, '-');
        let m: u64 = ((-(n + 1)) as u64) + 1;
        push_decimal(&mut s, m);
    } else {
        push_decimal(&mut s, n as u64);
    }
    assert(s@ =~= signed_decimal(n as int));
    s
}

} // verus!
