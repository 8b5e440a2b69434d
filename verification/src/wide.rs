//! 128-bit and 256-bit numbers held as 64-bit limbs, and their decimal text.
use vstd::prelude::*;

use crate::text::push_dec;

verus! {

/// Two to the power of 64.
pub const LIMB: u128 = 0x1_0000_0000_0000_0000;

/// The unsigned number whose 64-bit limbs are given, most significant first.
pub open spec fn u256_value(hi_hi: int, hi_lo: int, lo_hi: int, lo_lo: int) -> int {
    ((hi_hi * LIMB + hi_lo) * LIMB + lo_hi) * LIMB + lo_lo
}

/// The unsigned number made of a high and a low limb.
pub open spec fn u128_value(hi: int, lo: int) -> int {
    hi * LIMB + lo
}

/// The number that decimal digits stand for, least significant first, where `rest` stands for
/// everything above them.
pub open spec fn le_with(digits: Seq<u8>, rest: int) -> int
    decreases digits.len(),
{
    if digits.len() == 0 {
        rest
    } else {
        digits[0] + 10 * le_with(digits.skip(1), rest)
    }
}

/// Whether every entry is a decimal digit.
pub open spec fn le_digits(digits: Seq<u8>) -> bool {
    forall|i: int| 0 <= i < digits.len() ==> #[trigger] digits[i] < 10
}

proof fn lemma_le_push(digits: Seq<u8>, d: u8, rest: int)
    ensures
        le_with(digits.push(d), rest) == le_with(digits, d + 10 * rest),
    decreases digits.len(),
{
    if digits.len() == 0 {
        assert(digits.push(d).skip(1) =~= Seq::<u8>::empty());
        assert(le_with(digits.push(d).skip(1), rest) == rest);
    } else {
        assert(digits.push(d).skip(1) =~= digits.skip(1).push(d));
        lemma_le_push(digits.skip(1), d, rest);
    }
}

proof fn lemma_le_nonnegative(digits: Seq<u8>, rest: int)
    requires
        rest >= 0,
    ensures
        le_with(digits, rest) >= 0,
        rest > 0 ==> le_with(digits, rest) > 0,
    decreases digits.len(),
{
    if digits.len() > 0 {
        lemma_le_nonnegative(digits.skip(1), rest);
    }
}

proof fn lemma_le_leading_digit(digits: Seq<u8>)
    requires
        digits.len() > 0,
        digits.last() > 0,
    ensures
        le_with(digits, 0) > 0,
{
    assert(digits.drop_last().push(digits.last()) =~= digits);
    lemma_le_push(digits.drop_last(), digits.last(), 0);
    lemma_le_nonnegative(digits.drop_last(), digits.last() as int);
}

/// The text of digits that are held least significant first.
pub open spec fn le_text(digits: Seq<u8>) -> Seq<char> {
    Seq::new(digits.len(), |i: int| crate::text::digit_char(digits[digits.len() - 1 - i] as int))
}

proof fn lemma_le_text(digits: Seq<u8>)
    requires
        digits.len() > 0,
        le_digits(digits),
        digits.len() == 1 || digits.last() > 0,
    ensures
        le_with(digits, 0) >= 0,
        crate::text::dec(le_with(digits, 0) as nat) == le_text(digits),
    decreases digits.len(),
{
    let rest = digits.skip(1);
    let n = le_with(digits, 0);
    lemma_le_nonnegative(digits, 0);
    assert(digits[0] < 10);
    if digits.len() == 1 {
        assert(le_with(rest, 0) == 0);
        assert(le_text(digits) =~= seq![crate::text::digit_char(n)]);
    } else {
        assert(rest.last() == digits.last());
        assert(le_digits(rest)) by {
            assert forall|i: int| 0 <= i < rest.len() implies #[trigger] rest[i] < 10 by {
                assert(rest[i] == digits[i + 1]);
            }
        }
        lemma_le_text(rest);
        lemma_le_leading_digit(rest);
        let m = le_with(rest, 0);
        assert(n == digits[0] + 10 * m);
        assert(n / 10 == m && n % 10 == digits[0]);
        assert(n as nat / 10 == m as nat);
        assert(le_text(digits) =~= le_text(rest).push(crate::text::digit_char(digits[0] as int)));
    }
}

/// Multiplies the number by two to the power of 64 and adds a limb.
fn shift_in(digits: &Vec<u8>, limb: u64) -> (r: Vec<u8>)
    requires
        le_digits(digits@),
    ensures
        le_digits(r@),
        le_with(r@, 0) == le_with(digits@, 0) * LIMB + limb,
{
    let mut out: Vec<u8> = Vec::new();
    let mut carry: u128 = limb as u128;
    let mut i: usize = 0;
    let ghost total = le_with(digits@, 0) * LIMB + limb;
    assert(digits@.skip(0) =~= digits@);
    while i < digits.len()
        invariant
            i <= digits.len(),
            le_digits(digits@),
            le_digits(out@),
            carry < LIMB,
            le_with(out@, carry + LIMB * le_with(digits@.skip(i as int), 0)) == total,
        decreases digits.len() - i,
    {
        let d: u8 = digits[i];
        assert(d < 10);
        assert(digits@.skip(i as int).skip(1) =~= digits@.skip(i + 1));
        let ghost above = le_with(digits@.skip(i + 1), 0);
        let t: u128 = (d as u128) * LIMB + carry;
        let digit: u8 = (t % 10) as u8;
        proof {
            lemma_le_push(out@, digit, (t / 10) + LIMB * above);
            assert(carry + LIMB * le_with(digits@.skip(i as int), 0) == digit + 10 * ((t / 10)
                + LIMB * above));
        }
        out.push(digit);
        carry = t / 10;
        i = i + 1;
    }
    assert(digits@.skip(i as int) =~= Seq::<u8>::empty());
    assert(le_with(digits@.skip(i as int), 0) == 0);
    while carry > 0
        invariant
            le_digits(out@),
            le_with(out@, carry as int) == total,
        decreases carry,
    {
        let digit: u8 = (carry % 10) as u8;
        proof {
            lemma_le_push(out@, digit, (carry / 10) as int);
        }
        out.push(digit);
        carry = carry / 10;
    }
    out
}

/// The decimal text of an unsigned 256-bit number, given by its limbs from the most significant
/// one down.
pub fn u256_text(hi_hi: u64, hi_lo: u64, lo_hi: u64, lo_lo: u64) -> (r: String)
    ensures
        r@ == crate::text::dec(
            u256_value(hi_hi as int, hi_lo as int, lo_hi as int, lo_lo as int) as nat,
        ),
        u256_value(hi_hi as int, hi_lo as int, lo_hi as int, lo_lo as int) >= 0,
{
    let d0: Vec<u8> = Vec::new();
    assert(le_with(d0@, 0) == 0);
    let d1 = shift_in(&d0, hi_hi);
    let d2 = shift_in(&d1, hi_lo);
    let d3 = shift_in(&d2, lo_hi);
    let mut digits = shift_in(&d3, lo_lo);
    let ghost value = u256_value(hi_hi as int, hi_lo as int, lo_hi as int, lo_lo as int);
    assert(le_with(digits@, 0) == value);
    if digits.len() == 0 {
        digits.push(0);
        assert(digits@.skip(1) =~= Seq::<u8>::empty());
        assert(le_with(digits@.skip(1), 0) == 0);
    }
    while digits.len() > 1 && digits[digits.len() - 1] == 0
        invariant
            digits.len() > 0,
            le_digits(digits@),
            le_with(digits@, 0) == value,
        decreases digits.len(),
    {
        proof {
            assert(digits@.drop_last().push(0u8) =~= digits@);
            lemma_le_push(digits@.drop_last(), 0u8, 0);
        }
        digits.pop();
    }
    proof {
        lemma_le_text(digits@);
    }
    let mut out = String::new();
    let mut i: usize = digits.len();
    while i > 0
        invariant
            i <= digits.len(),
            le_digits(digits@),
            out@ == le_text(digits@).take(digits.len() - i),
        decreases i,
    {
        i = i - 1;
        assert(digits@[i as int] < 10);
        push_dec(&mut out, digits[i] as u128);
        let ghost k = digits.len() - i;
        assert(le_text(digits@).take(k) =~= le_text(digits@).take(k - 1).push(
            crate::text::digit_char(digits@[i as int] as int),
        ));
    }
    assert(le_text(digits@).take(digits.len() as int) =~= le_text(digits@));
    out
}

/// The decimal text of a signed 256-bit number in two's complement, given by its limbs from the
/// most significant one down.
pub fn i256_text(hi_hi: i64, hi_lo: u64, lo_hi: u64, lo_lo: u64) -> (r: String)
    ensures
        r@ == crate::text::dec_int(
            u256_value(hi_hi as int, hi_lo as int, lo_hi as int, lo_lo as int),
        ),
{
    if hi_hi >= 0 {
        return u256_text(hi_hi as u64, hi_lo, lo_hi, lo_lo);
    }
    let top: u128 = LIMB - 1;
    let t0: u128 = LIMB - lo_lo as u128;
    let t1: u128 = top - lo_hi as u128 + t0 / LIMB;
    let t2: u128 = top - hi_lo as u128 + t1 / LIMB;
    let t3: u128 = ((-(hi_hi as i128 + 1)) as u128) + t2 / LIMB;
    assert(t0 / LIMB <= 1 && t1 / LIMB <= 1 && t2 / LIMB <= 1);
    let m0: u64 = (t0 % LIMB) as u64;
    let m1: u64 = (t1 % LIMB) as u64;
    let m2: u64 = (t2 % LIMB) as u64;
    let m3: u64 = t3 as u64;
    let ghost value = u256_value(hi_hi as int, hi_lo as int, lo_hi as int, lo_lo as int);
    assert(t0 == m0 + LIMB * (t0 / LIMB));
    assert(t1 == m1 + LIMB * (t1 / LIMB));
    assert(t2 == m2 + LIMB * (t2 / LIMB));
    assert(u256_value(m3 as int, m2 as int, m1 as int, m0 as int) == -value);
    let magnitude = u256_text(m3, m2, m1, m0);
    assert(value < 0);
    let mut out = String::new();
    out.push('-');
    out.append(magnitude.as_str());
    assert(out@ =~= crate::text::dec_int(value));
    out
}


/// The signed number with the same 64 bits.
pub open spec fn wrapped_i64(n: u64) -> int {
    if n <= i64::MAX {
        n as int
    } else {
        n - LIMB
    }
}

/// The signed number with the same 64 bits.
pub fn wrap_i64(n: u64) -> (r: i64)
    ensures
        r == wrapped_i64(n),
{
    if n <= i64::MAX as u64 {
        n as i64
    } else {
        (n as i128 - 0x1_0000_0000_0000_0000) as i64
    }
}

/// The unsigned number with the same 64 bits.
pub open spec fn wrapped_u64(n: i64) -> int {
    if n >= 0 {
        n as int
    } else {
        n + LIMB
    }
}

/// The unsigned number with the same 64 bits.
pub fn wrap_u64(n: i64) -> (r: u64)
    ensures
        r == wrapped_u64(n),
{
    if n >= 0 {
        n as u64
    } else {
        (n as i128 + 0x1_0000_0000_0000_0000) as u64
    }
}

/// The signed number with the same 32 bits.
pub open spec fn wrapped_i32(n: u32) -> int {
    if n <= i32::MAX {
        n as int
    } else {
        n - 0x1_0000_0000
    }
}

/// The signed number with the same 32 bits.
pub fn wrap_i32(n: u32) -> (r: i32)
    ensures
        r == wrapped_i32(n),
{
    if n <= i32::MAX as u32 {
        n as i32
    } else {
        (n as i64 - 0x1_0000_0000) as i32
    }
}

/// The unsigned number with the same 32 bits.
pub open spec fn wrapped_u32(n: i32) -> int {
    if n >= 0 {
        n as int
    } else {
        n + 0x1_0000_0000
    }
}

/// The unsigned number with the same 32 bits.
pub fn wrap_u32(n: i32) -> (r: u32)
    ensures
        r == wrapped_u32(n),
{
    if n >= 0 {
        n as u32
    } else {
        (n as i64 + 0x1_0000_0000) as u32
    }
}

/// Storing an unsigned number in a signed column and reading it back loses nothing.
pub proof fn wrapping_round_trips(a: u64, b: u32)
    ensures
        wrapped_u64(wrapped_i64(a) as i64) == a,
        wrapped_u32(wrapped_i32(b) as i32) == b,
{
}

/// A number that fits is kept; one that does not has the width of its type taken off or added.
pub proof fn wrapping_keeps_what_fits(a: u64, b: i64, c: u32, d: i32)
    ensures
        a <= 0x7fff_ffff_ffff_ffff ==> wrapped_i64(a) == a,
        a > 0x7fff_ffff_ffff_ffff ==> wrapped_i64(a) == a - 0x1_0000_0000_0000_0000,
        b >= 0 ==> wrapped_u64(b) == b,
        b < 0 ==> wrapped_u64(b) == b + 0x1_0000_0000_0000_0000,
        c <= 0x7fff_ffff ==> wrapped_i32(c) == c,
        c > 0x7fff_ffff ==> wrapped_i32(c) == c - 0x1_0000_0000,
        d >= 0 ==> wrapped_u32(d) == d,
        d < 0 ==> wrapped_u32(d) == d + 0x1_0000_0000,
{
}

} // verus!
