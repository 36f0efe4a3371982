//! Decimal text for integers and fixed-point values, and the readers that
//! turn such text back into numbers.

use vstd::prelude::*;

verus! {

pub const ZERO: u8 = 48;

pub const DOT: u8 = 46;

pub const MINUS: u8 = 45;

pub const PLUS: u8 = 43;

pub open spec fn is_digit(c: u8) -> bool {
    ZERO <= c && c <= ZERO + 9
}

pub open spec fn digit_char(d: nat) -> u8 {
    (d + ZERO) as u8
}

/// Decimal digits of `n`, most significant first, without leading zeros
/// ("0" for zero).
pub open spec fn nat_text(n: nat) -> Seq<u8>
    decreases n,
{
    if n < 10 {
        seq![digit_char(n)]
    } else {
        nat_text(n / 10).push(digit_char(n % 10))
    }
}

/// The `w` lowest decimal digits of `n`, most significant first, padded
/// with zeros.
pub open spec fn low_digits(n: nat, w: nat) -> Seq<u8>
    decreases w,
{
    if w == 0 {
        seq![]
    } else {
        low_digits(n / 10, (w - 1) as nat).push(digit_char(n % 10))
    }
}

/// `n` with its `w` lowest decimal digits dropped.
pub open spec fn drop_digits(n: nat, w: nat) -> nat
    decreases w,
{
    if w == 0 {
        n
    } else {
        drop_digits(n / 10, (w - 1) as nat)
    }
}

/// Text of the magnitude `m` read as `m / 10^places`, with exactly
/// `places` digits after the point (no point when `places` is zero).
pub open spec fn fixed_mag_text(m: nat, places: nat) -> Seq<u8> {
    if places == 0 {
        nat_text(m)
    } else {
        nat_text(drop_digits(m, places)).push(DOT) + low_digits(m, places)
    }
}

/// Text of the fixed-point value `v / 10^places`.
pub open spec fn fixed_text(v: int, places: nat) -> Seq<u8> {
    if v < 0 {
        seq![MINUS] + fixed_mag_text((-v) as nat, places)
    } else {
        fixed_mag_text(v as nat, places)
    }
}

/// Text of a signed integer.
pub open spec fn int_text(v: int) -> Seq<u8> {
    fixed_text(v, 0)
}

/// Reading of a number body from left to right: digits with at most one
/// point among them. The state is (value of all digits read, digits read
/// after the point, point read, any digit read); `None` once a byte breaks
/// that form.
pub open spec fn scan(b: Seq<u8>) -> Option<(nat, nat, bool, bool)>
    decreases b.len(),
{
    if b.len() == 0 {
        Some((0nat, 0nat, false, false))
    } else {
        match scan(b.drop_last()) {
            None => None,
            Some((v, f, dot, dig)) => {
                let c = b.last();
                if is_digit(c) {
                    Some(((v * 10 + (c - ZERO)) as nat, if dot { f + 1 } else { f }, dot, true))
                } else if c == DOT && !dot {
                    Some((v, f, true, dig))
                } else {
                    None
                }
            },
        }
    }
}

/// Value of all digits in a reading state.
pub open spec fn scanned_value(o: Option<(nat, nat, bool, bool)>) -> nat {
    match o {
        Some((v, _f, _dot, _dig)) => v,
        None => 0,
    }
}

/// The text after an optional leading sign byte, and whether that sign was
/// a minus.
pub open spec fn unsign(s: Seq<u8>) -> (bool, Seq<u8>) {
    if s.len() > 0 && (s[0] == MINUS || s[0] == PLUS) {
        (s[0] == MINUS, s.drop_first())
    } else {
        (false, s)
    }
}

/// Value of an unsigned integer in text: an optional `+`, then one or more
/// digits, and no more than `u64::MAX`.
pub open spec fn u64_of(s: Seq<u8>) -> Option<u64> {
    let d = if s.len() > 0 && s[0] == PLUS { s.drop_first() } else { s };
    match scan(d) {
        Some((v, _f, dot, dig)) => if !dot && dig && v <= u64::MAX {
            Some(v as u64)
        } else {
            None
        },
        None => None,
    }
}

/// Value of a signed integer in text: an optional `+` or `-`, then one or
/// more digits, within the range of `i32`.
pub open spec fn i32_of(s: Seq<u8>) -> Option<i32> {
    let (neg, d) = unsign(s);
    match scan(d) {
        Some((v, _f, dot, dig)) => {
            let x: int = if neg { -v } else { v as int };
            if !dot && dig && i32::MIN <= x && x <= i32::MAX {
                Some(x as i32)
            } else {
                None
            }
        },
        None => None,
    }
}

/// An exact decimal number: `mantissa / 10^scale`.
#[derive(Clone, Copy, Debug, PartialEq, Eq, Structural)]
pub struct Numeral {
    pub mantissa: i64,
    pub scale: usize,
}

/// Value of a decimal in text: an optional `+` or `-`, then digits with at
/// most one point among them and at least one digit. The scale is the
/// number of digits after the point; the mantissa must fit in `i64`.
pub open spec fn decimal_of(s: Seq<u8>) -> Option<Numeral> {
    let (neg, d) = unsign(s);
    match scan(d) {
        Some((v, f, _dot, dig)) => {
            let x: int = if neg { -v } else { v as int };
            if dig && i64::MIN <= x && x <= i64::MAX && f <= usize::MAX {
                Some(Numeral { mantissa: x as i64, scale: f as usize })
            } else {
                None
            }
        },
        None => None,
    }
}

/// A decimal is positive when its mantissa is.
pub open spec fn is_positive(d: Numeral) -> bool {
    d.mantissa > 0
}

proof fn lemma_scan_prefix(b: Seq<u8>, i: int)
    requires
        0 <= i <= b.len(),
        scan(b) is Some,
    ensures
        scan(b.take(i)) is Some,
        scanned_value(scan(b.take(i))) <= scanned_value(scan(b)),
            decreases b.len(),
{
    if i < b.len() {
        lemma_scan_prefix(b.drop_last(), i);
        assert(b.drop_last().take(i) =~= b.take(i));
    } else {
        assert(b.take(i) =~= b);
    }
}

proof fn lemma_scan_nat_text(n: nat)
    ensures
        scan(nat_text(n)) == Some((n, 0nat, false, true)),
    decreases n,
{
    if n < 10 {
        let t = nat_text(n);
        assert(t.drop_last() =~= Seq::<u8>::empty());
    } else {
        lemma_scan_nat_text(n / 10);
        assert(nat_text(n).drop_last() =~= nat_text(n / 10));
    }
}

proof fn lemma_scan_fixed_mag(m: nat, k: nat)
    requires
        k > 0,
    ensures
        scan(nat_text(drop_digits(m, k)).push(DOT) + low_digits(m, k)) == Some(
            (m, k, true, true),
        ),
    decreases k,
{
    let head = nat_text(drop_digits(m, k)).push(DOT);
    let t = head + low_digits(m, k);
    if k == 1 {
        lemma_scan_nat_text(drop_digits(m / 10, 0));
        assert(head.drop_last() =~= nat_text(drop_digits(m / 10, 0)));
        assert(low_digits(m / 10, 0) =~= Seq::<u8>::empty());
        assert(t.drop_last() =~= head);
    } else {
        lemma_scan_fixed_mag(m / 10, (k - 1) as nat);
        assert(t.drop_last() =~= nat_text(drop_digits(m / 10, (k - 1) as nat)).push(DOT)
            + low_digits(m / 10, (k - 1) as nat));
    }
}

/// Reading back the fixed-point text of any `i64` value gives that value
/// with the same number of decimal places.
pub proof fn lemma_fixed_round_trip(v: i64, places: nat)
    requires
        places <= usize::MAX,
    ensures
        decimal_of(fixed_text(v as int, places)) == Some(
            Numeral { mantissa: v, scale: places as usize },
        ),
{
    let m: nat = if v < 0 { (-v) as nat } else { v as nat };
    let body = fixed_mag_text(m, places);
    if places == 0 {
        lemma_scan_nat_text(m);
    } else {
        lemma_scan_fixed_mag(m, places);
    }
    assert(body.len() > 0 && body[0] != MINUS && body[0] != PLUS) by {
        if places == 0 {
            lemma_nat_text_digits(m);
        } else {
            lemma_nat_text_digits(drop_digits(m, places));
            assert(body[0] == nat_text(drop_digits(m, places))[0]);
        }
    }
    if v < 0 {
        assert((seq![MINUS] + body).drop_first() =~= body);
    }
}

/// The text of a natural number is one or more digits.
pub proof fn lemma_nat_text_digits(n: nat)
    ensures
        nat_text(n).len() > 0,
        forall|i: int| 0 <= i < nat_text(n).len() ==> is_digit(#[trigger] nat_text(n)[i]),
    decreases n,
{
    if n >= 10 {
        lemma_nat_text_digits(n / 10);
    }
}

/// Appends the decimal text of `n`.
pub fn push_nat(out: &mut Vec<u8>, n: u64)
    ensures
        final(out)@ == old(out)@ + nat_text(n as nat),
    decreases n,
{
    if n < 10 {
        out.push(n as u8 + ZERO);
        assert(final(out)@ =~= old(out)@ + nat_text(n as nat));
    } else {
        push_nat(out, n / 10);
        out.push((n % 10) as u8 + ZERO);
        assert(final(out)@ =~= old(out)@ + nat_text(n as nat));
    }
}

fn push_low_digits(out: &mut Vec<u8>, n: u64, w: usize)
    ensures
        final(out)@ == old(out)@ + low_digits(n as nat, w as nat),
    decreases w,
{
    if w == 0 {
        assert(final(out)@ =~= old(out)@ + low_digits(n as nat, w as nat));
    } else {
        push_low_digits(out, n / 10, w - 1);
        out.push((n % 10) as u8 + ZERO);
        assert(final(out)@ =~= old(out)@ + low_digits(n as nat, w as nat));
    }
}

/// Appends the text of the fixed-point value `v / 10^places`.
pub fn push_fixed(out: &mut Vec<u8>, v: i64, places: usize)
    ensures
        final(out)@ == old(out)@ + fixed_text(v as int, places as nat),
{
    let ghost start = out@;
    let m: u64 = if v < 0 {
        out.push(MINUS);
        if v == i64::MIN {
            9223372036854775808u64
        } else {
            (-v) as u64
        }
    } else {
        v as u64
    };
    let ghost after_sign = out@;
    if places == 0 {
        push_nat(out, m);
    } else {
        let mut q: u64 = m;
        let mut i: usize = 0;
        while i < places
            invariant
                i <= places,
                drop_digits(m as nat, places as nat) == drop_digits(q as nat, (places - i) as nat),
            decreases places - i,
        {
            q = q / 10;
            i = i + 1;
        }
        push_nat(out, q);
        out.push(DOT);
        push_low_digits(out, m, places);
    }
    assert(out@ =~= start + fixed_text(v as int, places as nat));
}

/// Appends the text of a signed integer.
pub fn push_int(out: &mut Vec<u8>, v: i64)
    ensures
        final(out)@ == old(out)@ + int_text(v as int),
{
    push_fixed(out, v, 0);
}

/// Reads `s[start..]` as a number body while its digits' value stays within
/// `limit`. Returns (value, digits after the point, point read, any digit
/// read), or `None` where the body is malformed or its value exceeds `limit`.
fn scan_number(s: &[u8], start: usize, limit: u64) -> (r: Option<(u64, usize, bool, bool)>)
    requires
        start <= s@.len(),
    ensures
        match r {
            Some((v, f, dot, dig)) => scan(s@.skip(start as int)) == Some(
                (v as nat, f as nat, dot, dig),
            ) && v <= limit,
            None => scan(s@.skip(start as int)) is None || scanned_value(
                scan(s@.skip(start as int)),
            ) > limit,
        },
{
    let ghost b = s@.skip(start as int);
    let mut v: u64 = 0;
    let mut f: usize = 0;
    let mut dot = false;
    let mut dig = false;
    let mut i: usize = start;
    while i < s.len()
        invariant
            start <= i <= s@.len(),
            b == s@.skip(start as int),
            scan(b.take(i - start)) == Some((v as nat, f as nat, dot, dig)),
            v <= limit,
            f <= i - start,
        decreases s@.len() - i,
    {
        let c = s[i];
        proof {
            assert(b.take(i + 1 - start).drop_last() =~= b.take(i - start));
            assert(b.take(i + 1 - start).last() == c);
        }
        if ZERO <= c && c <= ZERO + 9 {
            let d = (c - ZERO) as u64;
            if d > limit || v > (limit - d) / 10 {
                proof {
                    if d <= limit {
                        assert(v * 10 + d > limit) by (nonlinear_arith)
                            requires
                                v > (limit - d) / 10,
                                d <= limit,
                        ;
                    }
                    if scan(b) is Some {
                        lemma_scan_prefix(b, i + 1 - start);
                    }
                }
                return None;
            }
            proof {
                assert(v * 10 + d <= limit) by (nonlinear_arith)
                    requires
                        v <= (limit - d) / 10,
                        d <= limit,
                ;
            }
            v = v * 10 + d;
            if dot {
                f = f + 1;
            }
            dig = true;
        } else if c == DOT && !dot {
            dot = true;
        } else {
            proof {
                if scan(b) is Some {
                    lemma_scan_prefix(b, i + 1 - start);
                }
            }
            return None;
        }
        i = i + 1;
    }
    proof {
        assert(b.take(i - start) =~= b);
    }
    Some((v, f, dot, dig))
}

/// Reads an unsigned integer: an optional `+`, then digits only.
pub fn parse_u64(s: &[u8]) -> (r: Option<u64>)
    ensures
        r == u64_of(s@),
{
    let start: usize = if s.len() > 0 && s[0] == PLUS {
        1
    } else {
        0
    };
    proof {
        if start == 1 {
            assert(s@.skip(1) =~= s@.drop_first());
        } else {
            assert(s@.skip(0) =~= s@);
        }
    }
    match scan_number(s, start, u64::MAX) {
        Some((v, _f, dot, dig)) => if !dot && dig {
            Some(v)
        } else {
            None
        },
        None => None,
    }
}

/// Reads a signed 32-bit integer: an optional `+` or `-`, then digits only.
pub fn parse_i32(s: &[u8]) -> (r: Option<i32>)
    ensures
        r == i32_of(s@),
{
    let signed = s.len() > 0 && (s[0] == MINUS || s[0] == PLUS);
    let neg = signed && s[0] == MINUS;
    let start: usize = if signed {
        1
    } else {
        0
    };
    proof {
        if signed {
            assert(s@.skip(1) =~= s@.drop_first());
        } else {
            assert(s@.skip(0) =~= s@);
        }
    }
    match scan_number(s, start, 2147483648) {
        Some((v, _f, dot, dig)) => {
            if dot || !dig {
                None
            } else if neg {
                Some((-(v as i64)) as i32)
            } else if v <= 2147483647 {
                Some(v as i32)
            } else {
                None
            }
        },
        None => None,
    }
}

/// Reads a decimal number: an optional `+` or `-`, then digits with at most
/// one point among them and at least one digit.
pub fn parse_decimal(s: &[u8]) -> (r: Option<Numeral>)
    ensures
        r == decimal_of(s@),
{
    let signed = s.len() > 0 && (s[0] == MINUS || s[0] == PLUS);
    let neg = signed && s[0] == MINUS;
    let start: usize = if signed {
        1
    } else {
        0
    };
    proof {
        if signed {
            assert(s@.skip(1) =~= s@.drop_first());
        } else {
            assert(s@.skip(0) =~= s@);
        }
    }
    match scan_number(s, start, 9223372036854775808) {
        Some((v, f, _dot, dig)) => {
            if !dig {
                None
            } else if neg {
                let mantissa: i64 = if v == 9223372036854775808 {
                    i64::MIN
                } else {
                    -(v as i64)
                };
                Some(Numeral { mantissa, scale: f })
            } else if v <= 9223372036854775807 {
                Some(Numeral { mantissa: v as i64, scale: f })
            } else {
                None
            }
        },
        None => None,
    }
}

} // verus!
