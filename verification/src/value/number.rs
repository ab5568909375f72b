//! Integers in Arma's text format: plain decimal integers, as `str::parse`
//! reads them, and numbers in exponential notation (`1.2277e+006`), which
//! Arma writes for large values. Types up to 64 bits are read into an `i128`;
//! `i128` and `u128` are read as a sign and a `u128` magnitude.

use vstd::prelude::*;
use crate::text::{copy_range, digit_char, nat_text};

verus! {

/// The ways reading a decimal integer fails, as `core::num::IntErrorKind` names them.
#[derive(Debug, Clone, Copy, PartialEq, Eq, Structural)]
pub enum IntError {
    /// No characters
    Empty,
    /// A character that is not a digit
    InvalidDigit,
    /// Larger than the target type's maximum
    PosOverflow,
    /// Smaller than the target type's minimum
    NegOverflow,
}

pub open spec fn is_digit(c: char) -> bool {
    '0' <= c && c <= '9'
}

pub open spec fn digit_value(c: char) -> int {
    (c as int) - ('0' as int)
}

/// Reads the digits `d` left to right into a value in `[lo, hi]`, building a
/// negative value when `neg` holds; the first failing character decides the error.
pub open spec fn scan_digits(d: Seq<char>, lo: int, hi: int, neg: bool) -> Result<int, IntError>
    decreases d.len(),
{
    if d.len() == 0 {
        Ok(0)
    } else {
        match scan_digits(d.drop_last(), lo, hi, neg) {
            Err(e) => Err(e),
            Ok(acc) => if !is_digit(d.last()) {
                Err(IntError::InvalidDigit)
            } else if !neg {
                if acc * 10 + digit_value(d.last()) > hi {
                    Err(IntError::PosOverflow)
                } else {
                    Ok(acc * 10 + digit_value(d.last()))
                }
            } else {
                if acc * 10 - digit_value(d.last()) < lo {
                    Err(IntError::NegOverflow)
                } else {
                    Ok(acc * 10 - digit_value(d.last()))
                }
            },
        }
    }
}

/// `str::parse` of an integer type whose range is `[lo, hi]`; `signed` tells
/// whether a leading `-` is allowed.
pub open spec fn spec_parse_int(s: Seq<char>, lo: int, hi: int, signed: bool) -> Result<
    int,
    IntError,
> {
    if s.len() == 0 {
        Err(IntError::Empty)
    } else if (s[0] == '+' || s[0] == '-') && s.len() == 1 {
        Err(IntError::InvalidDigit)
    } else if s[0] == '+' {
        scan_digits(s.drop_first(), lo, hi, false)
    } else if s[0] == '-' && signed {
        scan_digits(s.drop_first(), lo, hi, true)
    } else {
        scan_digits(s, lo, hi, false)
    }
}

proof fn lemma_scan_bounds(d: Seq<char>, lo: int, hi: int, neg: bool)
    requires
        lo <= 0 <= hi,
    ensures
        scan_digits(d, lo, hi, neg) matches Ok(v) ==> lo <= v <= hi && (neg ==> v <= 0) && (!neg
            ==> v >= 0),
    decreases d.len(),
{
    if d.len() > 0 {
        lemma_scan_bounds(d.drop_last(), lo, hi, neg);
    }
}

/// Once a prefix of the digits fails, the whole fails with the same error.
proof fn lemma_scan_err_prefix(d: Seq<char>, j: int, lo: int, hi: int, neg: bool)
    requires
        0 <= j <= d.len(),
        scan_digits(d.take(j), lo, hi, neg) is Err,
    ensures
        scan_digits(d, lo, hi, neg) == scan_digits(d.take(j), lo, hi, neg),
    decreases d.len() - j,
{
    if j < d.len() {
        assert(d.drop_last().take(j) =~= d.take(j));
        lemma_scan_err_prefix(d.drop_last(), j, lo, hi, neg);
    } else {
        assert(d.take(j) =~= d);
    }
}

/// Reads `s[start..]` as digits; see `scan_digits`.
fn scan_digits_exec(s: &[char], start: usize, lo: i128, hi: i128, neg: bool) -> (r: Result<
    i128,
    IntError,
>)
    requires
        start <= s@.len(),
        -0x1_0000_0000_0000_0000 <= lo <= 0 <= hi <= 0x1_0000_0000_0000_0000,
    ensures
        match r {
            Ok(v) => scan_digits(s@.skip(start as int), lo as int, hi as int, neg) == Ok::<
                int,
                IntError,
            >(v as int),
            Err(e) => scan_digits(s@.skip(start as int), lo as int, hi as int, neg) == Err::<
                int,
                IntError,
            >(e),
        },
{
    let ghost d = s@.skip(start as int);
    let mut acc: i128 = 0;
    let mut k: usize = start;
    assert(d.take(0) =~= Seq::<char>::empty());
    while k < s.len()
        invariant
            start <= k <= s@.len(),
            d == s@.skip(start as int),
            -0x1_0000_0000_0000_0000 <= lo <= 0 <= hi <= 0x1_0000_0000_0000_0000,
            scan_digits(d.take(k - start), lo as int, hi as int, neg) == Ok::<int, IntError>(
                acc as int,
            ),
            lo <= acc <= hi,
            neg ==> acc <= 0,
            !neg ==> acc >= 0,
        decreases s@.len() - k,
    {
        let c = s[k];
        let ghost pre = d.take(k - start);
        let ghost cur = d.take(k + 1 - start);
        assert(cur.drop_last() =~= pre);
        assert(cur.last() == c);
        if !('0' <= c && c <= '9') {
            proof {
                lemma_scan_err_prefix(d, k + 1 - start, lo as int, hi as int, neg);
            }
            return Err(IntError::InvalidDigit);
        }
        let dv = (c as u32 - '0' as u32) as i128;
        if !neg {
            if acc * 10 + dv > hi {
                proof {
                    lemma_scan_err_prefix(d, k + 1 - start, lo as int, hi as int, neg);
                }
                return Err(IntError::PosOverflow);
            }
            acc = acc * 10 + dv;
        } else {
            if acc * 10 - dv < lo {
                proof {
                    lemma_scan_err_prefix(d, k + 1 - start, lo as int, hi as int, neg);
                }
                return Err(IntError::NegOverflow);
            }
            acc = acc * 10 - dv;
        }
        k = k + 1;
    }
    assert(d.take(k - start) =~= d);
    Ok(acc)
}

/// `str::parse` of an integer type whose range is `[lo, hi]`, over `s[start..end]`.
pub fn parse_int(s: &[char], lo: i128, hi: i128, signed: bool) -> (r: Result<i128, IntError>)
    requires
        -0x1_0000_0000_0000_0000 <= lo <= 0 <= hi <= 0x1_0000_0000_0000_0000,
    ensures
        match r {
            Ok(v) => spec_parse_int(s@, lo as int, hi as int, signed) == Ok::<int, IntError>(
                v as int,
            ) && lo <= v <= hi,
            Err(e) => spec_parse_int(s@, lo as int, hi as int, signed) == Err::<int, IntError>(e),
        },
{
    if s.len() == 0 {
        return Err(IntError::Empty);
    }
    let first = s[0];
    if (first == '+' || first == '-') && s.len() == 1 {
        return Err(IntError::InvalidDigit);
    }
    let r = if first == '+' {
        assert(s@.skip(1) =~= s@.drop_first());
        scan_digits_exec(s, 1, lo, hi, false)
    } else if first == '-' && signed {
        assert(s@.skip(1) =~= s@.drop_first());
        scan_digits_exec(s, 1, lo, hi, true)
    } else {
        assert(s@.skip(0) =~= s@);
        scan_digits_exec(s, 0, lo, hi, false)
    };
    proof {
        lemma_scan_bounds(s@.drop_first(), lo as int, hi as int, false);
        lemma_scan_bounds(s@.drop_first(), lo as int, hi as int, true);
        lemma_scan_bounds(s@, lo as int, hi as int, false);
    }
    r
}

/// Index of the first `c` in `s`, or `s.len()` when there is none
pub open spec fn first_index(s: Seq<char>, c: char) -> int
    decreases s.len(),
{
    if s.len() == 0 {
        0
    } else if s[0] == c {
        0
    } else {
        1 + first_index(s.drop_first(), c)
    }
}

pub open spec fn all_digits(s: Seq<char>) -> bool {
    forall|i: int| 0 <= i < s.len() ==> is_digit(#[trigger] s[i])
}

/// The natural number that the decimal digits `d` write
pub open spec fn dec_value(d: Seq<char>) -> nat
    decreases d.len(),
{
    if d.len() == 0 {
        0
    } else {
        (dec_value(d.drop_last()) * 10 + digit_value(d.last())) as nat
    }
}

pub open spec fn pow10(k: nat) -> nat
    decreases k,
{
    if k == 0 {
        1
    } else {
        10 * pow10((k - 1) as nat)
    }
}

/// A decimal fraction `[+|-]digits[.digits]` with at least one digit: its sign
/// (`true` when negative), integer digits and fraction digits.
pub open spec fn spec_decimal_parts(b: Seq<char>) -> Option<(bool, Seq<char>, Seq<char>)> {
    let signed = b.len() > 0 && (b[0] == '+' || b[0] == '-');
    let neg = b.len() > 0 && b[0] == '-';
    let body = if signed {
        b.drop_first()
    } else {
        b
    };
    let dot = first_index(body, '.');
    let ip = body.take(dot);
    let fp = if dot < body.len() {
        body.skip(dot + 1)
    } else {
        Seq::<char>::empty()
    };
    if all_digits(ip) && all_digits(fp) && ip.len() + fp.len() > 0 {
        Some((neg, ip, fp))
    } else {
        None
    }
}

/// The integer part of the digits `d` read with the decimal point after the first `p` of them
pub open spec fn scaled_magnitude(d: Seq<char>, p: int) -> nat {
    if p <= 0 {
        0
    } else if p <= d.len() {
        dec_value(d.take(p))
    } else {
        dec_value(d) * pow10((p - d.len()) as nat)
    }
}

pub open spec fn clamp(v: int, lo: int, hi: int) -> int {
    if v < lo {
        lo
    } else if v > hi {
        hi
    } else {
        v
    }
}

/// Why reading an integer from Arma's text failed
#[derive(Debug, Clone, Copy, PartialEq, Eq, Structural)]
pub enum NumError {
    /// The integer (or the exponent) is not a valid integer
    Int(IntError),
    /// The base of an exponential notation is not a decimal number
    Float,
    /// Exponential notation without a base
    MissingBase,
    /// Exponential notation without an exponent
    MissingExponent,
}

/// Reading an integer of range `[lo, hi]` from Arma's text: text holding an `e` is
/// exponential notation, `base` `e` `exponent`; its value is the exact value of
/// `base * 10^exponent` truncated toward zero and then clamped into the range.
/// Other text is a decimal integer.
///
/// The base is taken as an exact decimal, not as a floating-point number, and
/// this is where the two differ: a product computed in `f64` can fall just
/// below an integer (`4.35e2` is `434.99999999999994` there, so 434, where this
/// gives 435), and the bases `inf` and `NaN`, which parse as floats, are
/// refused here as `NumError::Float` where an `f64` conversion would saturate
/// or give 0. Floating point has no place in this crate, so only the exact
/// reading is stated and verified.
pub open spec fn spec_int_from_arma(s: Seq<char>, lo: int, hi: int, signed: bool) -> Result<
    int,
    NumError,
> {
    let i = first_index(s, 'e');
    if i < s.len() {
        let base = s.take(i);
        let after = s.skip(i + 1);
        let exp = after.take(first_index(after, 'e'));
        if base.len() == 0 {
            Err(NumError::MissingBase)
        } else {
            match spec_decimal_parts(base) {
                None => Err(NumError::Float),
                Some((neg, ip, fp)) => if exp.len() == 0 {
                    Err(NumError::MissingExponent)
                } else {
                    match spec_parse_int(exp, i32::MIN as int, i32::MAX as int, true) {
                        Err(k) => Err(NumError::Int(k)),
                        Ok(e) => {
                            let m = scaled_magnitude(ip + fp, ip.len() + e);
                            Ok(
                                clamp(
                                    if neg {
                                        -m
                                    } else {
                                        m as int
                                    },
                                    lo,
                                    hi,
                                ),
                            )
                        },
                    }
                },
            }
        }
    } else {
        match spec_parse_int(s, lo, hi, signed) {
            Err(k) => Err(NumError::Int(k)),
            Ok(v) => Ok(v),
        }
    }
}

/// The decimal text of an integer: its digits, after a `-` when it is negative
pub open spec fn int_text(v: int) -> Seq<char> {
    if v < 0 {
        seq!['-'] + nat_text((-v) as nat)
    } else {
        nat_text(v as nat)
    }
}

proof fn lemma_digit_char(d: nat)
    requires
        d < 10,
    ensures
        is_digit(digit_char(d)),
        digit_value(digit_char(d)) == d,
{
    assert(((d + 48) as u32) as char as int == d + 48);
}

/// The decimal text of `n` is made of digits, the first of which is `0` only for `n == 0`.
pub(crate) proof fn lemma_nat_text_digits(n: nat)
    ensures
        nat_text(n).len() >= 1,
        all_digits(nat_text(n)),
        nat_text(n)[0] == '0' <==> n == 0,
    decreases n,
{
    if n < 10 {
        lemma_digit_char(n);
        assert(digit_char(n) as int == n + 48);
    } else {
        lemma_nat_text_digits(n / 10);
        lemma_digit_char(n % 10);
        let t = nat_text(n / 10).push(digit_char(n % 10));
        assert(nat_text(n) == t);
        assert forall|i: int| 0 <= i < t.len() implies is_digit(#[trigger] t[i]) by {
            if i < t.len() - 1 {
                assert(t[i] == nat_text(n / 10)[i]);
            }
        }
        assert(t[0] == nat_text(n / 10)[0]);
    }
}

/// Scanning the decimal text of `n` gives `n` (or `-n` when building a negative
/// value) while it stays in the range.
proof fn lemma_scan_nat_text(n: nat, lo: int, hi: int, neg: bool)
    requires
        lo <= 0 <= hi,
        !neg ==> n <= hi,
        neg ==> -n >= lo,
    ensures
        scan_digits(nat_text(n), lo, hi, neg) == Ok::<int, IntError>(
            if neg {
                -n
            } else {
                n as int
            },
        ),
    decreases n,
{
    let t = nat_text(n);
    if n < 10 {
        lemma_digit_char(n);
        assert(t.drop_last() =~= Seq::<char>::empty());
        assert(t.last() == digit_char(n));
        assert(scan_digits(t.drop_last(), lo, hi, neg) == Ok::<int, IntError>(0));
    } else {
        lemma_digit_char(n % 10);
        lemma_scan_nat_text(n / 10, lo, hi, neg);
        assert(t.drop_last() =~= nat_text(n / 10));
        assert(t.last() == digit_char(n % 10));
        assert((n / 10) * 10 + n % 10 == n);
        if neg {
            assert(-n <= -(n / 10));
        } else {
            assert(n / 10 <= n);
        }
    }
}

/// `str::parse` reads back the decimal text of every integer in the range.
pub proof fn lemma_parse_int_text(v: int, lo: int, hi: int, signed: bool)
    requires
        lo <= v <= hi,
        lo <= 0 <= hi,
        v < 0 ==> signed,
    ensures
        spec_parse_int(int_text(v), lo, hi, signed) == Ok::<int, IntError>(v),
{
    if v < 0 {
        let n = (-v) as nat;
        lemma_nat_text_digits(n);
        lemma_scan_nat_text(n, lo, hi, true);
        assert(int_text(v).drop_first() =~= nat_text(n));
        assert(int_text(v)[0] == '-');
    } else {
        lemma_nat_text_digits(v as nat);
        lemma_scan_nat_text(v as nat, lo, hi, false);
        assert(is_digit(int_text(v)[0]));
    }
}

/// The decimal text of an integer holds no `e`, so it is never read as exponential notation.
proof fn lemma_int_text_no_e(v: int)
    ensures
        first_index(int_text(v), 'e') == int_text(v).len(),
{
    let t = int_text(v);
    let n = if v < 0 {
        (-v) as nat
    } else {
        v as nat
    };
    lemma_nat_text_digits(n);
    lemma_first_index_bound(t, 'e');
    let i = first_index(t, 'e');
    if i < t.len() {
        if v < 0 {
            assert(t[i] == nat_text(n)[i - 1]);
            assert(is_digit(nat_text(n)[i - 1]));
        } else {
            assert(is_digit(nat_text(n)[i]));
        }
    }
}

/// Reading an integer of the range back from its decimal text gives it unchanged.
pub proof fn lemma_int_from_arma_text(v: int, lo: int, hi: int, signed: bool)
    requires
        lo <= v <= hi,
        lo <= 0 <= hi,
        v < 0 ==> signed,
    ensures
        spec_int_from_arma(int_text(v), lo, hi, signed) == Ok::<int, NumError>(v),
{
    lemma_int_text_no_e(v);
    lemma_parse_int_text(v, lo, hi, signed);
}

/// Finds the first `c` in `s[from..]`; gives `s.len()` when there is none.
fn find_char(s: &[char], from: usize, c: char) -> (r: usize)
    requires
        from <= s@.len(),
    ensures
        from <= r <= s@.len(),
        r - from == first_index(s@.skip(from as int), c),
{
    let mut k = from;
    while k < s.len() && s[k] != c
        invariant
            from <= k <= s@.len(),
            first_index(s@.skip(from as int), c) == (k - from) + first_index(s@.skip(k as int), c),
        decreases s@.len() - k,
    {
        assert(s@.skip(k as int).drop_first() =~= s@.skip(k + 1));
        k = k + 1;
    }
    k
}

pub(crate) proof fn lemma_first_index_bound(s: Seq<char>, c: char)
    ensures
        0 <= first_index(s, c) <= s.len(),
        first_index(s, c) < s.len() ==> s[first_index(s, c)] == c,
        forall|j: int| 0 <= j < first_index(s, c) ==> s[j] != c,
    decreases s.len(),
{
    if s.len() > 0 && s[0] != c {
        lemma_first_index_bound(s.drop_first(), c);
        assert forall|j: int| 0 <= j < first_index(s, c) implies s[j] != c by {
            if j > 0 {
                assert(s[j] == s.drop_first()[j - 1]);
            }
        }
    }
}

/// 2^64: larger than every value of the integer types read here
pub open spec fn cap() -> int {
    0x1_0000_0000_0000_0000
}

/// `dec_value` with every step held at `cap()`
pub open spec fn capped_dec(d: Seq<char>) -> int
    decreases d.len(),
{
    if d.len() == 0 {
        0
    } else {
        let v = capped_dec(d.drop_last()) * 10 + digit_value(d.last());
        if v > cap() {
            cap()
        } else {
            v
        }
    }
}

proof fn lemma_capped_dec(d: Seq<char>)
    requires
        all_digits(d),
    ensures
        capped_dec(d) == if dec_value(d) > cap() {
            cap()
        } else {
            dec_value(d) as int
        },
    decreases d.len(),
{
    if d.len() > 0 {
        assert(all_digits(d.drop_last())) by {
            assert forall|i: int| 0 <= i < d.drop_last().len() implies is_digit(
                #[trigger] d.drop_last()[i],
            ) by {
                assert(d.drop_last()[i] == d[i]);
            }
        }
        assert(is_digit(d[d.len() - 1]));
        lemma_capped_dec(d.drop_last());
    }
}

proof fn lemma_pow10_pos(k: nat)
    ensures
        pow10(k) >= 1,
    decreases k,
{
    if k > 0 {
        lemma_pow10_pos((k - 1) as nat);
    }
}

/// Reads the digits `d` into a value held at `cap()`.
fn capped_dec_exec(d: &[char], n: usize) -> (r: u128)
    requires
        n <= d@.len(),
        all_digits(d@.take(n as int)),
    ensures
        r == capped_dec(d@.take(n as int)),
        r <= cap(),
{
    let mut acc: u128 = 0;
    let mut k: usize = 0;
    assert(d@.take(0) =~= Seq::<char>::empty());
    while k < n
        invariant
            k <= n <= d@.len(),
            all_digits(d@.take(n as int)),
            acc == capped_dec(d@.take(k as int)),
            acc <= cap(),
        decreases n - k,
    {
        assert(d@.take(k + 1).drop_last() =~= d@.take(k as int));
        assert(d@.take(n as int)[k as int] == d@[k as int]);
        let dv = (d[k] as u32 - '0' as u32) as u128;
        let v = acc * 10 + dv;
        acc = if v > 0x1_0000_0000_0000_0000 {
            0x1_0000_0000_0000_0000
        } else {
            v
        };
        k = k + 1;
    }
    acc
}

/// `x * 10^k` held at `cap()`
fn capped_scale(x: u128, k: u128) -> (r: u128)
    requires
        x <= cap(),
    ensures
        r == if x * pow10(k as nat) > cap() {
            cap()
        } else {
            x * pow10(k as nat)
        },
{
    let mut acc = x;
    let mut i: u128 = 0;
    assert(pow10(0) == 1);
    assert(x * pow10(0) == x);
    while i < k
        invariant
            i <= k,
            x <= cap(),
            acc == if x * pow10(i as nat) > cap() {
                cap()
            } else {
                x * pow10(i as nat)
            },
        decreases k - i,
    {
        proof {
            lemma_pow10_pos(i as nat);
            assert(x * pow10((i + 1) as nat) == (x * pow10(i as nat)) * 10) by (nonlinear_arith)
                requires
                    pow10((i + 1) as nat) == 10 * pow10(i as nat),
            ;
        }
        if acc == 0 {
            proof {
                assert(x * pow10(i as nat) == 0);
                assert(x == 0) by (nonlinear_arith)
                    requires
                        x * pow10(i as nat) == 0,
                        pow10(i as nat) >= 1,
                ;
                lemma_pow10_pos(k as nat);
                assert(x * pow10(k as nat) == 0) by (nonlinear_arith)
                    requires
                        x == 0,
                ;
            }
            return 0;
        }
        if acc == 0x1_0000_0000_0000_0000 {
            proof {
                lemma_pow10_monotone(i as nat, k as nat);
                assert(x * pow10(i as nat) <= x * pow10(k as nat)) by (nonlinear_arith)
                    requires
                        pow10(i as nat) <= pow10(k as nat),
                ;
            }
            return 0x1_0000_0000_0000_0000;
        }
        let v = acc * 10;
        acc = if v > 0x1_0000_0000_0000_0000 {
            0x1_0000_0000_0000_0000
        } else {
            v
        };
        i = i + 1;
    }
    acc
}

proof fn lemma_pow10_monotone(i: nat, k: nat)
    requires
        i <= k,
    ensures
        pow10(i) <= pow10(k),
    decreases k,
{
    if i < k {
        lemma_pow10_monotone(i, (k - 1) as nat);
        lemma_pow10_pos((k - 1) as nat);
    }
}

/// Whether every character of `s[lo..hi]` is a digit
fn all_digits_range(s: &[char], lo: usize, hi: usize) -> (r: bool)
    requires
        lo <= hi <= s@.len(),
    ensures
        r == all_digits(s@.subrange(lo as int, hi as int)),
{
    let mut k = lo;
    while k < hi
        invariant
            lo <= k <= hi <= s@.len(),
            all_digits(s@.subrange(lo as int, k as int)),
        decreases hi - k,
    {
        if !('0' <= s[k] && s[k] <= '9') {
            assert(s@.subrange(lo as int, hi as int)[k - lo] == s@[k as int]);
            return false;
        }
        assert forall|t: int| 0 <= t < k + 1 - lo implies is_digit(
            #[trigger] s@.subrange(lo as int, k + 1)[t],
        ) by {
            if t < k - lo {
                assert(s@.subrange(lo as int, k + 1)[t] == s@.subrange(lo as int, k as int)[t]);
            }
        }
        k = k + 1;
    }
    true
}

/// Reads a decimal fraction: its sign, its digits (integer digits then
/// fraction digits), and how many of them are integer digits.
fn decimal_parts(b: &[char]) -> (r: Option<(bool, Vec<char>, usize)>)
    ensures
        match r {
            Some((neg, digits, n)) => match spec_decimal_parts(b@) {
                Some((sneg, ip, fp)) => neg == sneg && digits@ == ip + fp && n == ip.len(),
                None => false,
            },
            None => spec_decimal_parts(b@) is None,
        },
{
    let signed = b.len() > 0 && (b[0] == '+' || b[0] == '-');
    let neg = b.len() > 0 && b[0] == '-';
    let start: usize = if signed {
        1
    } else {
        0
    };
    let ghost body = if signed {
        b@.drop_first()
    } else {
        b@
    };
    assert(body =~= b@.skip(start as int));
    let dot = find_char(b, start, '.');
    proof {
        lemma_first_index_bound(body, '.');
    }
    let ghost ip = body.take(dot - start);
    let ghost fp = if dot - start < body.len() {
        body.skip(dot - start + 1)
    } else {
        Seq::<char>::empty()
    };
    assert(ip =~= b@.subrange(start as int, dot as int));
    let fp_start = if dot < b.len() {
        dot + 1
    } else {
        b.len()
    };
    assert(fp =~= b@.subrange(fp_start as int, b@.len() as int));
    if !all_digits_range(b, start, dot) || !all_digits_range(b, fp_start, b.len()) {
        return None;
    }
    if dot - start + (b.len() - fp_start) == 0 {
        return None;
    }
    let mut digits = copy_range(b, start, dot);
    let frac = copy_range(b, fp_start, b.len());
    let mut k: usize = 0;
    let ghost d0 = digits@;
    while k < frac.len()
        invariant
            k <= frac@.len(),
            digits@ == d0 + frac@.take(k as int),
        decreases frac@.len() - k,
    {
        digits.push(frac[k]);
        assert(digits@ =~= d0 + frac@.take(k + 1));
        k = k + 1;
    }
    assert(frac@.take(frac@.len() as int) =~= frac@);
    Some((neg, digits, dot - start))
}

proof fn lemma_scale_cap(d: nat, k: nat)
    ensures
        ({
            let c = if d > cap() {
                cap()
            } else {
                d as int
            };
            let lhs = if c * pow10(k) > cap() {
                cap()
            } else {
                c * pow10(k)
            };
            lhs == if d * pow10(k) > cap() {
                cap()
            } else {
                (d * pow10(k)) as int
            }
        }),
{
    lemma_pow10_pos(k);
    if d > cap() {
        assert(cap() * pow10(k) >= cap()) by (nonlinear_arith)
            requires
                pow10(k) >= 1,
        ;
        assert(d * pow10(k) >= d) by (nonlinear_arith)
            requires
                pow10(k) >= 1,
        ;
    }
}

/// The value of a sign and a magnitude
pub open spec fn signed_of(neg: bool, m: int) -> int {
    if neg {
        -m
    } else {
        m
    }
}

/// `a * 10 + d` passes `limit` exactly when `a` passes `(limit - d) / 10`.
proof fn lemma_step_bound(a: int, d: int, limit: int)
    requires
        0 <= a,
        0 <= d <= limit,
    ensures
        (a * 10 + d > limit) <==> (a > (limit - d) / 10),
{
    let q = (limit - d) / 10;
    assert(q * 10 <= limit - d < q * 10 + 10) by (nonlinear_arith)
        requires
            q == (limit - d) / 10,
            limit - d >= 0,
    ;
    if a > q {
        assert(a * 10 >= q * 10 + 10) by (nonlinear_arith)
            requires
                a >= q + 1,
        ;
    } else {
        assert(a * 10 <= q * 10) by (nonlinear_arith)
            requires
                a <= q,
        ;
    }
}

/// Reads `s[start..]` as digits into a magnitude, for ranges as wide as
/// `i128` and `u128`: `lo_mag` is the magnitude of the least value; see `scan_digits`.
fn scan_digits_wide(s: &[char], start: usize, lo_mag: u128, hi: u128, neg: bool) -> (r: Result<
    u128,
    IntError,
>)
    requires
        start <= s@.len(),
    ensures
        match r {
            Ok(m) => scan_digits(s@.skip(start as int), -(lo_mag as int), hi as int, neg) == Ok::<
                int,
                IntError,
            >(signed_of(neg, m as int)) && (neg ==> m <= lo_mag) && (!neg ==> m <= hi),
            Err(e) => scan_digits(s@.skip(start as int), -(lo_mag as int), hi as int, neg) == Err::<
                int,
                IntError,
            >(e),
        },
{
    let ghost d = s@.skip(start as int);
    let ghost lo = -(lo_mag as int);
    let mut acc: u128 = 0;
    let mut k: usize = start;
    assert(d.take(0) =~= Seq::<char>::empty());
    while k < s.len()
        invariant
            start <= k <= s@.len(),
            d == s@.skip(start as int),
            lo == -(lo_mag as int),
            scan_digits(d.take(k - start), lo, hi as int, neg) == Ok::<int, IntError>(
                signed_of(neg, acc as int),
            ),
            neg ==> acc <= lo_mag,
            !neg ==> acc <= hi,
        decreases s@.len() - k,
    {
        let c = s[k];
        let ghost pre = d.take(k - start);
        let ghost cur = d.take(k + 1 - start);
        assert(cur.drop_last() =~= pre);
        assert(cur.last() == c);
        if !('0' <= c && c <= '9') {
            proof {
                lemma_scan_err_prefix(d, k + 1 - start, lo, hi as int, neg);
            }
            return Err(IntError::InvalidDigit);
        }
        let dv = (c as u32 - '0' as u32) as u128;
        let limit = if neg {
            lo_mag
        } else {
            hi
        };
        let over = dv > limit || acc > (limit - dv) / 10;
        proof {
            if dv <= limit {
                lemma_step_bound(acc as int, dv as int, limit as int);
            }
        }
        if over {
            proof {
                lemma_scan_err_prefix(d, k + 1 - start, lo, hi as int, neg);
            }
            if neg {
                return Err(IntError::NegOverflow);
            } else {
                return Err(IntError::PosOverflow);
            }
        }
        acc = acc * 10 + dv;
        k = k + 1;
    }
    assert(d.take(k - start) =~= d);
    Ok(acc)
}

/// `str::parse` of an integer type as wide as `i128` or `u128`, giving the
/// sign and the magnitude; see `spec_parse_int`.
fn parse_int_wide(s: &[char], lo_mag: u128, hi: u128, signed: bool) -> (r: Result<
    (bool, u128),
    IntError,
>)
    ensures
        match r {
            Ok((neg, m)) => spec_parse_int(s@, -(lo_mag as int), hi as int, signed) == Ok::<
                int,
                IntError,
            >(signed_of(neg, m as int)) && (neg ==> m <= lo_mag) && (!neg ==> m <= hi),
            Err(e) => spec_parse_int(s@, -(lo_mag as int), hi as int, signed) == Err::<
                int,
                IntError,
            >(e),
        },
{
    if s.len() == 0 {
        return Err(IntError::Empty);
    }
    let first = s[0];
    if (first == '+' || first == '-') && s.len() == 1 {
        return Err(IntError::InvalidDigit);
    }
    if first == '+' {
        assert(s@.skip(1) =~= s@.drop_first());
        match scan_digits_wide(s, 1, lo_mag, hi, false) {
            Ok(m) => Ok((false, m)),
            Err(e) => Err(e),
        }
    } else if first == '-' && signed {
        assert(s@.skip(1) =~= s@.drop_first());
        match scan_digits_wide(s, 1, lo_mag, hi, true) {
            Ok(m) => Ok((true, m)),
            Err(e) => Err(e),
        }
    } else {
        assert(s@.skip(0) =~= s@);
        match scan_digits_wide(s, 0, lo_mag, hi, false) {
            Ok(m) => Ok((false, m)),
            Err(e) => Err(e),
        }
    }
}

/// The largest `u128`: values read for the widest types are held there
pub open spec fn wide_cap() -> int {
    0xffff_ffff_ffff_ffff_ffff_ffff_ffff_ffff
}

/// `v` held at `wide_cap()`
pub open spec fn min_cap(v: int) -> int {
    if v > wide_cap() {
        wide_cap()
    } else {
        v
    }
}

/// Reads the first `n` digits of `d`, held at `wide_cap()`.
fn dec_wide(d: &[char], n: usize) -> (r: u128)
    requires
        n <= d@.len(),
        all_digits(d@.take(n as int)),
    ensures
        r == min_cap(dec_value(d@.take(n as int)) as int),
{
    let mut acc: u128 = 0;
    let mut k: usize = 0;
    assert(d@.take(0) =~= Seq::<char>::empty());
    while k < n
        invariant
            k <= n <= d@.len(),
            all_digits(d@.take(n as int)),
            acc == min_cap(dec_value(d@.take(k as int)) as int),
        decreases n - k,
    {
        let ghost t = dec_value(d@.take(k as int)) as int;
        assert(d@.take(k + 1).drop_last() =~= d@.take(k as int));
        assert(d@.take(n as int)[k as int] == d@[k as int]);
        assert(is_digit(d@.take(n as int)[k as int]));
        let dv = (d[k] as u32 - '0' as u32) as u128;
        assert(dv == digit_value(d@[k as int]));
        assert(dec_value(d@.take(k + 1)) == t * 10 + dv);
        proof {
            lemma_step_bound(acc as int, dv as int, wide_cap());
        }
        if acc == 0xffff_ffff_ffff_ffff_ffff_ffff_ffff_ffff || acc > (
        0xffff_ffff_ffff_ffff_ffff_ffff_ffff_ffff - dv) / 10 {
            acc = 0xffff_ffff_ffff_ffff_ffff_ffff_ffff_ffff;
        } else {
            acc = acc * 10 + dv;
        }
        k = k + 1;
    }
    acc
}

/// `x * 10^k` held at `wide_cap()`.
fn scale_wide(x: u128, k: u128) -> (r: u128)
    ensures
        r == min_cap(x * pow10(k as nat)),
{
    let mut acc = x;
    let mut i: u128 = 0;
    assert(pow10(0) == 1);
    assert(x * pow10(0) == x);
    while i < k
        invariant
            i <= k,
            acc == min_cap(x * pow10(i as nat)),
        decreases k - i,
    {
        proof {
            lemma_pow10_pos(i as nat);
            assert(x * pow10((i + 1) as nat) == (x * pow10(i as nat)) * 10) by (nonlinear_arith)
                requires
                    pow10((i + 1) as nat) == 10 * pow10(i as nat),
            ;
            lemma_step_bound(acc as int, 0, wide_cap());
        }
        if acc == 0 {
            proof {
                assert(x == 0) by (nonlinear_arith)
                    requires
                        x * pow10(i as nat) == 0,
                        pow10(i as nat) >= 1,
                ;
                assert(x * pow10(k as nat) == 0) by (nonlinear_arith)
                    requires
                        x == 0,
                ;
            }
            return 0;
        }
        if acc > 0xffff_ffff_ffff_ffff_ffff_ffff_ffff_ffff / 10 {
            proof {
                assert(x * pow10(i as nat) >= acc);
                lemma_pow10_monotone((i + 1) as nat, k as nat);
                assert(x * pow10((i + 1) as nat) <= x * pow10(k as nat)) by (nonlinear_arith)
                    requires
                        pow10((i + 1) as nat) <= pow10(k as nat),
                ;
            }
            return 0xffff_ffff_ffff_ffff_ffff_ffff_ffff_ffff;
        }
        acc = acc * 10;
        i = i + 1;
    }
    acc
}

/// Holding a magnitude at the cap before scaling it changes nothing once the
/// scaled value is held at the cap too.
proof fn lemma_scale_min(d: nat, k: nat)
    ensures
        min_cap(min_cap(d as int) * pow10(k)) == min_cap((d * pow10(k)) as int),
{
    lemma_pow10_pos(k);
    if d > wide_cap() {
        assert(wide_cap() * pow10(k) >= wide_cap()) by (nonlinear_arith)
            requires
                pow10(k) >= 1,
        ;
        assert(d * pow10(k) >= d) by (nonlinear_arith)
            requires
                pow10(k) >= 1,
        ;
    }
}

/// Reads an integer of a type as wide as `i128` or `u128` from Arma's text,
/// giving its sign and magnitude: `lo_mag` is the magnitude of the type's least
/// value. See `spec_int_from_arma`.
pub fn int_from_arma_wide(s: &[char], lo_mag: u128, hi: u128, signed: bool) -> (r: Result<
    (bool, u128),
    NumError,
>)
    requires
        lo_mag <= 0x8000_0000_0000_0000_0000_0000_0000_0000,
    ensures
        match r {
            Ok((neg, m)) => spec_int_from_arma(s@, -(lo_mag as int), hi as int, signed) == Ok::<
                int,
                NumError,
            >(signed_of(neg, m as int)) && -(lo_mag as int) <= signed_of(neg, m as int) <= hi,
            Err(e) => spec_int_from_arma(s@, -(lo_mag as int), hi as int, signed) == Err::<
                int,
                NumError,
            >(e),
        },
{
    assert(s@.skip(0) =~= s@);
    let i = find_char(s, 0, 'e');
    proof {
        lemma_first_index_bound(s@, 'e');
    }
    if i < s.len() {
        if i == 0 {
            return Err(NumError::MissingBase);
        }
        let base = copy_range(s, 0, i);
        assert(base@ =~= s@.take(i as int));
        let parts = decimal_parts(base.as_slice());
        match parts {
            None => Err(NumError::Float),
            Some((neg, digits, n)) => {
                let j = find_char(s, i + 1, 'e');
                proof {
                    lemma_first_index_bound(s@.skip(i + 1), 'e');
                }
                let exp = copy_range(s, i + 1, j);
                assert(exp@ =~= s@.skip(i + 1).take(j - (i + 1)));
                if exp.len() == 0 {
                    return Err(NumError::MissingExponent);
                }
                match parse_int(exp.as_slice(), -0x8000_0000, 0x7fff_ffff, true) {
                    Err(k) => Err(NumError::Int(k)),
                    Ok(e) => {
                        let p: i128 = n as i128 + e;
                        let ghost d = digits@;
                        assert(all_digits(d)) by {
                            let ghost sp = spec_decimal_parts(s@.take(i as int));
                            assert forall|t: int| 0 <= t < d.len() implies is_digit(
                                #[trigger] d[t],
                            ) by {
                                let (sn, sip, sfp) = sp.unwrap();
                                if t < sip.len() {
                                    assert(d[t] == sip[t]);
                                } else {
                                    assert(d[t] == sfp[t - sip.len()]);
                                }
                            }
                        }
                        let m: u128 = if p <= 0 {
                            0
                        } else if p <= digits.len() as i128 {
                            proof {
                                assert(all_digits(d.take(p as int)));
                            }
                            dec_wide(digits.as_slice(), p as usize)
                        } else {
                            proof {
                                assert(d.take(d.len() as int) =~= d);
                                lemma_scale_min(dec_value(d), (p - d.len()) as nat);
                            }
                            let c = dec_wide(digits.as_slice(), digits.len());
                            scale_wide(c, (p - digits.len() as i128) as u128)
                        };
                        let ghost full = scaled_magnitude(d, p as int);
                        assert(m == min_cap(full as int));
                        if neg {
                            if m > lo_mag {
                                Ok((true, lo_mag))
                            } else {
                                Ok((true, m))
                            }
                        } else {
                            if m > hi {
                                Ok((false, hi))
                            } else {
                                Ok((false, m))
                            }
                        }
                    },
                }
            },
        }
    } else {
        match parse_int_wide(s, lo_mag, hi, signed) {
            Err(k) => Err(NumError::Int(k)),
            Ok((neg, m)) => Ok((neg, m)),
        }
    }
}

/// Reads an integer of range `[lo, hi]` from Arma's text; see `spec_int_from_arma`.
pub fn int_from_arma(s: &[char], lo: i128, hi: i128, signed: bool) -> (r: Result<i128, NumError>)
    requires
        -0x8000_0000_0000_0000 <= lo <= 0 <= hi < 0x1_0000_0000_0000_0000,
    ensures
        match r {
            Ok(v) => spec_int_from_arma(s@, lo as int, hi as int, signed) == Ok::<int, NumError>(
                v as int,
            ) && lo <= v <= hi,
            Err(e) => spec_int_from_arma(s@, lo as int, hi as int, signed) == Err::<
                int,
                NumError,
            >(e),
        },
{
    assert(s@.skip(0) =~= s@);
    let i = find_char(s, 0, 'e');
    proof {
        lemma_first_index_bound(s@, 'e');
    }
    if i < s.len() {
        if i == 0 {
            return Err(NumError::MissingBase);
        }
        let base = copy_range(s, 0, i);
        assert(base@ =~= s@.take(i as int));
        let parts = decimal_parts(base.as_slice());
        match parts {
            None => Err(NumError::Float),
            Some((neg, digits, n)) => {
                let j = find_char(s, i + 1, 'e');
                proof {
                    lemma_first_index_bound(s@.skip(i + 1), 'e');
                }
                let exp = copy_range(s, i + 1, j);
                assert(exp@ =~= s@.skip(i + 1).take(j - (i + 1)));
                if exp.len() == 0 {
                    return Err(NumError::MissingExponent);
                }
                match parse_int(exp.as_slice(), -0x8000_0000, 0x7fff_ffff, true) {
                    Err(k) => Err(NumError::Int(k)),
                    Ok(e) => {
                        let p: i128 = n as i128 + e;
                        let ghost d = digits@;
                        assert(all_digits(d)) by {
                            let ghost sp = spec_decimal_parts(s@.take(i as int));
                            assert forall|t: int| 0 <= t < d.len() implies is_digit(
                                #[trigger] d[t],
                            ) by {
                                let (sn, sip, sfp) = sp.unwrap();
                                if t < sip.len() {
                                    assert(d[t] == sip[t]);
                                } else {
                                    assert(d[t] == sfp[t - sip.len()]);
                                }
                            }
                        }
                        let m: u128 = if p <= 0 {
                            0
                        } else if p <= digits.len() as i128 {
                            proof {
                                assert(all_digits(d.take(p as int)));
                                lemma_capped_dec(d.take(p as int));
                            }
                            capped_dec_exec(digits.as_slice(), p as usize)
                        } else {
                            proof {
                                assert(d.take(d.len() as int) =~= d);
                                lemma_capped_dec(d);
                                lemma_scale_cap(dec_value(d), (p - d.len()) as nat);
                            }
                            let c = capped_dec_exec(digits.as_slice(), digits.len());
                            capped_scale(c, (p - digits.len() as i128) as u128)
                        };
                        let v: i128 = if neg {
                            -(m as i128)
                        } else {
                            m as i128
                        };
                        let out = if v < lo {
                            lo
                        } else if v > hi {
                            hi
                        } else {
                            v
                        };
                        Ok(out)
                    },
                }
            },
        }
    } else {
        match parse_int(s, lo, hi, signed) {
            Err(k) => Err(NumError::Int(k)),
            Ok(v) => Ok(v),
        }
    }
}

} // verus!
