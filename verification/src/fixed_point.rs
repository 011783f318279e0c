//! Exact fixed-point decimals.
//!
//! Prices and volumes are stored as integers scaled by `10^8`, so that all
//! arithmetic on them is exact integer arithmetic. Parsing a decimal string
//! preserves exactly eight fractional digits (`"123.456"` becomes the raw
//! magnitude `12345600000`), and formatting always prints eight fractional
//! digits (`"123.45600000"`).

use vstd::arithmetic::div_mod::*;
use vstd::arithmetic::mul::*;
use vstd::arithmetic::power::*;
use vstd::prelude::*;
use vstd::std_specs::iter::IteratorSpec;

verus! {

/// Scale factor of the fixed-point representation: `10^8`.
pub const FIXED_POINT_SCALE: i64 = 100_000_000;

/// Number of fractional decimal digits kept by the representation.
pub const FIXED_POINT_DECIMALS: usize = 8;

/// A decimal number stored exactly as an integer scaled by `10^8`.
///
/// The raw scaled magnitude is public so that callers can do exact integer
/// arithmetic on it directly; `1.5` is stored as `FixedPoint(150_000_000)`.
#[derive(Clone, Copy, Debug, PartialEq, Eq, Structural)]
pub struct FixedPoint(pub i64);

/// Failure of [`FixedPoint::from_str`].
#[derive(Clone, Copy, Debug, PartialEq, Eq, Structural)]
pub enum ParseError {
    /// The input is not a decimal numeral with at most eight fractional
    /// digits, or its value does not fit the fixed-point range.
    InvalidFormat,
}

/// Is `c` one of the ten ASCII decimal digits?
pub open spec fn is_digit_char(c: char) -> bool {
    48 <= c as u32 <= 57
}

/// Is `c` the ASCII decimal point `'.'`?
pub open spec fn is_dot_char(c: char) -> bool {
    c as u32 == 46
}

/// Numeric value of an ASCII decimal digit.
pub open spec fn digit_value(c: char) -> int {
    c as u32 - 48
}

/// Do all characters of `s` satisfy [`is_digit_char`]?
pub open spec fn all_digits(s: Seq<char>) -> bool {
    forall|i: int| 0 <= i < s.len() ==> is_digit_char(#[trigger] s[i])
}

/// The integer denoted by a sequence of decimal digits, most significant
/// first. The empty sequence denotes zero.
pub open spec fn digits_value(s: Seq<char>) -> int
    decreases s.len(),
{
    if s.len() == 0 {
        0
    } else {
        digits_value(s.drop_last()) * 10 + digit_value(s.last())
    }
}

/// Index of the first `'.'` in `s`, or `s.len()` if there is none.
pub open spec fn dot_position(s: Seq<char>) -> int
    decreases s.len(),
{
    if s.len() == 0 {
        0
    } else if is_dot_char(s[0]) {
        0
    } else {
        1 + dot_position(s.drop_first())
    }
}

/// Is `s` a decimal numeral that the fixed-point parser accepts: one or more
/// digits, optionally followed by `'.'` and one to eight digits?
pub open spec fn valid_decimal(s: Seq<char>) -> bool {
    let p = dot_position(s);
    &&& p >= 1
    &&& all_digits(s.subrange(0, p))
    &&& p < s.len() ==> {
        let frac = s.subrange(p + 1, s.len() as int);
        1 <= frac.len() <= 8 && all_digits(frac)
    }
}

/// The value denoted by a valid decimal numeral, scaled by `10^8`.
pub open spec fn decimal_value(s: Seq<char>) -> int {
    let p = dot_position(s);
    let frac = if p < s.len() {
        s.subrange(p + 1, s.len() as int)
    } else {
        Seq::<char>::empty()
    };
    digits_value(s.subrange(0, p)) * pow(10, 8) + digits_value(frac) * pow(
        10,
        (8 - frac.len()) as nat,
    )
}

/// What parsing a string yields: the scaled value, if the string is a valid
/// decimal numeral whose scaled value fits in an `i64`.
pub open spec fn spec_parse_fixed(s: Seq<char>) -> Option<int> {
    if valid_decimal(s) && decimal_value(s) <= i64::MAX {
        Some(decimal_value(s))
    } else {
        None
    }
}

/// `dot_position` really is the index of the first dot.
pub proof fn lemma_dot_position(s: Seq<char>)
    ensures
        0 <= dot_position(s) <= s.len(),
        dot_position(s) < s.len() ==> is_dot_char(s[dot_position(s)]),
        forall|j: int| 0 <= j < dot_position(s) ==> !is_dot_char(#[trigger] s[j]),
    decreases s.len(),
{
    if s.len() == 0 {
    } else if is_dot_char(s[0]) {
    } else {
        lemma_dot_position(s.drop_first());
        assert forall|j: int| 0 <= j < dot_position(s) implies !is_dot_char(#[trigger] s[j]) by {
            if j > 0 {
                assert(s.drop_first()[j - 1] == s[j]);
            }
        }
        if dot_position(s) < s.len() {
            assert(s.drop_first()[dot_position(s.drop_first())] == s[dot_position(s)]);
        }
    }
}

/// If no dot stands before `i` then the first dot is not before `i`;
/// if in addition `s[i]` is a dot, the first dot is exactly at `i`.
pub proof fn lemma_dot_position_from_scan(s: Seq<char>, i: int)
    requires
        0 <= i <= s.len(),
        forall|j: int| 0 <= j < i ==> !is_dot_char(#[trigger] s[j]),
    ensures
        dot_position(s) >= i,
        i < s.len() && is_dot_char(s[i]) ==> dot_position(s) == i,
        i == s.len() ==> dot_position(s) == i,
{
    lemma_dot_position(s);
    if dot_position(s) < i {
        assert(is_dot_char(s[dot_position(s)]));
    }
    if i < s.len() && is_dot_char(s[i]) && dot_position(s) > i {
        assert(!is_dot_char(s[i]));
    }
}

/// A digit string denotes a non-negative value.
pub proof fn lemma_digits_value_nonneg(s: Seq<char>)
    requires
        all_digits(s),
    ensures
        digits_value(s) >= 0,
    decreases s.len(),
{
    if s.len() > 0 {
        lemma_digits_value_nonneg(s.drop_last());
    }
}

/// Concatenating digit strings composes their values positionally.
pub proof fn lemma_digits_value_concat(a: Seq<char>, b: Seq<char>)
    ensures
        digits_value(a + b) == digits_value(a) * pow(10, b.len()) + digits_value(b),
    decreases b.len(),
{
    if b.len() == 0 {
        assert(a + b =~= a);
        lemma_pow0(10);
    } else {
        lemma_digits_value_concat(a, b.drop_last());
        assert((a + b).drop_last() =~= a + b.drop_last());
        assert((a + b).last() == b.last());
        assert(pow(10, b.len()) == 10 * pow(10, (b.len() - 1) as nat)) by {
            reveal_with_fuel(pow, 2);
        }
        let va = digits_value(a);
        let vb = digits_value(b.drop_last());
        let p = pow(10, (b.len() - 1) as nat);
        assert((va * p + vb) * 10 == va * (10 * p) + vb * 10) by (nonlinear_arith);
    }
}

/// Extending a digit string to the right never decreases its value.
pub proof fn lemma_digits_value_extend(a: Seq<char>, b: Seq<char>)
    requires
        all_digits(b),
        digits_value(a) >= 0,
    ensures
        digits_value(a + b) >= digits_value(a),
{
    lemma_digits_value_concat(a, b);
    lemma_digits_value_nonneg(b);
    lemma_pow_positive(10, b.len());
    assert(digits_value(a) * pow(10, b.len()) >= digits_value(a) * 1) by {
        lemma_mul_inequality(1, pow(10, b.len()), digits_value(a));
        lemma_mul_is_commutative(digits_value(a), pow(10, b.len()));
        lemma_mul_is_commutative(digits_value(a), 1);
    }
}

/// Appending one digit multiplies the value by ten and adds the digit.
pub proof fn lemma_digits_value_push(s: Seq<char>, c: char)
    ensures
        digits_value(s.push(c)) == digits_value(s) * 10 + digit_value(c),
{
    assert(s.push(c).drop_last() =~= s);
    assert(s.push(c).last() == c);
}

/// The scaled value of a valid numeral is the value of its digits (integer
/// digits followed by fractional digits) shifted to eight decimal places.
pub proof fn lemma_decimal_value_combined(s: Seq<char>)
    requires
        dot_position(s) < s.len() ==> s.len() - dot_position(s) - 1 <= 8,
    ensures
        decimal_value(s) == digits_value(
            s.subrange(0, dot_position(s)) + spec_frac_part(s),
        ) * pow(10, (8 - spec_frac_part(s).len()) as nat),
{
    lemma_dot_position(s);
    let p = dot_position(s);
    let ip = s.subrange(0, p);
    let frac = spec_frac_part(s);
    let fl = frac.len();
    lemma_digits_value_concat(ip, frac);
    lemma_pow_adds(10, fl, (8 - fl) as nat);
    assert((digits_value(ip) * pow(10, fl) + digits_value(frac)) * pow(10, (8 - fl) as nat)
        == digits_value(ip) * (pow(10, fl) * pow(10, (8 - fl) as nat)) + digits_value(frac) * pow(
        10,
        (8 - fl) as nat,
    )) by (nonlinear_arith);
}

/// The fractional digits of `s`: what follows the first dot.
pub open spec fn spec_frac_part(s: Seq<char>) -> Seq<char> {
    if dot_position(s) < s.len() {
        s.subrange(dot_position(s) + 1, s.len() as int)
    } else {
        Seq::<char>::empty()
    }
}

/// A numeral is invalid if a character in its integer-part scan is neither a
/// digit nor the first dot.
proof fn lemma_invalid_char_int_part(s: Seq<char>, i: int)
    requires
        0 <= i < s.len(),
        all_digits(s.subrange(0, i)),
        !is_digit_char(s[i]),
        !is_dot_char(s[i]),
    ensures
        !valid_decimal(s),
{
    assert forall|j: int| 0 <= j < i implies !is_dot_char(#[trigger] s[j]) by {
        assert(is_digit_char(s.subrange(0, i)[j]));
    }
    lemma_dot_position_from_scan(s, i);
    lemma_dot_position(s);
    if valid_decimal(s) {
        let p = dot_position(s);
        if p == i {
            assert(is_dot_char(s[i]));
        } else {
            assert(p > i);
            assert(s.subrange(0, p)[i] == s[i]);
            assert(is_digit_char(s[i]));
        }
    }
}

/// A numeral is invalid if a non-digit stands after the first dot.
proof fn lemma_invalid_nondigit_frac(s: Seq<char>, i: int)
    requires
        dot_position(s) < i < s.len(),
        !is_digit_char(s[i]),
    ensures
        !valid_decimal(s),
{
    if valid_decimal(s) {
        let p = dot_position(s);
        assert(s.subrange(p + 1, s.len() as int)[i - p - 1] == s[i]);
    }
}

/// A numeral is invalid if more than eight characters follow the first dot.
proof fn lemma_invalid_frac_too_long(s: Seq<char>, i: int)
    requires
        dot_position(s) + 9 <= i < s.len(),
    ensures
        !valid_decimal(s),
{
}

/// Once the digits scanned in the integer part exceed the fixed-point range,
/// no suffix can bring the value back into range.
proof fn lemma_overflow_int_part(s: Seq<char>, i: int)
    requires
        0 <= i < s.len(),
        all_digits(s.subrange(0, i + 1)),
        digits_value(s.subrange(0, i + 1)) > i64::MAX,
    ensures
        spec_parse_fixed(s) is None,
{
    assert forall|j: int| 0 <= j < i + 1 implies !is_dot_char(#[trigger] s[j]) by {
        assert(is_digit_char(s.subrange(0, i + 1)[j]));
    }
    lemma_dot_position_from_scan(s, i + 1);
    lemma_dot_position(s);
    if valid_decimal(s) && decimal_value(s) <= i64::MAX {
        let p = dot_position(s);
        let ip = s.subrange(0, p);
        let frac = spec_frac_part(s);
        assert(p >= i + 1);
        assert(ip =~= s.subrange(0, i + 1) + s.subrange(i + 1, p));
        assert(all_digits(s.subrange(i + 1, p))) by {
            assert(forall|j: int|
                0 <= j < p - i - 1 ==> #[trigger] s.subrange(i + 1, p)[j] == ip[j + i + 1]);
        }
        lemma_digits_value_nonneg(s.subrange(0, i + 1));
        lemma_digits_value_extend(s.subrange(0, i + 1), s.subrange(i + 1, p));
        assert(digits_value(ip) > i64::MAX);
        lemma_decimal_value_combined(s);
        lemma_digits_value_nonneg(frac);
        lemma_digits_value_extend(ip, frac);
        lemma_pow_positive(10, (8 - frac.len()) as nat);
        assert(digits_value(ip + frac) * pow(10, (8 - frac.len()) as nat) >= digits_value(
            ip + frac,
        ) * 1) by {
            lemma_mul_inequality(1, pow(10, (8 - frac.len()) as nat), digits_value(ip + frac));
            lemma_mul_is_commutative(digits_value(ip + frac), pow(10, (8 - frac.len()) as nat));
            lemma_mul_is_commutative(digits_value(ip + frac), 1);
        }
    }
}

/// The same, for digits scanned after the dot: the digits consumed so far are
/// a lower bound on the final scaled value.
proof fn lemma_overflow_frac_part(s: Seq<char>, i: int)
    requires
        0 < dot_position(s) < i < s.len(),
        all_digits(s.subrange(dot_position(s) + 1, i + 1)),
        digits_value(s.subrange(0, dot_position(s)) + s.subrange(dot_position(s) + 1, i + 1))
            > i64::MAX,
    ensures
        spec_parse_fixed(s) is None,
{
    if valid_decimal(s) && decimal_value(s) <= i64::MAX {
        let p = dot_position(s);
        let ip = s.subrange(0, p);
        let frac = spec_frac_part(s);
        let consumed = ip + s.subrange(p + 1, i + 1);
        assert(ip + frac =~= consumed + s.subrange(i + 1, s.len() as int));
        assert(all_digits(s.subrange(i + 1, s.len() as int))) by {
            assert(forall|j: int|
                0 <= j < s.len() - i - 1 ==> #[trigger] s.subrange(i + 1, s.len() as int)[j]
                    == frac[j + i - p]);
        }
        assert(all_digits(consumed)) by {
            assert(forall|j: int| 0 <= j < p ==> #[trigger] consumed[j] == ip[j]);
            assert(forall|j: int|
                p <= j < consumed.len() ==> #[trigger] consumed[j] == s.subrange(p + 1, i + 1)[j
                    - p]);
        }
        lemma_digits_value_nonneg(consumed);
        lemma_digits_value_extend(consumed, s.subrange(i + 1, s.len() as int));
        lemma_decimal_value_combined(s);
        lemma_pow_positive(10, (8 - frac.len()) as nat);
        assert(digits_value(ip + frac) * pow(10, (8 - frac.len()) as nat) >= digits_value(
            ip + frac,
        ) * 1) by {
            lemma_mul_inequality(1, pow(10, (8 - frac.len()) as nat), digits_value(ip + frac));
            lemma_mul_is_commutative(digits_value(ip + frac), pow(10, (8 - frac.len()) as nat));
            lemma_mul_is_commutative(digits_value(ip + frac), 1);
        }
    }
}

/// The ASCII character for a decimal digit value.
pub open spec fn digit_char(d: int) -> char {
    (d + 48) as char
}

/// Decimal digits of `n`, most significant first, without leading zeros
/// (`0` is printed as the single digit `0`).
pub open spec fn spec_digits_of(n: nat) -> Seq<char>
    decreases n,
{
    if n < 10 {
        seq![digit_char(n as int)]
    } else {
        spec_digits_of(n / 10).push(digit_char((n % 10) as int))
    }
}

/// The lowest `width` decimal digits of `n`, zero-padded on the left.
pub open spec fn spec_padded_digits(n: nat, width: nat) -> Seq<char>
    decreases width,
{
    if width == 0 {
        Seq::<char>::empty()
    } else {
        spec_padded_digits(n / 10, (width - 1) as nat).push(digit_char((n % 10) as int))
    }
}

/// How a raw scaled value is displayed: optional minus sign, the integer
/// digits, a dot, and exactly eight fractional digits.
pub open spec fn spec_fixed_format(v: int) -> Seq<char> {
    let m = if v < 0 {
        -v
    } else {
        v
    };
    let sign: Seq<char> = if v < 0 {
        seq!['-']
    } else {
        Seq::<char>::empty()
    };
    sign + spec_digits_of((m / 100_000_000) as nat) + seq!['.'] + spec_padded_digits(
        (m % 100_000_000) as nat,
        8,
    )
}

/// At the end of a successful scan the numeral is valid, its value is the
/// scanned digits shifted to eight decimal places, and comparing the scanned
/// value against `i64::MAX / 10^(8-fl)` decides whether the value fits.
proof fn lemma_final_scan(s: Seq<char>, acc: int, fl: int)
    requires
        1 <= dot_position(s),
        fl == spec_frac_part(s).len(),
        0 <= fl <= 8,
        dot_position(s) < s.len() ==> 1 <= fl,
        all_digits(s.subrange(0, dot_position(s))),
        all_digits(spec_frac_part(s)),
        acc == digits_value(s.subrange(0, dot_position(s)) + spec_frac_part(s)),
        acc >= 0,
    ensures
        valid_decimal(s),
        decimal_value(s) == acc * pow(10, (8 - fl) as nat),
        acc > i64::MAX as int / pow(10, (8 - fl) as nat) ==> decimal_value(s) > i64::MAX,
        acc <= i64::MAX as int / pow(10, (8 - fl) as nat) ==> 0 <= decimal_value(s) <= i64::MAX,
{
    lemma_dot_position(s);
    lemma_decimal_value_combined(s);
    let m = pow(10, (8 - fl) as nat);
    lemma_pow_positive(10, (8 - fl) as nat);
    lemma_fundamental_div_mod(i64::MAX as int, m);
    lemma_mod_bound(i64::MAX as int, m);
    if acc > i64::MAX as int / m {
        lemma_mul_inequality(i64::MAX as int / m + 1, acc, m);
        assert((i64::MAX as int / m + 1) * m == (i64::MAX as int / m) * m + m) by (nonlinear_arith);
    } else {
        lemma_mul_inequality(acc, i64::MAX as int / m, m);
        lemma_mul_nonnegative(acc, m);
    }
}

/// Ten raised to a small exponent, as an `i64`.
fn pow10_i64(e: usize) -> (r: i64)
    requires
        e <= 8,
    ensures
        r == pow(10, e as nat),
        1 <= r <= 100_000_000,
{
    proof {
        reveal_with_fuel(pow, 9);
    }
    let mut r: i64 = 1;
    let mut k: usize = 0;
    while k < e
        invariant
            0 <= k <= e <= 8,
            r == pow(10, k as nat),
            1 <= r <= 100_000_000,
        decreases e - k,
    {
        proof {
            assert(pow(10, (k + 1) as nat) == 10 * pow(10, k as nat)) by {
                reveal_with_fuel(pow, 2);
            }
            lemma_pow_increases(10, (k + 1) as nat, 8);
            assert(pow(10, 8) == 100_000_000) by {
                reveal_with_fuel(pow, 9);
            }
        }
        r = r * 10;
        k = k + 1;
    }
    r
}

impl FixedPoint {
    /// Parse a decimal string such as `"123.456"` into an exact fixed-point
    /// value: one or more digits, optionally followed by a dot and one to
    /// eight fractional digits. Anything else, and any value whose scaled
    /// magnitude exceeds the `i64` range, is rejected.
    pub fn from_str(s: &str) -> (r: Result<FixedPoint, ParseError>)
        ensures
            r matches Ok(fp) ==> spec_parse_fixed(s@) == Some(fp.0 as int),
            r is Err ==> spec_parse_fixed(s@) is None && r == Err::<FixedPoint,
            ParseError>(ParseError::InvalidFormat),
    {
        let ghost full = s@;
        let mut it = s.chars();
        let mut acc: i64 = 0;
        let mut any_int_digit: bool = false;
        let mut frac_count: usize = 0;
        let mut seen_dot: bool = false;
        let ghost mut i: int = 0int;
        let ghost mut dp: int = 0int;
        loop
            invariant
                full == s@,
                it.remaining() =~= full.skip(i),
                0 <= i <= full.len(),
                0 <= acc <= i64::MAX,
                !seen_dot ==> {
                    &&& (any_int_digit <==> i > 0)
                    &&& frac_count == 0
                    &&& all_digits(full.subrange(0, i))
                    &&& acc == digits_value(full.subrange(0, i))
                },
                seen_dot ==> {
                    &&& 1 <= dp
                    &&& dp + 1 <= i <= full.len()
                    &&& dot_position(full) == dp
                    &&& all_digits(full.subrange(0, dp))
                    &&& frac_count == i - dp - 1
                    &&& frac_count <= 8
                    &&& all_digits(full.subrange(dp + 1, i))
                    &&& acc == digits_value(full.subrange(0, dp) + full.subrange(dp + 1, i))
                },
            ensures
                i == full.len(),
            decreases full.len() - i,
        {
            let next = it.next();
            match next {
                None => {
                    proof {
                        assert(full.skip(i).len() == 0);
                    }
                    break ;
                },
                Some(c) => {
                    proof {
                        assert(full.skip(i)[0] == full[i]);
                        assert(c == full[i]);
                        assert(full.skip(i).drop_first() =~= full.skip(i + 1));
                    }
                    let u = c as u32;
                    if 48 <= u && u <= 57 {
                        let d = (u - 48) as i64;
                        if seen_dot && frac_count == 8 {
                            proof {
                                lemma_invalid_frac_too_long(full, i);
                            }
                            return Err(ParseError::InvalidFormat);
                        }
                        proof {
                            let consumed = if seen_dot {
                                full.subrange(0, dp) + full.subrange(dp + 1, i)
                            } else {
                                full.subrange(0, i)
                            };
                            lemma_digits_value_push(consumed, c);
                            if seen_dot {
                                assert(full.subrange(dp + 1, i + 1) =~= full.subrange(
                                    dp + 1,
                                    i,
                                ).push(c));
                                assert(consumed.push(c) =~= full.subrange(0, dp) + full.subrange(
                                    dp + 1,
                                    i + 1,
                                ));
                            } else {
                                assert(full.subrange(0, i + 1) =~= full.subrange(0, i).push(c));
                            }
                        }
                        if acc > (i64::MAX - d) / 10 {
                            proof {
                                assert(acc * 10 + d > i64::MAX) by {
                                    lemma_fundamental_div_mod((i64::MAX - d) as int, 10);
                                    lemma_mul_inequality(
                                        (i64::MAX - d) as int / 10 + 1,
                                        acc as int,
                                        10,
                                    );
                                }
                                if seen_dot {
                                    lemma_overflow_frac_part(full, i);
                                } else {
                                    lemma_overflow_int_part(full, i);
                                }
                            }
                            return Err(ParseError::InvalidFormat);
                        }
                        proof {
                            assert(acc * 10 + d <= i64::MAX) by {
                                lemma_fundamental_div_mod((i64::MAX - d) as int, 10);
                                lemma_mul_inequality(acc as int, (i64::MAX - d) as int / 10, 10);
                            }
                        }
                        acc = acc * 10 + d;
                        if seen_dot {
                            frac_count = frac_count + 1;
                        } else {
                            any_int_digit = true;
                        }
                        proof {
                            i = i + 1;
                        }
                    } else if u == 46 {
                        if seen_dot {
                            proof {
                                lemma_invalid_nondigit_frac(full, i);
                            }
                            return Err(ParseError::InvalidFormat);
                        }
                        if !any_int_digit {
                            proof {
                                lemma_dot_position_from_scan(full, 0);
                            }
                            return Err(ParseError::InvalidFormat);
                        }
                        proof {
                            assert forall|j: int| 0 <= j < i implies !is_dot_char(
                                #[trigger] full[j],
                            ) by {
                                assert(is_digit_char(full.subrange(0, i)[j]));
                            }
                            lemma_dot_position_from_scan(full, i);
                            dp = i;
                            assert(full.subrange(dp + 1, i + 1) =~= Seq::<char>::empty());
                            assert(full.subrange(0, dp) + full.subrange(dp + 1, i + 1)
                                =~= full.subrange(0, i));
                        }
                        seen_dot = true;
                        proof {
                            i = i + 1;
                        }
                    } else {
                        proof {
                            if seen_dot {
                                lemma_invalid_nondigit_frac(full, i);
                            } else {
                                lemma_invalid_char_int_part(full, i);
                            }
                        }
                        return Err(ParseError::InvalidFormat);
                    }
                },
            }
        }
        proof {
            lemma_dot_position(full);
        }
        if !seen_dot {
            if !any_int_digit {
                return Err(ParseError::InvalidFormat);
            }
            proof {
                assert forall|j: int| 0 <= j < full.len() implies !is_dot_char(
                    #[trigger] full[j],
                ) by {
                    assert(is_digit_char(full.subrange(0, i)[j]));
                }
                lemma_dot_position_from_scan(full, full.len() as int);
                assert(full.subrange(0, full.len() as int) + spec_frac_part(full)
                    =~= full.subrange(0, i));
                lemma_final_scan(full, acc as int, 0);
                assert(pow(10, 8) == 100_000_000) by {
                    reveal_with_fuel(pow, 9);
                }
            }
            if acc > i64::MAX / FIXED_POINT_SCALE {
                return Err(ParseError::InvalidFormat);
            }
            Ok(FixedPoint(acc * FIXED_POINT_SCALE))
        } else {
            if frac_count == 0 {
                return Err(ParseError::InvalidFormat);
            }
            proof {
                assert(spec_frac_part(full) =~= full.subrange(dp + 1, i));
                lemma_final_scan(full, acc as int, frac_count as int);
            }
            let m = pow10_i64(8 - frac_count);
            if acc > i64::MAX / m {
                return Err(ParseError::InvalidFormat);
            }
            Ok(FixedPoint(acc * m))
        }
    }
}

/// A one-character string for a decimal digit value.
fn digit_str(d: u64) -> (r: &'static str)
    requires
        d < 10,
    ensures
        r@ =~= seq![digit_char(d as int)],
{
    proof {
        reveal_strlit("0");
        reveal_strlit("1");
        reveal_strlit("2");
        reveal_strlit("3");
        reveal_strlit("4");
        reveal_strlit("5");
        reveal_strlit("6");
        reveal_strlit("7");
        reveal_strlit("8");
        reveal_strlit("9");
    }
    if d == 0 {
        "0"
    } else if d == 1 {
        "1"
    } else if d == 2 {
        "2"
    } else if d == 3 {
        "3"
    } else if d == 4 {
        "4"
    } else if d == 5 {
        "5"
    } else if d == 6 {
        "6"
    } else if d == 7 {
        "7"
    } else if d == 8 {
        "8"
    } else {
        "9"
    }
}

/// Append the decimal digits of `n`, most significant first.
fn push_digits(n: u64, out: &mut String)
    ensures
        final(out)@ == old(out)@ + spec_digits_of(n as nat),
    decreases n,
{
    if n < 10 {
        out.append(digit_str(n));
    } else {
        push_digits(n / 10, out);
        out.append(digit_str(n % 10));
        proof {
            assert(out@ =~= old(out)@ + spec_digits_of(n as nat));
        }
    }
}

/// Append the lowest `width` decimal digits of `n`, zero-padded.
fn push_padded(n: u64, width: usize, out: &mut String)
    ensures
        final(out)@ == old(out)@ + spec_padded_digits(n as nat, width as nat),
    decreases width,
{
    if width == 0 {
        proof {
            assert(out@ =~= old(out)@ + spec_padded_digits(n as nat, 0));
        }
    } else {
        push_padded(n / 10, width - 1, out);
        out.append(digit_str(n % 10));
        proof {
            assert(out@ =~= old(out)@ + spec_padded_digits(n as nat, width as nat));
        }
    }
}

impl FixedPoint {
    /// Format the value with exactly eight decimal places, such as
    /// `"123.45600000"`.
    pub fn to_string(&self) -> (r: String)
        ensures
            r@ == spec_fixed_format(self.0 as int),
    {
        let mut out = String::new();
        let wide: i128 = self.0 as i128;
        let m: u64 = if wide < 0 {
            (-wide) as u64
        } else {
            wide as u64
        };
        if self.0 < 0 {
            proof {
                reveal_strlit("-");
            }
            out.append("-");
        }
        push_digits(m / 100_000_000, &mut out);
        proof {
            reveal_strlit(".");
        }
        out.append(".");
        push_padded(m % 100_000_000, 8, &mut out);
        proof {
            let v = self.0 as int;
            let mag = if v < 0 { -v } else { v };
            assert(m == mag);
            assert(out@ =~= spec_fixed_format(v));
        }
        out
    }
}

/// The digits of a number are digits, and there is at least one.
proof fn lemma_digits_of_all_digits(n: nat)
    ensures
        all_digits(spec_digits_of(n)),
        spec_digits_of(n).len() >= 1,
    decreases n,
{
    if n < 10 {
        assert(spec_digits_of(n) == seq![digit_char(n as int)]);
        assert(is_digit_char(digit_char(n as int)));
    } else {
        lemma_digits_of_all_digits(n / 10);
        let prefix = spec_digits_of(n / 10);
        let whole = prefix.push(digit_char((n % 10) as int));
        assert(0 <= n % 10 < 10);
        assert forall|i: int| 0 <= i < whole.len() implies is_digit_char(#[trigger] whole[i]) by {
            if i < prefix.len() {
                assert(whole[i] == prefix[i]);
            }
        }
    }
}

/// A zero-padded digit block consists of digits and has exactly the asked
/// width.
proof fn lemma_padded_all_digits(n: nat, width: nat)
    ensures
        all_digits(spec_padded_digits(n, width)),
        spec_padded_digits(n, width).len() == width,
    decreases width,
{
    if width > 0 {
        lemma_padded_all_digits(n / 10, (width - 1) as nat);
        let prefix = spec_padded_digits(n / 10, (width - 1) as nat);
        let whole = prefix.push(digit_char((n % 10) as int));
        assert(0 <= n % 10 < 10);
        assert forall|i: int| 0 <= i < whole.len() implies is_digit_char(#[trigger] whole[i]) by {
            if i < prefix.len() {
                assert(whole[i] == prefix[i]);
            }
        }
    }
}

/// Printing a number and reading the digits back is the identity.
proof fn lemma_digits_of_value(n: nat)
    ensures
        digits_value(spec_digits_of(n)) == n,
    decreases n,
{
    if n < 10 {
        assert(seq![digit_char(n as int)].drop_last() =~= Seq::<char>::empty());
        assert(digits_value(Seq::<char>::empty()) == 0);
        assert(seq![digit_char(n as int)].last() == digit_char(n as int));
        assert(digit_value(digit_char(n as int)) == n);
        assert(digits_value(seq![digit_char(n as int)]) == n);
    } else {
        lemma_digits_of_value(n / 10);
        lemma_digits_value_push(spec_digits_of(n / 10), digit_char((n % 10) as int));
        lemma_fundamental_div_mod(n as int, 10);
    }
}

/// A zero-padded digit block of width `w` denotes the number modulo `10^w`.
proof fn lemma_padded_value(n: nat, width: nat)
    ensures
        digits_value(spec_padded_digits(n, width)) == n % (pow(10, width) as nat),
    decreases width,
{
    if width == 0 {
        lemma_pow0(10);
        assert(n as int % 1 == 0) by (nonlinear_arith);
    } else {
        lemma_padded_value(n / 10, (width - 1) as nat);
        lemma_digits_value_push(
            spec_padded_digits(n / 10, (width - 1) as nat),
            digit_char((n % 10) as int),
        );
        lemma_pow_positive(10, (width - 1) as nat);
        assert(pow(10, width) == 10 * pow(10, (width - 1) as nat)) by {
            reveal_with_fuel(pow, 2);
        }
        lemma_mod_breakdown(n as int, 10, pow(10, (width - 1) as nat));
    }
}

/// Round trip: formatting any representable non-negative value and parsing
/// the text back yields exactly the value that was formatted. (A negative
/// value formats with a leading minus sign, which the parser — made for
/// exchange price and volume fields — does not accept.)
pub proof fn lemma_format_parses_back(v: int)
    requires
        0 <= v <= i64::MAX,
    ensures
        spec_parse_fixed(spec_fixed_format(v)) == Some(v),
{
    let scale = 100_000_000int;
    let ip = (v / scale) as nat;
    let fp = (v % scale) as nat;
    lemma_fundamental_div_mod(v, scale);
    lemma_mod_bound(v, scale);
    lemma_div_pos_is_pos(v, scale);
    let ip_digits = spec_digits_of(ip);
    let frac = spec_padded_digits(fp, 8);
    let s = spec_fixed_format(v);
    lemma_digits_of_all_digits(ip);
    lemma_padded_all_digits(fp, 8);
    assert(s =~= ip_digits + seq!['.'] + frac);
    let p = ip_digits.len() as int;
    assert forall|j: int| 0 <= j < p implies !is_dot_char(#[trigger] s[j]) by {
        assert(s[j] == ip_digits[j]);
        assert(is_digit_char(s[j]));
    }
    assert(is_dot_char(s[p])) by {
        assert(s[p] == '.');
    }
    lemma_dot_position_from_scan(s, p);
    assert(dot_position(s) == p);
    assert(s.subrange(0, p) =~= ip_digits);
    assert(s.subrange(p + 1, s.len() as int) =~= frac);
    assert(valid_decimal(s));
    lemma_digits_of_value(ip);
    lemma_padded_value(fp, 8);
    assert(pow(10, 8) == 100_000_000 && pow(10, 0) == 1) by {
        reveal_with_fuel(pow, 9);
    }
    assert(fp < pow(10, 8));
    lemma_small_mod(fp, pow(10, 8) as nat);
    assert(digits_value(s.subrange(0, p)) == ip);
    assert(digits_value(frac) == fp);
    assert(decimal_value(s) == ip * pow(10, 8) + fp * 1);
    assert(ip * scale == scale * ip) by {
        lemma_mul_is_commutative(ip as int, scale);
    }
    assert(decimal_value(s) == v);
}

} // verus!
