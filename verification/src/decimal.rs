//! Decimal numbers: an integer and the number of its digits behind the point.
use rust_decimal::Decimal;
use std::str::FromStr;
use vstd::prelude::*;
use vstd::string::*;

use crate::error::{arithmetic_overflow, bad, bad_request, overflowed, ErrorView, HandlerResult};
use crate::text::{digit_char, nat_text, push_nat, trimmed};

verus! {

/// One more than the largest magnitude of a decimal number's integer: two to the power 96.
pub const MANTISSA_END: i128 = 79228162514264337593543950336;

/// The largest number of digits behind the point.
pub const MAX_SCALE: u32 = 28;

/// The decimal number `mantissa / 10^scale`.
#[derive(Clone, Copy, Debug, PartialEq, Eq, Structural)]
pub struct Dec {
    pub mantissa: i128,
    pub scale: u32,
}

/// Ten to the power `n`.
pub open spec fn pow10(n: int) -> int
    decreases n,
{
    if n <= 0 {
        1
    } else {
        10 * pow10(n - 1)
    }
}

/// The magnitude of an integer.
pub open spec fn magnitude(n: int) -> int {
    if n < 0 {
        -n
    } else {
        n
    }
}

/// `n / unit` rounded to the nearest integer, midpoints to the even neighbour.
pub open spec fn half_even(n: int, unit: int) -> int {
    let whole = magnitude(n) / unit;
    let rest = magnitude(n) % unit;
    let rounded = if 2 * rest > unit || (2 * rest == unit && whole % 2 == 1) {
        whole + 1
    } else {
        whole
    };
    if n < 0 {
        -rounded
    } else {
        rounded
    }
}

/// The integer of a decimal number rounded to at most `places` digits behind the point, over
/// the scale that it then has.
pub open spec fn rounded_to(mantissa: int, scale: int, places: int) -> (int, int) {
    if scale <= places {
        (mantissa, scale)
    } else {
        (half_even(mantissa, pow10(scale - places)), places)
    }
}

/// A decimal number in hundredths, rounded to the nearest with midpoints to the even neighbour.
pub open spec fn hundredths(mantissa: int, scale: int) -> int {
    if scale <= 2 {
        mantissa * pow10(2 - scale)
    } else {
        half_even(mantissa, pow10(scale - 2))
    }
}

/// A decimal number rounded to the nearest integer, midpoints to the even neighbour.
pub open spec fn nearest(mantissa: int, scale: int) -> int {
    half_even(mantissa, pow10(scale))
}

/// `n` lies in the range of an `i64`.
pub open spec fn fits_i64(n: int) -> bool {
    i64::MIN <= n <= i64::MAX
}

/// `n` as the integer of a decimal number.
pub open spec fn fits_mantissa(n: int) -> bool {
    -MANTISSA_END < n < MANTISSA_END
}

impl Dec {
    /// The number is one that decimal arithmetic can hold.
    pub open spec fn wf(self) -> bool {
        &&& fits_mantissa(self.mantissa as int)
        &&& self.scale <= MAX_SCALE
    }

    /// The number as a pair of integers.
    pub open spec fn pair(self) -> (int, int) {
        (self.mantissa as int, self.scale as int)
    }
}

/// The decimal number that a text denotes, as an integer and a scale, or the message that says
/// why it denotes none.
pub uninterp spec fn decimal_of_text(s: Seq<char>) -> Result<(int, int), Seq<char>>;

/// The product of two decimal numbers, where decimal arithmetic can hold it.
pub uninterp spec fn decimal_product(a: (int, int), b: (int, int)) -> Option<(int, int)>;

/// The quotient of two decimal numbers, where there is one that decimal arithmetic can hold.
pub uninterp spec fn decimal_quotient(a: (int, int), b: (int, int)) -> Option<(int, int)>;

/// The sum of two decimal numbers, where decimal arithmetic can hold it.
pub uninterp spec fn decimal_sum(a: (int, int), b: (int, int)) -> Option<(int, int)>;

/// The difference of two decimal numbers, where decimal arithmetic can hold it.
pub uninterp spec fn decimal_difference(a: (int, int), b: (int, int)) -> Option<(int, int)>;

/// An optional number of decimal arithmetic is the named optional pair, and can be held.
pub open spec fn is_pair(d: Option<Dec>, pair: Option<(int, int)>) -> bool {
    match d {
        Some(d) => d.wf() && pair == Some(d.pair()),
        None => pair is None,
    }
}

/// A decimal number is near to `n / unit`: it differs from it by less than one unit of its last
/// digit, and by nothing or by less than the 10^27th part of itself.
pub open spec fn is_near(d: (int, int), n: int, unit: int) -> bool {
    let error = magnitude(d.0 * unit - n * pow10(d.1));
    &&& error < unit
    &&& error == 0 || error * pow10(27) < magnitude(d.0) * unit
}

/// A decimal number is near to `n / unit`, or differs from it by less than one digit behind the
/// last place that a decimal number can have.
pub open spec fn is_near_or_tiny(d: (int, int), n: int, unit: int) -> bool {
    let error = magnitude(d.0 * unit - n * pow10(d.1));
    &&& error < unit
    &&& is_near(d, n, unit) || error * pow10(28) < unit * pow10(d.1)
}

/// Two decimal numbers subtracted, over the larger of their scales.
pub open spec fn aligned_difference(a: (int, int), b: (int, int)) -> (int, int) {
    if a.1 >= b.1 {
        (a.0 - b.0 * pow10(a.1 - b.1), a.1)
    } else {
        (a.0 * pow10(b.1 - a.1) - b.0, b.1)
    }
}

/// `Decimal::from_str`: the number that a text denotes, with the digits behind the point that
/// it is written with, as far as a decimal number holds them; else the error's message.
#[verifier::external_body]
pub(crate) fn parse_decimal(text: &str) -> (r: Result<Dec, String>)
    ensures
        match r {
            Ok(d) => d.wf() && decimal_of_text(text@) == Ok::<(int, int), Seq<char>>(d.pair()),
            Err(message) => decimal_of_text(text@) == Err::<(int, int), Seq<char>>(message@),
        },
{
    match Decimal::from_str(text) {
        Ok(d) => Ok(Dec { mantissa: d.mantissa(), scale: d.scale() }),
        Err(error) => Err(error.to_string()),
    }
}

/// `Decimal::checked_mul`: the product, rounded to the digits that a decimal number holds; none
/// where its integer part is too large for one. A product of zero is the integer zero, and any
/// other is exact where its digits can all be held. Numbers that are not negative have a product
/// that is not. What is rounded away is less than one unit of the last digit kept, of which there
/// are at least 27 unless the scale ends at its largest.
#[verifier::external_body]
pub(crate) fn multiply(a: Dec, b: Dec) -> (r: Option<Dec>)
    requires
        a.wf(),
        b.wf(),
    ensures
        is_pair(r, decimal_product(a.pair(), b.pair())),
        a.mantissa * b.mantissa == 0 ==> r == Some(Dec { mantissa: 0, scale: 0 }),
        a.mantissa * b.mantissa != 0 && fits_mantissa(a.mantissa * b.mantissa) && a.scale + b.scale
            <= MAX_SCALE ==> r is Some && r->0.pair() == (
            a.mantissa * b.mantissa,
            a.scale + b.scale,
        ),
        a.mantissa >= 0 && b.mantissa >= 0 && r is Some ==> r->0.mantissa >= 0,
        r matches Some(d) ==> is_near_or_tiny(
            d.pair(),
            a.mantissa * b.mantissa,
            pow10(a.scale + b.scale),
        ),
        r matches Some(d) ==> a.scale + b.scale <= MAX_SCALE ==> is_near(
            d.pair(),
            a.mantissa * b.mantissa,
            pow10(a.scale + b.scale),
        ),
{
    Decimal::from_i128_with_scale(a.mantissa, a.scale)
        .checked_mul(Decimal::from_i128_with_scale(b.mantissa, b.scale))
        .map(|d| Dec { mantissa: d.mantissa(), scale: d.scale() })
}

/// `Decimal::checked_div`: the quotient, rounded to the digits that a decimal number holds; none
/// where the divisor is zero or the quotient's integer part is too large. Zero divided by another
/// number is the integer zero. Numbers that are not negative have a quotient that is not. What is
/// rounded away is less than one unit of the last digit kept, of which there are at least 27 unless
/// the scale ends at its largest.
#[verifier::external_body]
pub(crate) fn divide(a: Dec, b: Dec) -> (r: Option<Dec>)
    requires
        a.wf(),
        b.wf(),
    ensures
        is_pair(r, decimal_quotient(a.pair(), b.pair())),
        b.mantissa == 0 ==> r is None,
        b.mantissa != 0 && a.mantissa == 0 ==> r == Some(Dec { mantissa: 0, scale: 0 }),
        a.mantissa >= 0 && b.mantissa >= 0 && r is Some ==> r->0.mantissa >= 0,
        r matches Some(d) ==> b.mantissa > 0 ==> is_near_or_tiny(
            d.pair(),
            a.mantissa * pow10(b.scale as int),
            b.mantissa * pow10(a.scale as int),
        ),
{
    Decimal::from_i128_with_scale(a.mantissa, a.scale)
        .checked_div(Decimal::from_i128_with_scale(b.mantissa, b.scale))
        .map(|d| Dec { mantissa: d.mantissa(), scale: d.scale() })
}

/// `Decimal::checked_add`: the sum, rounded to the digits that a decimal number holds; none
/// where its integer part is too large for one. Adding to zero changes nothing. Numbers that are
/// not negative have a sum that is not. What is rounded away is less than one unit of the last digit
/// kept, of which there are then at least 27.
#[verifier::external_body]
pub(crate) fn plus(a: Dec, b: Dec) -> (r: Option<Dec>)
    requires
        a.wf(),
        b.wf(),
    ensures
        is_pair(r, decimal_sum(a.pair(), b.pair())),
        a.mantissa == 0 ==> r == Some(b),
        a.mantissa >= 0 && b.mantissa >= 0 && r is Some ==> r->0.mantissa >= 0,
        r matches Some(d) ==> is_near(
            d.pair(),
            a.mantissa * pow10(b.scale as int) + b.mantissa * pow10(a.scale as int),
            pow10(a.scale + b.scale),
        ),
{
    Decimal::from_i128_with_scale(a.mantissa, a.scale)
        .checked_add(Decimal::from_i128_with_scale(b.mantissa, b.scale))
        .map(|d| Dec { mantissa: d.mantissa(), scale: d.scale() })
}

/// `Decimal::checked_sub`: the difference, rounded to the digits that a decimal number holds;
/// none where its integer part is too large for one. Taking zero away changes nothing. The
/// difference of two numbers that are not zero is exact where its digits can all be held; else what
/// is rounded away is less than one unit of the last digit kept, of which there are at least 27.
#[verifier::external_body]
pub(crate) fn minus(a: Dec, b: Dec) -> (r: Option<Dec>)
    requires
        a.wf(),
        b.wf(),
    ensures
        is_pair(r, decimal_difference(a.pair(), b.pair())),
        a.mantissa != 0 && b.mantissa == 0 ==> r == Some(a),
        a.mantissa != 0 && b.mantissa != 0 && fits_mantissa(
            aligned_difference(a.pair(), b.pair()).0,
        ) ==> r is Some && r->0.pair() == aligned_difference(a.pair(), b.pair()),
        r matches Some(d) ==> is_near(
            d.pair(),
            a.mantissa * pow10(b.scale as int) - b.mantissa * pow10(a.scale as int),
            pow10(a.scale + b.scale),
        ),
{
    Decimal::from_i128_with_scale(a.mantissa, a.scale)
        .checked_sub(Decimal::from_i128_with_scale(b.mantissa, b.scale))
        .map(|d| Dec { mantissa: d.mantissa(), scale: d.scale() })
}

/// An integer as a decimal number.
pub fn whole(n: i64) -> (r: Dec)
    ensures
        r.wf(),
        r.pair() == (n as int, 0int),
{
    Dec { mantissa: n as i128, scale: 0 }
}

/// Powers of ten grow.
pub proof fn pow10_grows(a: int, b: int)
    requires
        0 <= a <= b,
    ensures
        1 <= pow10(a) <= pow10(b),
    decreases b,
{
    if a < b {
        pow10_grows(a, b - 1);
    } else if a > 0 {
        pow10_grows(a - 1, b - 1);
    }
}

/// A decimal number as a number.
pub open spec fn number(d: (int, int)) -> real {
    d.0 as real / pow10(d.1) as real
}

/// The magnitude of a number.
pub open spec fn size(x: real) -> real {
    if x < 0real {
        -x
    } else {
        x
    }
}

/// Ten to the power 27, as a number.
pub open spec fn many() -> real {
    1000000000000000000000000000real
}

/// The number of a pair that is near to a quotient.
pub proof fn near_number(d: (int, int), n: int, unit: int)
    requires
        unit > 0,
        is_near_or_tiny(d, n, unit),
    ensures
        size(number(d) - n as real / unit as real) * many() <= 1real + size(number(d)),
        is_near(d, n, unit) ==> size(number(d) - n as real / unit as real) * many() <= size(
            number(d),
        ),
{
    pow10_positive(d.1);
    pow10_of_28();
    assert(pow10(28) == 10 * pow10(27));
    let p = pow10(d.1) as real;
    let u = unit as real;
    let m = d.0 as real;
    let x = n as real;
    let e = m * u - x * p;
    let big = 1000000000000000000000000000real;
    let error = magnitude(d.0 * unit - n * pow10(d.1));
    product_as_real(d.0, unit);
    product_as_real(n, pow10(d.1));
    product_as_real(error, pow10(27));
    product_as_real(error, pow10(28));
    product_as_real(magnitude(d.0), unit);
    product_as_real(unit, pow10(d.1));
    assert(error as real == size(e));
    let v = number(d);
    let diff = v - x / u;
    assert(diff * (p * u) == e) by (nonlinear_arith)
        requires
            p > 0real,
            u > 0real,
            v == m / p,
            diff == v - x / u,
            e == m * u - x * p,
    ;
    assert(v * p == m) by (nonlinear_arith)
        requires
            p > 0real,
            v == m / p,
    ;
    assert(size(diff) * (p * u) == size(e)) by (nonlinear_arith)
        requires
            p > 0real,
            u > 0real,
            diff * (p * u) == e,
            size(diff) == (if diff < 0real {
                -diff
            } else {
                diff
            }),
            size(e) == (if e < 0real {
                -e
            } else {
                e
            }),
    ;
    assert(size(v) * p == size(m)) by (nonlinear_arith)
        requires
            p > 0real,
            v * p == m,
            size(v) == (if v < 0real {
                -v
            } else {
                v
            }),
            size(m) == (if m < 0real {
                -m
            } else {
                m
            }),
    ;
    let (sd, sv) = (size(diff), size(v));
    if is_near(d, n, unit) {
        assert(size(e) * big <= size(m) * u) by (nonlinear_arith)
            requires
                error == 0 || error as real * big < size(m) * u,
                error as real == size(e),
                size(m) >= 0real,
                u > 0real,
        ;
        assert(sd * big <= sv) by (nonlinear_arith)
            requires
                sd * (p * u) * big <= sv * p * u,
                p > 0real,
                u > 0real,
        ;
    } else {
        assert(sd * big <= 1real) by (nonlinear_arith)
            requires
                sd * (p * u) * (10real * big) < u * p,
                p > 0real,
                u > 0real,
                sd >= 0real,
        ;
    }
}

/// The magnitude of a number times a positive one.
pub proof fn size_scaled(x: real, y: real)
    requires
        y > 0real,
    ensures
        size(x * y) == size(x) * y,
{
    if x < 0real {
        assert(x * y < 0real && -(x * y) == (-x) * y) by (nonlinear_arith)
            requires
                x < 0real,
                y > 0real,
        ;
    } else {
        assert(x * y >= 0real) by (nonlinear_arith)
            requires
                x >= 0real,
                y > 0real,
        ;
    }
}

/// Powers of ten multiply.
pub proof fn pow10_adds(a: int, b: int)
    requires
        0 <= a,
        0 <= b,
    ensures
        pow10(a + b) == pow10(a) * pow10(b),
    decreases a,
{
    if a > 0 {
        pow10_adds(a - 1, b);
        assert(10 * (pow10(a - 1) * pow10(b)) == (10 * pow10(a - 1)) * pow10(b))
            by (nonlinear_arith);
    } else {
        assert(1 * pow10(b) == pow10(b));
    }
}

/// An integer as a decimal number is itself.
pub proof fn whole_number(n: int)
    ensures
        number((n, 0)) == n as real,
{
    assert(n as real / 1real == n as real);
}

/// A product that is rounded is the product of the numbers, but for what is rounded away.
pub proof fn product_number(a: (int, int), b: (int, int), r: (int, int))
    requires
        a.1 >= 0,
        b.1 >= 0,
        is_near_or_tiny(r, a.0 * b.0, pow10(a.1 + b.1)),
    ensures
        size(number(r) - number(a) * number(b)) * many() <= 1real + size(number(r)),
        is_near(r, a.0 * b.0, pow10(a.1 + b.1)) ==> size(number(r) - number(a) * number(b))
            * many() <= size(number(r)),
{
    pow10_positive(a.1);
    pow10_positive(b.1);
    pow10_positive(a.1 + b.1);
    pow10_adds(a.1, b.1);
    product_as_real(pow10(a.1), pow10(b.1));
    product_as_real(a.0, b.0);
    near_number(r, a.0 * b.0, pow10(a.1 + b.1));
    let (x, y) = (a.0 as real, b.0 as real);
    let (p, q) = (pow10(a.1) as real, pow10(b.1) as real);
    assert((x * y) / (p * q) == (x / p) * (y / q)) by (nonlinear_arith)
        requires
            p > 0real,
            q > 0real,
    ;
}

/// A quotient that is rounded is the quotient of the numbers, but for what is rounded away.
pub proof fn quotient_number(a: (int, int), b: (int, int), r: (int, int))
    requires
        a.1 >= 0,
        b.1 >= 0,
        b.0 > 0,
        is_near_or_tiny(r, a.0 * pow10(b.1), b.0 * pow10(a.1)),
    ensures
        number(b) > 0real,
        size(number(r) - number(a) / number(b)) * many() <= 1real + size(number(r)),
{
    pow10_positive(a.1);
    pow10_positive(b.1);
    product_as_real(a.0, pow10(b.1));
    product_as_real(b.0, pow10(a.1));
    let (x, y) = (a.0 as real, b.0 as real);
    let (p, q) = (pow10(a.1) as real, pow10(b.1) as real);
    assert(b.0 * pow10(a.1) > 0) by (nonlinear_arith)
        requires
            b.0 > 0,
            pow10(a.1) > 0,
    ;
    near_number(r, a.0 * pow10(b.1), b.0 * pow10(a.1));
    assert((x * q) / (y * p) == (x / p) / (y / q) && y / q > 0real) by (nonlinear_arith)
        requires
            p > 0real,
            q > 0real,
            y > 0real,
    ;
}

/// A sum that is rounded is the sum of the numbers, but for what is rounded away.
pub proof fn sum_number(a: (int, int), b: (int, int), r: (int, int))
    requires
        a.1 >= 0,
        b.1 >= 0,
        is_near(r, a.0 * pow10(b.1) + b.0 * pow10(a.1), pow10(a.1 + b.1)),
    ensures
        size(number(r) - (number(a) + number(b))) * many() <= size(number(r)),
{
    let n = a.0 * pow10(b.1) + b.0 * pow10(a.1);
    pow10_positive(a.1);
    pow10_positive(b.1);
    pow10_positive(a.1 + b.1);
    pow10_adds(a.1, b.1);
    product_as_real(pow10(a.1), pow10(b.1));
    product_as_real(a.0, pow10(b.1));
    product_as_real(b.0, pow10(a.1));
    near_number(r, n, pow10(a.1 + b.1));
    let (x, y) = (a.0 as real, b.0 as real);
    let (p, q) = (pow10(a.1) as real, pow10(b.1) as real);
    assert((x * q + y * p) / (p * q) == x / p + y / q) by (nonlinear_arith)
        requires
            p > 0real,
            q > 0real,
    ;
    assert(n as real == x * q + y * p);
}

/// A difference that is rounded is the difference of the numbers, but for what is rounded away.
pub proof fn difference_number(a: (int, int), b: (int, int), r: (int, int))
    requires
        a.1 >= 0,
        b.1 >= 0,
        is_near(r, a.0 * pow10(b.1) - b.0 * pow10(a.1), pow10(a.1 + b.1)),
    ensures
        size(number(r) - (number(a) - number(b))) * many() <= size(number(r)),
{
    let n = a.0 * pow10(b.1) - b.0 * pow10(a.1);
    pow10_positive(a.1);
    pow10_positive(b.1);
    pow10_positive(a.1 + b.1);
    pow10_adds(a.1, b.1);
    product_as_real(pow10(a.1), pow10(b.1));
    product_as_real(a.0, pow10(b.1));
    product_as_real(b.0, pow10(a.1));
    near_number(r, n, pow10(a.1 + b.1));
    let (x, y) = (a.0 as real, b.0 as real);
    let (p, q) = (pow10(a.1) as real, pow10(b.1) as real);
    assert((x * q - y * p) / (p * q) == x / p - y / q) by (nonlinear_arith)
        requires
            p > 0real,
            q > 0real,
    ;
    assert(n as real == x * q - y * p);
}

/// Rounding to the nearest integer changes a number by at most a half, whatever its sign.
pub proof fn nearest_number(d: (int, int))
    ensures
        2real * size(nearest(d.0, d.1) as real - number(d)) <= 1real,
        d.0 >= 0 ==> nearest(d.0, d.1) >= 0,
{
    pow10_positive(d.1);
    let unit = pow10(d.1);
    let n = magnitude(d.0);
    let whole = n / unit;
    let rest = n % unit;
    assert(n == whole * unit + rest && 0 <= rest < unit && whole >= 0) by (nonlinear_arith)
        requires
            unit > 0,
            n >= 0,
            whole == n / unit,
            rest == n % unit,
    ;
    let k = magnitude(nearest(d.0, d.1));
    assert(-unit <= 2 * (k * unit - n) <= unit) by (nonlinear_arith)
        requires
            n == whole * unit + rest,
            0 <= rest < unit,
            (k == whole && 2 * rest <= unit) || (k == whole + 1 && 2 * rest >= unit),
    ;
    product_as_real(k, unit);
    let (x, y, p) = (k as real, n as real, unit as real);
    assert(2real * size(x - y / p) <= 1real) by (nonlinear_arith)
        requires
            p > 0real,
            -p <= 2real * (x * p - y) <= p,
            size(x - y / p) == (if x - y / p < 0real {
                -(x - y / p)
            } else {
                x - y / p
            }),
    ;
    if d.0 < 0 {
        assert(number(d) == -(y / p)) by (nonlinear_arith)
            requires
                number(d) == (-y) / p,
                p > 0real,
        ;
    }
}

/// Rounding to so many digits behind the point changes a number by at most half a unit of the last
/// of them.
pub proof fn rounded_number(d: (int, int), places: int)
    requires
        0 <= places,
        0 <= d.1,
    ensures
        2real * size(number(rounded_to(d.0, d.1, places)) - number(d)) * pow10(places) as real
            <= 1real,
        rounded_to(d.0, d.1, places).1 >= 0,
{
    pow10_positive(places);
    pow10_positive(d.1);
    let r = rounded_to(d.0, d.1, places);
    let t = pow10(places) as real;
    if d.1 <= places {
        assert(2real * 0real * t == 0real);
    } else {
        let k = d.1 - places;
        pow10_positive(k);
        pow10_adds(k, places);
        product_as_real(pow10(k), pow10(places));
        nearest_number((d.0, k));
        let (m, p, n) = (d.0 as real, pow10(k) as real, r.0 as real);
        let e = n - m / p;
        let f = number(r) - number(d);
        assert(f * t == e) by (nonlinear_arith)
            requires
                f == n / t - m / (p * t),
                e == n - m / p,
                p > 0real,
                t > 0real,
        ;
        size_scaled(f, t);
        assert(2real * size(f) * t == 2real * (size(f) * t)) by (nonlinear_arith);
    }
}

/// A product of integers is the same number as the product of their numbers.
pub proof fn product_as_real(a: int, b: int)
    ensures
        (a * b) as real == a as real * b as real,
{
    assert((a * b) as real == a as real * b as real) by (nonlinear_arith);
}

/// Ten to a power is positive.
pub proof fn pow10_positive(n: int)
    ensures
        pow10(n) > 0,
{
    pow10_grows(
        0,
        if n < 0 {
            0
        } else {
            n
        },
    );
}

proof fn pow10_of_28()
    ensures
        pow10(28) == 10000000000000000000000000000,
{
    reveal_with_fuel(pow10, 30);
}

/// Ten to the power `n`.
pub fn power_of_ten(n: u32) -> (r: i128)
    requires
        n <= 28,
    ensures
        r == pow10(n as int),
        1 <= r <= 10000000000000000000000000000,
{
    let mut r: i128 = 1;
    let mut i: u32 = 0;
    while i < n
        invariant
            i <= n <= 28,
            r == pow10(i as int),
            1 <= r <= 10000000000000000000000000000,
        decreases n - i,
    {
        proof {
            pow10_grows(i + 1, 28);
            pow10_of_28();
        }
        r = r * 10;
        i = i + 1;
    }
    r
}

/// `n / unit` rounded to the nearest integer, midpoints to the even neighbour.
pub fn divide_half_even(n: i128, unit: i128) -> (r: i128)
    requires
        fits_mantissa(n as int),
        1 <= unit <= 10000000000000000000000000000,
    ensures
        r == half_even(n as int, unit as int),
        magnitude(r as int) <= magnitude(n as int) + 1,
{
    let size: i128 = if n < 0 {
        -n
    } else {
        n
    };
    let whole: i128 = size / unit;
    let rest: i128 = size % unit;
    proof {
        assert(0 <= size / unit <= size) by (nonlinear_arith)
            requires
                size >= 0,
                unit >= 1,
        ;
        assert(0 <= rest < unit);
    }
    let rounded: i128 = if 2 * rest > unit || (2 * rest == unit && whole % 2 == 1) {
        whole + 1
    } else {
        whole
    };
    if n < 0 {
        -rounded
    } else {
        rounded
    }
}

/// Rounding away at least one digit never leaves the range of a decimal number's integer.
proof fn rounding_fits(n: int, places: int)
    requires
        fits_mantissa(n),
        1 <= places,
    ensures
        fits_mantissa(half_even(n, pow10(places))),
{
    pow10_grows(1, places);
    assert(pow10(1) == 10 * pow10(0));
    let unit = pow10(places);
    let size = magnitude(n);
    assert(size / unit <= size / 10) by (nonlinear_arith)
        requires
            size >= 0,
            unit >= 10,
    ;
    assert(size / unit >= 0) by (nonlinear_arith)
        requires
            size >= 0,
            unit >= 10,
    ;
}

/// Rounds to at most `places` digits behind the point.
pub fn round_dp(d: Dec, places: u32) -> (r: Dec)
    requires
        d.wf(),
    ensures
        r.wf(),
        r.pair() == rounded_to(d.mantissa as int, d.scale as int, places as int),
{
    if d.scale <= places {
        d
    } else {
        let unit: i128 = power_of_ten(d.scale - places);
        proof {
            rounding_fits(d.mantissa as int, d.scale - places);
        }
        Dec { mantissa: divide_half_even(d.mantissa, unit), scale: places }
    }
}

/// Rounds to an `i64`, where the nearest integer is one.
pub fn to_i64(d: Dec) -> (r: Option<i64>)
    requires
        d.wf(),
    ensures
        r == if fits_i64(nearest(d.mantissa as int, d.scale as int)) {
            Some(nearest(d.mantissa as int, d.scale as int) as i64)
        } else {
            None
        },
{
    let unit: i128 = power_of_ten(d.scale);
    let n: i128 = divide_half_even(d.mantissa, unit);
    if (i64::MIN as i128) <= n && n <= (i64::MAX as i128) {
        Some(n as i64)
    } else {
        None
    }
}

/// The hundredths that a text denotes as a decimal number, white space around it aside.
pub open spec fn hundredths_of_text(s: Seq<char>) -> Option<int> {
    match decimal_of_text(trimmed(s)) {
        Ok(pair) => Some(hundredths(pair.0, pair.1)),
        Err(_) => None,
    }
}

/// A decimal number in hundredths.
pub fn to_hundredths(d: Dec) -> (r: i128)
    requires
        d.wf(),
    ensures
        r == hundredths(d.mantissa as int, d.scale as int),
        -100 * MANTISSA_END < r < 100 * MANTISSA_END,
{
    if d.scale <= 2 {
        proof {
            pow10_grows(2 - d.scale, 2);
            reveal_with_fuel(pow10, 4);
        }
        let unit: i128 = power_of_ten(2 - d.scale);
        proof {
            assert(-100 * MANTISSA_END < d.mantissa * unit < 100 * MANTISSA_END)
                by (nonlinear_arith)
                requires
                    -MANTISSA_END < d.mantissa < MANTISSA_END,
                    1 <= unit <= 100,
            ;
        }
        d.mantissa * unit
    } else {
        let unit: i128 = power_of_ten(d.scale - 2);
        divide_half_even(d.mantissa, unit)
    }
}

/// Reads a text as a decimal number in hundredths.
pub fn parse_hundredths(text: &str) -> (r: Option<i128>)
    ensures
        match r {
            Some(n) => hundredths_of_text(text@) == Some(n as int),
            None => hundredths_of_text(text@) is None,
        },
        r matches Some(n) ==> says_hundredths(text@, n as int),
{
    match parse_decimal(text.trim()) {
        Ok(d) => {
            proof {
                hundredths_number(d.pair());
            }
            Some(to_hundredths(d))
        },
        Err(_) => None,
    }
}

/// A text is the number of so many hundredths, white space around it aside: the integer is the nearest
/// one to a hundred times the number.
pub open spec fn says_hundredths(s: Seq<char>, n: int) -> bool {
    match decimal_of_text(trimmed(s)) {
        Ok(d) => 2real * size(n as real - 100real * number(d)) <= 1real,
        Err(_) => false,
    }
}

/// The amount in cents that a text gives, or why it is refused: it is no number, it is below
/// the least amount allowed, or it is too large.
pub open spec fn money(
    s: Seq<char>,
    least: int,
    malformed: Seq<char>,
    too_small: Seq<char>,
    too_large: Seq<char>,
) -> Result<i64, ErrorView> {
    match hundredths_of_text(s) {
        None => Err(bad(malformed)),
        Some(cents) => if cents < least {
            Err(bad(too_small))
        } else {
            cents_kept(cents, too_large)
        },
    }
}

/// An amount is the nearest cent to what its text says: a hundred times the number, and at least the
/// least amount allowed.
pub proof fn money_is_in_cents(
    s: Seq<char>,
    least: int,
    malformed: Seq<char>,
    too_small: Seq<char>,
    too_large: Seq<char>,
)
    requires
        money(s, least, malformed, too_small, too_large) is Ok,
        decimal_of_text(trimmed(s)) matches Ok(pair) ==> pair.1 >= 0,
    ensures
        decimal_of_text(trimmed(s)) is Ok,
        2real * size(
            money(s, least, malformed, too_small, too_large)->Ok_0 as real - 100real * number(
                decimal_of_text(trimmed(s))->Ok_0,
            ),
        ) <= 1real,
        money(s, least, malformed, too_small, too_large)->Ok_0 >= least,
{
    let d = decimal_of_text(trimmed(s))->Ok_0;
    hundredths_number(d);
}

/// A decimal number in hundredths is the nearest integer to a hundred times the number.
pub proof fn hundredths_number(d: (int, int))
    requires
        d.1 >= 0,
    ensures
        2real * size(hundredths(d.0, d.1) as real - 100real * number(d)) <= 1real,
{
    pow10_positive(d.1);
    let (m, p) = (d.0 as real, pow10(d.1) as real);
    if d.1 <= 2 {
        reveal_with_fuel(pow10, 4);
        product_as_real(d.0, pow10(2 - d.1));
        let q = pow10(2 - d.1) as real;
        pow10_adds(d.1, 2 - d.1);
        product_as_real(pow10(d.1), pow10(2 - d.1));
        assert(pow10(2) == 100);
        assert(m * q == 100real * (m / p)) by (nonlinear_arith)
            requires
                p * q == 100real,
                p > 0real,
        ;
    } else {
        let k = d.1 - 2;
        pow10_positive(k);
        pow10_adds(k, 2);
        product_as_real(pow10(k), pow10(2));
        reveal_with_fuel(pow10, 4);
        assert(pow10(2) == 100);
        nearest_number((d.0, k));
        let t = pow10(k) as real;
        assert(m / t == 100real * (m / p)) by (nonlinear_arith)
            requires
                p == t * 100real,
                t > 0real,
        ;
    }
}

/// An amount in cents as an `i64`, or why it is refused.
pub open spec fn cents_kept(cents: int, too_large: Seq<char>) -> Result<i64, ErrorView> {
    if !fits_mantissa(cents) {
        Err(overflowed())
    } else if !fits_i64(cents) {
        Err(bad(too_large))
    } else {
        Ok(cents as i64)
    }
}

/// An amount in cents as an `i64`.
pub fn keep_cents(cents: i128, too_large: &str) -> (r: HandlerResult<i64>)
    ensures
        crate::error::agrees(r, cents_kept(cents as int, too_large@)),
{
    if !(-MANTISSA_END < cents && cents < MANTISSA_END) {
        Err(arithmetic_overflow())
    } else if cents < (i64::MIN as i128) || cents > (i64::MAX as i128) {
        Err(bad_request(too_large))
    } else {
        Ok(cents as i64)
    }
}

/// Reads an amount of at least `least` cents.
pub fn parse_money(
    text: &str,
    least: i64,
    malformed: &str,
    too_small: &str,
    too_large: &str,
) -> (r: HandlerResult<i64>)
    ensures
        crate::error::agrees(r, money(text@, least as int, malformed@, too_small@, too_large@)),
        r matches Ok(n) ==> n >= least && says_hundredths(text@, n as int),
{
    match parse_hundredths(text) {
        None => Err(bad_request(malformed)),
        Some(cents) => if cents < least as i128 {
            Err(bad_request(too_small))
        } else {
            keep_cents(cents, too_large)
        },
    }
}

/// A natural number in exactly `width` digits.
pub open spec fn padded(n: int, width: int) -> Seq<char>
    decreases width,
{
    if width <= 0 {
        Seq::empty()
    } else {
        padded(n / 10, width - 1).push(digit_char(n % 10))
    }
}

/// A decimal number with all of its digits behind the point.
pub open spec fn decimal_text(mantissa: int, scale: int) -> Seq<char> {
    let size = magnitude(mantissa);
    let sign = if mantissa < 0 {
        seq!['-']
    } else {
        Seq::empty()
    };
    let front = sign + nat_text(size / pow10(scale));
    if scale <= 0 {
        front
    } else {
        front + seq!['.'] + padded(size % pow10(scale), scale)
    }
}

/// An amount in cents with its two digits behind the point.
pub open spec fn cents_text(cents: int) -> Seq<char> {
    decimal_text(cents, 2)
}

/// A decimal number without trailing zeros behind the point.
pub open spec fn normal(mantissa: int, scale: int) -> (int, int)
    decreases scale,
{
    if mantissa == 0 {
        (0, 0)
    } else if scale > 0 && magnitude(mantissa) % 10 == 0 {
        normal(
            if mantissa < 0 {
                -(magnitude(mantissa) / 10)
            } else {
                mantissa / 10
            },
            scale - 1,
        )
    } else {
        (mantissa, scale)
    }
}

/// Appends a natural number in exactly `width` digits.
pub fn push_padded(s: &mut String, n: u128, width: u32)
    ensures
        final(s)@ == old(s)@ + padded(n as int, width as int),
    decreases width,
{
    if width > 0 {
        push_padded(s, n / 10, width - 1);
        let d: u8 = 48 + (n % 10) as u8;
        s.push(d as char);
    }
    proof {
        assert(s@ =~= old(s)@ + padded(n as int, width as int));
    }
}

/// Writes a decimal number with all of its digits behind the point.
pub fn decimal_to_text(d: Dec) -> (r: String)
    requires
        d.wf(),
    ensures
        r@ == decimal_text(d.mantissa as int, d.scale as int),
{
    let mut s = String::new();
    let size: i128 = if d.mantissa < 0 {
        -d.mantissa
    } else {
        d.mantissa
    };
    if d.mantissa < 0 {
        s.push('-');
    }
    let unit: i128 = power_of_ten(d.scale);
    proof {
        assert(0 <= size / unit) by (nonlinear_arith)
            requires
                size >= 0,
                unit >= 1,
        ;
    }
    push_nat(&mut s, (size / unit) as u128);
    if d.scale > 0 {
        s.push('.');
        push_padded(&mut s, (size % unit) as u128, d.scale);
    }
    proof {
        assert(s@ =~= decimal_text(d.mantissa as int, d.scale as int));
    }
    s
}

/// Strips the trailing zeros behind the point.
pub fn normalize(d: Dec) -> (r: Dec)
    requires
        d.wf(),
    ensures
        r.wf(),
        r.pair() == normal(d.mantissa as int, d.scale as int),
{
    if d.mantissa == 0 {
        return Dec { mantissa: 0, scale: 0 };
    }
    let negative = d.mantissa < 0;
    let mut size: i128 = if negative {
        -d.mantissa
    } else {
        d.mantissa
    };
    let mut scale: u32 = d.scale;
    while scale > 0 && size % 10 == 0
        invariant
            0 < size < MANTISSA_END,
            scale <= d.scale,
            normal(
                if negative {
                    -size
                } else {
                    size as int
                },
                scale as int,
            ) == normal(d.mantissa as int, d.scale as int),
        decreases scale,
    {
        size = size / 10;
        scale = scale - 1;
    }
    Dec {
        mantissa: if negative {
            -size
        } else {
            size
        },
        scale,
    }
}

/// Writes an amount in cents.
pub fn fmt_cents(cents: i64) -> (r: String)
    ensures
        r@ == cents_text(cents as int),
{
    decimal_to_text(Dec { mantissa: cents as i128, scale: 2 })
}

/// Taking trailing zeros off leaves a number as it is.
pub proof fn normal_number(d: (int, int))
    requires
        d.1 >= 0,
    ensures
        number(normal(d.0, d.1)) == number(d),
    decreases d.1,
{
    pow10_positive(d.1);
    let (m, p) = (d.0 as real, pow10(d.1) as real);
    if d.0 == 0 {
        whole_number(0);
        assert(0real / p == 0real) by (nonlinear_arith)
            requires
                p > 0real,
        ;
    } else if d.1 > 0 && magnitude(d.0) % 10 == 0 {
        let n = if d.0 < 0 {
            -(magnitude(d.0) / 10)
        } else {
            d.0 / 10
        };
        normal_number((n, d.1 - 1));
        pow10_positive(d.1 - 1);
        let (k, q) = (n as real, pow10(d.1 - 1) as real);
        assert(d.0 == 10 * n);
        assert(p == 10real * q);
        assert(k / q == (10real * k) / (10real * q)) by (nonlinear_arith)
            requires
                q > 0real,
        ;
    }
}

} // verus!
