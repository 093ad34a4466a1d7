//! Expenses paid in instalments: the schedule of payments and how far it has been paid.
use vstd::prelude::*;
use vstd::string::*;

use crate::book::{find, found, Book, Row};
use crate::calendar::{
    date_text, date_to_text, day_of_text, in_calendar, parse_day, plus_months, Date, DateTime,
};
use crate::crypto::{cents, decrypt_cents, decrypt_string, encrypt_cents, plain, Dek};
use crate::currency::amount_text;
use crate::decimal::{
    cents_text, decimal_difference, decimal_product, decimal_quotient, decimal_sum, difference_number,
    divide, fits_i64, fits_mantissa, fmt_cents, hundredths_of_text, is_near, is_near_or_tiny, many, minus,
    money, multiply, near_number, nearest, nearest_number, number, parse_hundredths, parse_money,
    plus, pow10, product_as_real, product_number, quotient_number, size,
    size_scaled, sum_number, to_i64, whole,
    whole_number, Dec,
};
use crate::entity::{installment_item, installment_plan};
use crate::error::{
    agrees, arithmetic_overflow, bad, bad_request, err500, internal, missing, not_found,
    overflowed, ErrorView, HandlerResult,
};
use crate::handlers::bills::{account_display_name, display_name};
use crate::handlers::MaskedDetail;
use crate::market_data::quotient_towards_zero;
use crate::text::{
    bounded, int_text, int_to_text, join2, join3, join4, nat_text, nat_to_text, parse_i32, same,
    signed_value, trimmed,
};
use crate::totals::{checked_total, checked_total_stops, total};

verus! {

/// Whether a payment is paid.
pub struct PaidFormData {
    pub paid: bool,
}

/// How an expense is to be paid in instalments.
pub struct NewPlan {
    pub term_months: i32,
    pub method: String,
    pub annual_rate_bps: i64,
    pub fee: i64,
    pub first_due_date: Date,
}

/// The numbers of months that can be chosen.
pub open spec fn is_term(months: int) -> bool {
    months == 3 || months == 6 || months == 9 || months == 12 || months == 24 || months == 36
        || months == 60 || months == 120 || months == 180 || months == 240 || months == 360
}

/// The ways to pay that can be chosen.
pub open spec fn is_method(method: Seq<char>) -> bool {
    method == "equal_payment"@ || method == "equal_principal"@ || method == "flat"@
}

impl NewPlan {
    /// A plan that can be chosen.
    pub open spec fn wf(self) -> bool {
        &&& is_term(self.term_months as int)
        &&& is_method(self.method@)
        &&& 0 <= self.annual_rate_bps <= 10_000
        &&& 0 <= self.fee
        &&& in_calendar(self.first_due_date.days as int)
    }
}

/// Why the texts of a form give no plan, where they give none.
pub open spec fn input_refusal(
    term: Seq<char>,
    method: Seq<char>,
    annual_rate: Seq<char>,
    fee: Seq<char>,
    first_due_date: Seq<char>,
) -> Option<ErrorView> {
    match bounded(signed_value(trimmed(term)), i32::MIN as int, i32::MAX as int) {
        None => Some(bad("分期期限无效"@)),
        Some(months) => if !is_term(months) {
            Some(bad("分期期限无效"@))
        } else if !is_method(method) {
            Some(bad("还款方式无效"@))
        } else {
            match hundredths_of_text(annual_rate) {
                None => Some(bad("年利率格式不正确"@)),
                Some(bps) => if bps < 0 || bps > 10_000 {
                    Some(bad("年利率必须在 0% 到 100% 之间"@))
                } else {
                    match money(
                        fee,
                        0,
                        "总手续费格式不正确"@,
                        "总手续费不能小于 0"@,
                        "总手续费超出范围"@,
                    ) {
                        Err(e) => Some(e),
                        Ok(_) => if day_of_text(first_due_date) is None {
                            Some(bad("首期还款日格式不正确"@))
                        } else {
                            None
                        },
                    }
                },
            }
        },
    }
}

/// Reads how an expense is to be paid in instalments.
pub fn parse_input(
    term: &str,
    method: &str,
    annual_rate: &str,
    fee: &str,
    first_due_date: &str,
) -> (r: HandlerResult<NewPlan>)
    ensures
        match r {
            Ok(plan) => {
                &&& input_refusal(term@, method@, annual_rate@, fee@, first_due_date@) is None
                &&& plan.wf()
                &&& signed_value(trimmed(term@)) == Some(plan.term_months as int)
                &&& plan.method@ == method@
                &&& hundredths_of_text(annual_rate@) == Some(plan.annual_rate_bps as int)
                &&& hundredths_of_text(fee@) == Some(plan.fee as int)
                &&& day_of_text(first_due_date@) == Some(plan.first_due_date)
            },
            Err(error) => input_refusal(term@, method@, annual_rate@, fee@, first_due_date@)
                == Some(error@),
        },
{
    let term_months: i32 = match parse_i32(term.trim()) {
        Some(n) => n,
        None => return Err(bad_request("分期期限无效")),
    };
    if !(term_months == 3 || term_months == 6 || term_months == 9 || term_months == 12
        || term_months == 24 || term_months == 36 || term_months == 60 || term_months == 120
        || term_months == 180 || term_months == 240 || term_months == 360) {
        return Err(bad_request("分期期限无效"));
    }
    if !(same(method, "equal_payment") || same(method, "equal_principal") || same(method, "flat")) {
        return Err(bad_request("还款方式无效"));
    }
    let rate: i128 = match parse_hundredths(annual_rate) {
        Some(rate) => rate,
        None => return Err(bad_request("年利率格式不正确")),
    };
    if rate < 0 || rate > 10_000 {
        return Err(bad_request("年利率必须在 0% 到 100% 之间"));
    }
    let fee_cents: i64 = match parse_money(
        fee,
        0,
        "总手续费格式不正确",
        "总手续费不能小于 0",
        "总手续费超出范围",
    ) {
        Ok(n) => n,
        Err(error) => return Err(error),
    };
    match parse_day(first_due_date) {
        None => Err(bad_request("首期还款日格式不正确")),
        Some(first_due_date) => Ok(
            NewPlan {
                term_months,
                method: method.to_owned(),
                annual_rate_bps: rate as i64,
                fee: fee_cents,
                first_due_date,
            },
        ),
    }
}

/// One of `count` parts of an amount: the remainder goes one cent each to the first parts.
pub open spec fn split_part(total: int, count: int, index: int) -> int {
    let base = quotient_towards_zero(total, count);
    base + (if index <= total - base * count {
        1int
    } else {
        0
    })
}

/// One of `count` parts of an amount.
pub fn split_amount(total: i64, count: i32, index: i32) -> (r: i64)
    requires
        1 <= count,
        1 <= index,
    ensures
        r == split_part(total as int, count as int, index as int),
        total >= 0 ==> 0 <= r <= total,
{
    let size: i128 = if total < 0 {
        -(total as i128)
    } else {
        total as i128
    };
    let quotient: i128 = size / count as i128;
    let rest: i128 = size % count as i128;
    proof {
        let c = count as int;
        let n = size as int;
        assert(n == (n / c) * c + n % c && 0 <= n % c < c && 0 <= n / c <= n) by (nonlinear_arith)
            requires
                n >= 0,
                c >= 1,
        ;
        if total < 0 {
            assert((-quotient) * c == -(quotient * c)) by (nonlinear_arith);
        }
        if rest > 0 {
            assert(c >= 2);
            assert(quotient + 1 <= size) by (nonlinear_arith)
                requires
                    size == quotient * c + rest,
                    rest >= 1,
                    c >= 2,
                    quotient >= 0,
            ;
        }
    }
    let base: i64 = if total < 0 {
        (-quotient) as i64
    } else {
        quotient as i64
    };
    if total >= 0 && index as i128 <= rest {
        base + 1
    } else {
        base
    }
}

/// The sum of the first `n` parts of an amount.
pub open spec fn parts_sum(total: int, count: int, n: int) -> int
    decreases n,
{
    if n <= 0 {
        0
    } else {
        parts_sum(total, count, n - 1) + split_part(total, count, n)
    }
}

proof fn parts_sum_is(total: int, count: int, n: int)
    requires
        total >= 0,
        count >= 1,
        0 <= n <= count,
    ensures
        parts_sum(total, count, n) == n * (total / count) + (if n <= total % count {
            n
        } else {
            total % count
        }),
    decreases n,
{
    assert(total == (total / count) * count + total % count && 0 <= total % count < count)
        by (nonlinear_arith)
        requires
            total >= 0,
            count >= 1,
    ;
    if n > 0 {
        parts_sum_is(total, count, n - 1);
        assert(n * (total / count) == (n - 1) * (total / count) + total / count)
            by (nonlinear_arith);
    } else {
        assert(0 * (total / count) == 0);
    }
}

/// The parts of an amount add up to it, and no two of them differ by more than one cent.
pub proof fn parts_add_up(total: int, count: int, i: int, j: int)
    requires
        total >= 0,
        count >= 1,
    ensures
        parts_sum(total, count, count) == total,
        -1 <= split_part(total, count, i) - split_part(total, count, j) <= 1,
{
    parts_sum_is(total, count, count);
    assert(total == (total / count) * count + total % count && 0 <= total % count < count)
        by (nonlinear_arith)
        requires
            total >= 0,
            count >= 1,
    ;
    assert(count * (total / count) == (total / count) * count) by (nonlinear_arith);
}

/// One payment of a plan.
#[derive(Clone, Copy)]
pub struct ScheduleAmount {
    pub sequence: i32,
    pub due_date: Date,
    pub principal: i64,
    pub interest: i64,
    pub fee: i64,
    pub total: i64,
}

/// What the payments of a plan are computed from: the rate of a month, the equal payment and the
/// interest of the whole plan on the whole amount.
pub struct Terms {
    pub monthly_rate: (int, int),
    pub payment: int,
    pub flat_interest: int,
}

/// One and a rate, multiplied with itself `n` times.
pub open spec fn growth(rate: (int, int), n: int) -> Option<(int, int)>
    decreases n,
{
    if n <= 0 {
        Some((1, 0))
    } else {
        match (growth(rate, n - 1), decimal_sum((1int, 0int), rate)) {
            (Some(factor), Some(step)) => decimal_product(factor, step),
            _ => None,
        }
    }
}

proof fn growth_stops(rate: (int, int), m: int, n: int)
    requires
        m <= n,
        growth(rate, m) is None,
    ensures
        growth(rate, n) is None,
    decreases n - m,
{
    if m < n {
        growth_stops(rate, m, n - 1);
    }
}

/// The payment that pays an amount back in equal payments.
pub open spec fn equal_payment(principal: int, rate: (int, int), count: int) -> Option<(int, int)> {
    if rate.0 == 0 {
        decimal_quotient((principal, 0int), (count, 0int))
    } else {
        match growth(rate, count) {
            None => None,
            Some(factor) => match decimal_product((principal, 0int), rate) {
                None => None,
                Some(interest) => match decimal_product(interest, factor) {
                    None => None,
                    Some(dividend) => match decimal_difference(factor, (1int, 0int)) {
                        None => None,
                        Some(divisor) => decimal_quotient(dividend, divisor),
                    },
                },
            },
        }
    }
}

/// The interest of a whole plan when the whole amount bears it all the time.
pub open spec fn flat_interest(principal: int, bps: int, count: int) -> Option<(int, int)> {
    match decimal_product((principal, 0int), (bps, 0int)) {
        None => None,
        Some(a) => match decimal_product(a, (count, 0int)) {
            None => None,
            Some(b) => decimal_quotient(b, (120_000int, 0int)),
        },
    }
}

/// A decimal number rounded to cents, zero where that is no amount.
pub open spec fn rounded_or_zero(d: (int, int)) -> int {
    if fits_i64(nearest(d.0, d.1)) {
        nearest(d.0, d.1)
    } else {
        0
    }
}

/// What the payments of a plan are computed from, or the refusal.
pub open spec fn terms_of(principal: int, plan: NewPlan) -> Result<Terms, ErrorView> {
    match decimal_quotient((plan.annual_rate_bps as int, 0int), (120_000int, 0int)) {
        None => Err(overflowed()),
        Some(rate) => match equal_payment(principal, rate, plan.term_months as int) {
            None => Err(overflowed()),
            Some(payment) => match flat_interest(
                principal,
                plan.annual_rate_bps as int,
                plan.term_months as int,
            ) {
                None => Err(overflowed()),
                Some(flat) => if fits_i64(nearest(flat.0, flat.1)) {
                    Ok(
                        Terms {
                            monthly_rate: rate,
                            payment: rounded_or_zero(payment),
                            flat_interest: nearest(flat.0, flat.1),
                        },
                    )
                } else {
                    Err(bad("利息金额超出范围"@))
                },
            },
        },
    }
}

/// The interest of a month on what is still owed.
pub open spec fn month_interest(owed: int, rate: (int, int)) -> Result<int, ErrorView> {
    match decimal_product((owed, 0int), rate) {
        None => Err(overflowed()),
        Some(d) => if fits_i64(nearest(d.0, d.1)) {
            Ok(nearest(d.0, d.1))
        } else {
            Err(bad("利息金额超出范围"@))
        },
    }
}

/// The smaller of two numbers.
pub open spec fn least(a: int, b: int) -> int {
    if a <= b {
        a
    } else {
        b
    }
}

/// What a payment pays back and its interest, when so much is still owed.
pub open spec fn payment_parts(
    principal: int,
    plan: NewPlan,
    terms: Terms,
    sequence: int,
    owed: int,
) -> Result<(int, int), ErrorView> {
    let count = plan.term_months as int;
    let share = least(split_part(principal, count, sequence), owed);
    if plan.method@ == "equal_principal"@ {
        match month_interest(owed, terms.monthly_rate) {
            Err(e) => Err(e),
            Ok(interest) => Ok((share, interest)),
        }
    } else if plan.method@ == "flat"@ {
        Ok((share, split_part(terms.flat_interest, count, sequence)))
    } else {
        match month_interest(owed, terms.monthly_rate) {
            Err(e) => Err(e),
            Ok(interest) => {
                let rest = terms.payment - interest;
                let paid = if sequence == count {
                    owed
                } else {
                    least(
                        if rest > 0 {
                            rest
                        } else {
                            0
                        },
                        owed,
                    )
                };
                Ok((paid, interest))
            },
        }
    }
}

/// One payment when so much is still owed, or the refusal.
pub open spec fn payment(
    principal: int,
    plan: NewPlan,
    terms: Terms,
    sequence: int,
    owed: int,
) -> Result<ScheduleAmount, ErrorView> {
    match plus_months(plan.first_due_date, sequence - 1) {
        None => Err(bad("还款日期超出范围"@)),
        Some(due_date) => match payment_parts(principal, plan, terms, sequence, owed) {
            Err(e) => Err(e),
            Ok((paid, interest)) => {
                let fee = split_part(plan.fee as int, plan.term_months as int, sequence);
                if !fits_i64(paid + interest) || !fits_i64(paid + interest + fee) {
                    Err(bad("分期金额超出范围"@))
                } else {
                    Ok(
                        ScheduleAmount {
                            sequence: sequence as i32,
                            due_date,
                            principal: paid as i64,
                            interest: interest as i64,
                            fee: fee as i64,
                            total: (paid + interest + fee) as i64,
                        },
                    )
                }
            },
        },
    }
}

/// The payments from one on when so much is still owed, or the refusal.
pub open spec fn payments_from(
    principal: int,
    plan: NewPlan,
    terms: Terms,
    sequence: int,
    owed: int,
) -> Result<Seq<ScheduleAmount>, ErrorView>
    decreases plan.term_months + 1 - sequence,
{
    if sequence > plan.term_months {
        if owed != 0 {
            Err(bad("无法生成完整的分期本金计划"@))
        } else {
            Ok(Seq::empty())
        }
    } else {
        match payment(principal, plan, terms, sequence, owed) {
            Err(e) => Err(e),
            Ok(row) => match payments_from(
                principal,
                plan,
                terms,
                sequence + 1,
                owed - row.principal,
            ) {
                Err(e) => Err(e),
                Ok(rest) => Ok(seq![row] + rest),
            },
        }
    }
}

/// The payments of a plan, or the refusal.
pub open spec fn payments(principal: int, plan: NewPlan) -> Result<
    Seq<ScheduleAmount>,
    ErrorView,
> {
    match terms_of(principal, plan) {
        Err(e) => Err(e),
        Ok(terms) => payments_from(principal, plan, terms, 1, principal),
    }
}

/// A list of payments agrees with its specification.
pub open spec fn schedule_agrees(
    r: HandlerResult<Vec<ScheduleAmount>>,
    expected: Result<Seq<ScheduleAmount>, ErrorView>,
) -> bool {
    match (r, expected) {
        (Ok(rows), Ok(wanted)) => rows@ == wanted,
        (Err(error), Err(wanted)) => error@ == wanted,
        _ => false,
    }
}

/// An interest is the nearest cent to what is owed times the yearly rate, in hundredths of a
/// percent, over so many months.
pub open spec fn is_interest(interest: int, owed: int, annual_rate_bps: int, months: int) -> bool {
    -60_000 <= interest * 120_000 - owed * annual_rate_bps * months <= 60_000
}

/// A rate is the twelfth part of a yearly rate, but for what is rounded away.
spec fn is_monthly_rate(rate: (int, int), annual_rate_bps: int) -> bool {
    &&& size(number(rate) - annual_rate_bps as real / 120000real) * many() <= 2real
    &&& 0real <= number(rate) <= 1real
}

proof fn quotient_is_monthly_rate(rate: (int, int), annual_rate_bps: int)
    requires
        0 <= annual_rate_bps <= 10_000,
        rate.0 >= 0,
        is_near_or_tiny(rate, annual_rate_bps * pow10(0), 120_000 * pow10(0)),
    ensures
        is_monthly_rate(rate, annual_rate_bps),
{
    whole_number(annual_rate_bps);
    whole_number(120_000);
    quotient_number((annual_rate_bps, 0), (120_000, 0), rate);
    crate::decimal::pow10_positive(rate.1);
    let (m, p, v) = (rate.0 as real, pow10(rate.1) as real, number(rate));
    assert(v >= 0real) by (nonlinear_arith)
        requires
            v == m / p,
            m >= 0real,
            p > 0real,
    ;
}

/// A number is the nearest cent to an amount times a rate, but for what is rounded away.
spec fn is_share(n: int, owed: int, rate: (int, int)) -> bool {
    size(n as real - owed as real * number(rate)) * 20000000real <= 10000001real
}

proof fn nearest_is_share(n: int, owed: int, rate: (int, int), product: (int, int))
    requires
        0 <= owed <= i64::MAX,
        rate.1 >= 0,
        0real <= number(rate) <= 1real,
        is_near(product, owed * rate.0, pow10(0 + rate.1)),
        n == nearest(product.0, product.1),
    ensures
        is_share(n, owed, rate),
{
    whole_number(owed);
    product_number((owed, 0), rate, product);
    nearest_number(product);
    let (x, v, p) = (owed as real, number(rate), number(product));
    assert(0real <= x * v <= x) by (nonlinear_arith)
        requires
            x >= 0real,
            0real <= v <= 1real,
    ;
}

proof fn share_is_interest(n: int, owed: int, rate: (int, int), annual_rate_bps: int)
    requires
        0 <= owed <= i64::MAX,
        0 <= annual_rate_bps <= 10_000,
        is_monthly_rate(rate, annual_rate_bps),
        is_share(n, owed, rate),
    ensures
        is_interest(n, owed, annual_rate_bps, 1),
{
    let (x, v, b) = (owed as real, number(rate), annual_rate_bps as real);
    let r = b / 120000real;
    let e = size(v - r);
    assert(-(x * e) <= x * v - x * r <= x * e) by (nonlinear_arith)
        requires
            x >= 0real,
            -e <= v - r <= e,
    ;
    assert(x * e * many() <= 2real * x) by (nonlinear_arith)
        requires
            x >= 0real,
            e * many() <= 2real,
    ;
    assert(x * r * 120000real == x * b) by (nonlinear_arith)
        requires
            r == b / 120000real,
    ;
    product_as_real(owed, annual_rate_bps);
    let d = n * 120_000 - owed * annual_rate_bps * 1;
    assert(d as real == n as real * 120000real - x * b);
    assert(-60001 < d < 60001);
}

/// The rate of a month, the equal payment and the interest of the whole plan.
struct Figures {
    monthly_rate: Dec,
    payment: i64,
    flat_interest: i64,
}

/// A number multiplied with itself `n` times.
pub open spec fn real_power(x: real, n: int) -> real
    decreases n,
{
    if n <= 0 {
        1real
    } else {
        real_power(x, n - 1) * x
    }
}

/// A payment pays an amount back in so many months at a yearly rate: it is within six tenths of a
/// cent of the amount that leaves nothing owed, where each month what is owed first grows by the
/// rate of a month. Without interest it is the amount divided by the months.
pub open spec fn is_annuity(payment: int, principal: int, annual_rate_bps: int, months: int) -> bool {
    let r = annual_rate_bps as real / 120000real;
    let growth = real_power(1real + r, months);
    let (p, a) = (payment as real, principal as real);
    if annual_rate_bps == 0 {
        5real * size(p * months as real - a) <= 3real * months as real
    } else {
        5real * size(p * (growth - 1real) - a * r * growth) <= 3real * (growth - 1real)
    }
}

/// A number is near to a power, after so many roundings.
spec fn near_power(f: real, exact: real, n: int) -> bool {
    size(f - exact) * many() <= 10real * n as real * exact
}

proof fn power_grows(r: real, n: int)
    requires
        r > 0real,
        n >= 0,
    ensures
        real_power(1real + r, n) >= 1real + n as real * r,
        real_power(1real + r, n) >= 1real,
    decreases n,
{
    if n > 0 {
        power_grows(r, n - 1);
        let (k, p) = ((n - 1) as real, real_power(1real + r, n - 1));
        assert(p * (1real + r) >= 1real + (k + 1real) * r && p * (1real + r) >= 1real)
            by (nonlinear_arith)
            requires
                p >= 1real + k * r,
                p >= 1real,
                r > 0real,
                k >= 0real,
        ;
        assert(n as real == k + 1real);
    } else {
        assert(0real * r == 0real) by (nonlinear_arith);
    }
}

proof fn power_step(f: real, exact: real, s: real, t: real, n: int, g: real)
    requires
        0 <= n < 360,
        exact >= 1real,
        near_power(f, exact, n),
        1real <= s <= 2real,
        size(t - s) * many() <= 5real,
        size(g - f * t) * many() <= 1real + size(g),
    ensures
        near_power(g, exact * s, n + 1),
{
    let (k, e, d) = (n as real, f - exact, t - s);
    let big = exact * s;
    assert(f * t - big == e * t + exact * d) by (nonlinear_arith)
        requires
            big == exact * s,
            e == f - exact,
            d == t - s,
    ;
    assert(big >= exact) by (nonlinear_arith)
        requires
            big == exact * s,
            s >= 1real,
            exact >= 1real,
    ;
    let (se, sd) = (size(e), size(d));
    assert(0real < t <= s + sd);
    size_scaled(e, t);
    size_scaled(d, exact);
    assert(d * exact == exact * d) by (nonlinear_arith);
    let m = many();
    let q = 10real * k * exact;
    assert(se * m <= q);
    assert(0real <= q <= 3600real * exact) by (nonlinear_arith)
        requires
            q == 10real * k * exact,
            0real <= k <= 360real,
            exact >= 1real,
    ;
    assert(se * t * m <= q * t) by (nonlinear_arith)
        requires
            se * m <= q,
            t > 0real,
    ;
    assert(q * t <= q * s + q * sd) by (nonlinear_arith)
        requires
            t <= s + sd,
            q >= 0real,
    ;
    assert(q * s == 10real * k * big) by (nonlinear_arith)
        requires
            q == 10real * k * exact,
            big == exact * s,
    ;
    assert(sd <= 1real / 10000real);
    assert(q * sd * m <= 5real * q) by (nonlinear_arith)
        requires
            sd * m <= 5real,
            q >= 0real,
    ;
    assert(q * sd <= exact);
    assert(sd * exact * m <= 5real * exact) by (nonlinear_arith)
        requires
            sd * m <= 5real,
            exact >= 1real,
    ;
    let a = size(f * t - big);
    assert(a * m <= 10real * k * big + exact + 5real * exact);
    let b = size(g - big);
    assert(b * m <= 1real + size(g) + a * m);
    assert(10real * k * big <= 3600real * big) by (nonlinear_arith)
        requires
            0real <= k <= 360real,
            big >= 1real,
    ;
    assert(10real * (k + 1real) * big == 10real * k * big + 10real * big) by (nonlinear_arith);
    assert((n + 1) as real == k + 1real);
}

/// What rounding does to the payment that pays an amount back.
proof fn annuity_error(
    p: real,
    r: real,
    v: real,
    exact: real,
    f: real,
    interest: real,
    dividend: real,
    divisor: real,
    q: real,
)
    requires
        0real <= p <= 9223372036854775807real,
        0real <= v <= 1real,
        size(v - r) * many() <= 2real,
        r > 0real,
        exact - 1real >= 1real / 40000real,
        2real * (p * r * exact) <= p * (exact - 1real),
        size(f - exact) * many() <= 1300000real * (exact - 1real),
        f > 0real,
        interest >= 0real,
        size(interest - p * v) * many() <= interest,
        dividend >= 0real,
        size(dividend - interest * f) * many() <= 1real + dividend,
        size(divisor - (f - 1real)) * many() <= size(divisor),
        q >= 0real,
        divisor > 0real ==> size(q - dividend / divisor) * many() <= 1real + q,
    ensures
        divisor > 0real,
        20real * size(q * (exact - 1real) - p * r * exact) <= exact - 1real,
        q <= 9000000000000000000real,
{
    let (h, m) = (exact - 1real, many());
    let k = p * r * exact;
    let pr = p * r;
    assert(k == pr * exact) by (nonlinear_arith)
        requires
            k == p * r * exact,
            pr == p * r,
    ;
    let ph = p * h;
    assert(ph <= 9223372036854775807real * h && ph >= 0real) by (nonlinear_arith)
        requires
            ph == p * h,
            0real <= p <= 9223372036854775807real,
            h >= 0real,
    ;
    // The divisor.
    let ef = size(f - exact);
    assert(divisor > 0real);
    assert(size(divisor - h) * m <= 1400000real * h);
    // The interest of the first month.
    let e = size(v - r);
    assert(-(p * e) <= p * v - pr <= p * e) by (nonlinear_arith)
        requires
            pr == p * r,
            p >= 0real,
            -e <= v - r <= e,
    ;
    assert(p * e * m <= 2real * p) by (nonlinear_arith)
        requires
            p >= 0real,
            e * m <= 2real,
    ;
    assert(p * v <= p) by (nonlinear_arith)
        requires
            p >= 0real,
            v <= 1real,
    ;
    assert(interest <= 2real * p);
    let ei = size(interest - pr);
    assert(ei * m <= 4real * p);
    // The dividend.
    let x = interest * f;
    assert(x - k == (interest - pr) * f + pr * (f - exact)) by (nonlinear_arith)
        requires
            x == interest * f,
            k == pr * exact,
    ;
    size_scaled(interest - pr, f);
    assert(f <= 2real * exact);
    let ef2 = ei * f;
    assert(ef2 * m <= 8real * (p * exact)) by (nonlinear_arith)
        requires
            ef2 == ei * f,
            ei * m <= 4real * p,
            0real < f <= 2real * exact,
            p >= 0real,
            ei >= 0real,
    ;
    assert(exact <= 40001real * h);
    assert(p * exact <= 40001real * ph) by (nonlinear_arith)
        requires
            exact <= 40001real * h,
            ph == p * h,
            p >= 0real,
    ;
    assert(pr >= 0real) by (nonlinear_arith)
        requires
            pr == p * r,
            p >= 0real,
            r > 0real,
    ;
    assert(-(pr * ef) <= pr * (f - exact) <= pr * ef) by (nonlinear_arith)
        requires
            pr >= 0real,
            -ef <= f - exact <= ef,
    ;
    assert(pr <= ph) by (nonlinear_arith)
        requires
            2real * (pr * exact) <= ph,
            exact >= 1real,
            pr >= 0real,
    ;
    assert(pr * ef * m <= 1300000real * (pr * h)) by (nonlinear_arith)
        requires
            ef * m <= 1300000real * h,
            pr >= 0real,
    ;
    assert(pr * h <= k) by (nonlinear_arith)
        requires
            k == pr * exact,
            h <= exact,
            pr >= 0real,
    ;
    assert(size(x - k) * m <= 8real * 40001real * ph + 1300000real * ph);
    assert(size(x - k) * 100real <= 2real * h);
    assert(x <= k + h);
    assert(size(dividend - x) * 1000real <= h);
    assert(size(dividend - k) * 100real <= 3real * h);
    // The quotient.
    let ratio = dividend / divisor;
    assert(ratio * divisor == dividend) by (nonlinear_arith)
        requires
            ratio == dividend / divisor,
            divisor > 0real,
    ;
    assert(999real * h <= 1000real * divisor <= 1001real * h);
    assert(dividend <= 1000real * divisor * 5000000000000000real);
    assert(ratio <= 5000000000000000000real) by (nonlinear_arith)
        requires
            ratio * divisor <= 1000real * divisor * 5000000000000000real,
            divisor > 0real,
    ;
    assert(q <= 6000000000000000000real);
    size_scaled(q - ratio, divisor);
    assert((q - ratio) * divisor == q * divisor - dividend) by (nonlinear_arith)
        requires
            ratio * divisor == dividend,
    ;
    let eq = size(q - ratio);
    assert(eq * 100000real <= 1real);
    assert(eq * divisor * 100000real <= divisor) by (nonlinear_arith)
        requires
            eq * 100000real <= 1real,
            divisor > 0real,
    ;
    let ed = size(divisor - h);
    assert(-(q * ed) <= q * divisor - q * h <= q * ed) by (nonlinear_arith)
        requires
            q >= 0real,
            -ed <= divisor - h <= ed,
    ;
    assert(q * ed <= 6000000000000000000real * ed) by (nonlinear_arith)
        requires
            q <= 6000000000000000000real,
            ed >= 0real,
    ;
}

proof fn number_sign(d: (int, int))
    ensures
        d.0 > 0 ==> number(d) > 0real,
        d.0 == 0 ==> number(d) == 0real,
        d.0 < 0 ==> number(d) < 0real,
{
    crate::decimal::pow10_positive(d.1);
    let (m, p) = (d.0 as real, pow10(d.1) as real);
    assert((m > 0real ==> m / p > 0real) && (m == 0real ==> m / p == 0real) && (m < 0real ==> m / p
        < 0real)) by (nonlinear_arith)
        requires
            p > 0real,
    ;
}

proof fn equal_parts_are_annuity(q: (int, int), principal: int, months: int)
    requires
        0 <= principal <= i64::MAX,
        3 <= months <= 360,
        is_near_or_tiny(q, principal * pow10(0), months * pow10(0)),
    ensures
        is_annuity(nearest(q.0, q.1), principal, 0, months),
        fits_i64(nearest(q.0, q.1)),
{
    whole_number(principal);
    whole_number(months);
    quotient_number((principal, 0), (months, 0), q);
    nearest_number(q);
    let (a, n, v, k) = (
        principal as real,
        months as real,
        number(q),
        nearest(q.0, q.1) as real,
    );
    let ratio = a / n;
    assert(ratio * n == a && 0real <= ratio <= a) by (nonlinear_arith)
        requires
            ratio == a / n,
            n >= 3real,
            a >= 0real,
    ;
    let e = size(k - ratio);
    size_scaled(k - ratio, n);
    assert((k - ratio) * n == k * n - a) by (nonlinear_arith)
        requires
            ratio * n == a,
    ;
    assert(10real * e <= 6real);
    assert(5real * (e * n) <= 3real * n) by (nonlinear_arith)
        requires
            10real * e <= 6real,
            n > 0real,
    ;
    assert(3real * ratio <= a) by (nonlinear_arith)
        requires
            ratio * n == a,
            n >= 3real,
            ratio >= 0real,
    ;
}

proof fn rounded_is_annuity(
    principal: int,
    rate: (int, int),
    annual_rate_bps: int,
    months: int,
    factor: (int, int),
    interest: (int, int),
    dividend: (int, int),
    divisor: (int, int),
    q: (int, int),
)
    requires
        0 <= principal <= i64::MAX,
        1 <= annual_rate_bps <= 10_000,
        3 <= months <= 360,
        is_monthly_rate(rate, annual_rate_bps),
        rate.1 >= 0,
        factor.1 >= 0,
        interest.1 >= 0,
        dividend.1 >= 0,
        divisor.1 >= 0,
        interest.0 >= 0,
        dividend.0 >= 0,
        divisor.0 >= 0 ==> q.0 >= 0,
        near_power(
            number(factor),
            real_power(1real + annual_rate_bps as real / 120000real, months),
            months,
        ),
        is_near(interest, principal * rate.0, pow10(0 + rate.1)),
        is_near_or_tiny(dividend, interest.0 * factor.0, pow10(interest.1 + factor.1)),
        is_near(
            divisor,
            factor.0 * pow10(0) - 1 * pow10(factor.1),
            pow10(factor.1 + 0),
        ),
        divisor.0 > 0 ==> is_near_or_tiny(
            q,
            dividend.0 * pow10(divisor.1),
            divisor.0 * pow10(dividend.1),
        ),
    ensures
        is_annuity(nearest(q.0, q.1), principal, annual_rate_bps, months),
        fits_i64(nearest(q.0, q.1)),
{
    let r = annual_rate_bps as real / 120000real;
    let exact = real_power(1real + r, months);
    let (p, n) = (principal as real, months as real);
    let (v, f, h) = (number(rate), number(factor), exact - 1real);
    power_grows(r, months);
    assert(n <= 120000real * (n * r)) by (nonlinear_arith)
        requires
            r >= 1real / 120000real,
            n > 0real,
    ;
    assert(3real * r <= n * r) by (nonlinear_arith)
        requires
            n >= 3real,
            r > 0real,
    ;
    assert(10real * n * exact == 10real * n + 10real * (n * h)) by (nonlinear_arith)
        requires
            h == exact - 1real,
    ;
    assert(n * h <= 360real * h) by (nonlinear_arith)
        requires
            n <= 360real,
            h >= 0real,
    ;
    let rx = r * exact;
    assert(rx == r + r * h) by (nonlinear_arith)
        requires
            rx == r * exact,
            h == exact - 1real,
    ;
    assert(12real * (r * h) <= h) by (nonlinear_arith)
        requires
            r <= 1real / 12real,
            h >= 0real,
    ;
    assert(p * r * exact == p * rx) by (nonlinear_arith)
        requires
            rx == r * exact,
    ;
    assert(2real * (p * rx) <= p * h) by (nonlinear_arith)
        requires
            2real * rx <= h,
            p >= 0real,
    ;
    whole_number(principal);
    whole_number(1);
    product_number((principal, 0), rate, interest);
    product_number(interest, factor, dividend);
    difference_number(factor, (1, 0), divisor);
    number_sign(interest);
    number_sign(dividend);
    number_sign(divisor);
    number_sign(q);
    if divisor.0 > 0 {
        quotient_number(dividend, divisor, q);
    }
    if divisor.0 <= 0 {
        assert(size(f - exact) * many() <= 1300000real * h);
        assert(false);
    }
    annuity_error(
        p,
        r,
        v,
        exact,
        f,
        number(interest),
        number(dividend),
        number(divisor),
        number(q),
    );
    nearest_number(q);
    let (k, y) = (nearest(q.0, q.1) as real, number(q));
    size_scaled(k - y, h);
    let e = size(k - y);
    assert((k - y) * h == k * h - y * h) by (nonlinear_arith);
    assert(2real * (e * h) <= h) by (nonlinear_arith)
        requires
            2real * e <= 1real,
            h > 0real,
    ;
}

fn find_equal_payment(
    principal: i64,
    rate: Dec,
    count: i32,
    Ghost(annual_rate_bps): Ghost<int>,
) -> (r: Option<Dec>)
    requires
        rate.wf(),
        rate.mantissa >= 0,
        principal >= 0,
        3 <= count <= 360,
        0 <= annual_rate_bps <= 10_000,
        is_monthly_rate(rate.pair(), annual_rate_bps),
        annual_rate_bps == 0 ==> rate.mantissa == 0,
    ensures
        crate::decimal::is_pair(r, equal_payment(principal as int, rate.pair(), count as int)),
        r matches Some(d) ==> {
            let payment = nearest(d.mantissa as int, d.scale as int);
            fits_i64(payment) && is_annuity(
                payment,
                principal as int,
                annual_rate_bps,
                count as int,
            )
        },
{
    proof {
        number_sign(rate.pair());
    }
    if rate.mantissa == 0 {
        let part = divide(whole(principal), whole(count as i64));
        proof {
            if let Some(d) = part {
                equal_parts_are_annuity(d.pair(), principal as int, count as int);
            }
        }
        return part;
    }
    let mut factor: Dec = whole(1);
    let mut i: i32 = 0;
    let ghost exact_rate = annual_rate_bps as real / 120000real;
    proof {
        whole_number(1);
    }
    while i < count
        invariant
            0 <= i <= count <= 360,
            rate.wf(),
            rate.mantissa != 0,
            is_monthly_rate(rate.pair(), annual_rate_bps),
            1 <= annual_rate_bps <= 10_000,
            exact_rate == annual_rate_bps as real / 120000real,
            near_power(number(factor.pair()), real_power(1real + exact_rate, i as int), i as int),
            factor.mantissa >= 0,
            rate.mantissa >= 0,
            factor.wf(),
            growth(rate.pair(), i as int) == Some(factor.pair()),
        decreases count - i,
    {
        let step = match plus(whole(1), rate) {
            Some(step) => step,
            None => {
                proof {
                    growth_stops(rate.pair(), i + 1, count as int);
                }
                return None;
            },
        };
        match multiply(factor, step) {
            Some(f) => {
                proof {
                    power_grows(exact_rate, i as int);
                    whole_number(1);
                    number_sign(step.pair());
                    sum_number((1, 0), rate.pair(), step.pair());
                    product_number(factor.pair(), step.pair(), f.pair());
                    power_step(
                        number(factor.pair()),
                        real_power(1real + exact_rate, i as int),
                        1real + exact_rate,
                        number(step.pair()),
                        i as int,
                        number(f.pair()),
                    );
                }
                factor = f;
            },
            None => {
                proof {
                    growth_stops(rate.pair(), i + 1, count as int);
                }
                return None;
            },
        }
        i = i + 1;
    }
    let interest = match multiply(whole(principal), rate) {
        Some(d) => d,
        None => return None,
    };
    let dividend = match multiply(interest, factor) {
        Some(d) => d,
        None => return None,
    };
    let divisor = match minus(factor, whole(1)) {
        Some(d) => d,
        None => return None,
    };
    let payment = divide(dividend, divisor);
    proof {
        if let Some(q) = payment {
            rounded_is_annuity(
                principal as int,
                rate.pair(),
                annual_rate_bps,
                count as int,
                factor.pair(),
                interest.pair(),
                dividend.pair(),
                divisor.pair(),
                q.pair(),
            );
        }
    }
    payment
}

fn find_flat_interest(principal: i64, bps: i64, count: i32) -> (r: Option<Dec>)
    requires
        principal >= 0,
        bps >= 0,
        count >= 1,
    ensures
        crate::decimal::is_pair(r, flat_interest(principal as int, bps as int, count as int)),
        r is Some ==> r->0.mantissa >= 0,
        bps <= 10_000 && count <= 360 && r is Some ==> is_near_or_tiny(
            r->0.pair(),
            principal * bps * count,
            120_000,
        ),
{
    proof {
        exact_product(principal as int, bps as int, count as int);
    }
    let a = match multiply(whole(principal), whole(bps)) {
        Some(a) => a,
        None => return None,
    };
    let b = match multiply(a, whole(count as i64)) {
        Some(b) => b,
        None => return None,
    };
    divide(b, whole(120_000))
}

proof fn nearest_of_natural(mantissa: int, scale: int)
    requires
        mantissa >= 0,
    ensures
        nearest(mantissa, scale) >= 0,
{
    crate::decimal::pow10_grows(
        0,
        if scale < 0 {
            0
        } else {
            scale
        },
    );
    let unit = crate::decimal::pow10(scale);
    assert(mantissa / unit >= 0) by (nonlinear_arith)
        requires
            mantissa >= 0,
            unit >= 1,
    ;
}

fn find_figures(principal: i64, plan: &NewPlan) -> (r: HandlerResult<Figures>)
    requires
        principal >= 0,
        plan.wf(),
    ensures
        match (r, terms_of(principal as int, *plan)) {
            (Ok(figures), Ok(terms)) => figures.monthly_rate.pair() == terms.monthly_rate
                && figures.monthly_rate.wf() && figures.monthly_rate.mantissa >= 0
                && figures.payment == terms.payment && figures.flat_interest == terms.flat_interest
                && figures.flat_interest >= 0 && is_annuity(
                figures.payment as int,
                principal as int,
                plan.annual_rate_bps as int,
                plan.term_months as int,
            ) && is_monthly_rate(
                figures.monthly_rate.pair(),
                plan.annual_rate_bps as int,
            ) && is_interest(
                figures.flat_interest as int,
                principal as int,
                plan.annual_rate_bps as int,
                plan.term_months as int,
            ),
            (Err(error), Err(wanted)) => error@ == wanted,
            _ => false,
        },
{
    let monthly_rate = match divide(whole(plan.annual_rate_bps), whole(120_000)) {
        Some(rate) => rate,
        None => return Err(arithmetic_overflow()),
    };
    proof {
        quotient_is_monthly_rate(monthly_rate.pair(), plan.annual_rate_bps as int);
    }
    let fixed = match find_equal_payment(
        principal,
        monthly_rate,
        plan.term_months,
        Ghost(plan.annual_rate_bps as int),
    ) {
        Some(fixed) => fixed,
        None => return Err(arithmetic_overflow()),
    };
    let flat = match find_flat_interest(principal, plan.annual_rate_bps, plan.term_months) {
        Some(flat) => flat,
        None => return Err(arithmetic_overflow()),
    };
    proof {
        nearest_of_natural(flat.mantissa as int, flat.scale as int);
        nearest_is_flat_interest(
            flat.pair(),
            principal as int,
            plan.annual_rate_bps as int,
            plan.term_months as int,
        );
    }
    let flat_interest: i64 = match to_i64(flat) {
        Some(n) => n,
        None => return Err(bad_request("利息金额超出范围")),
    };
    let payment: i64 = match to_i64(fixed) {
        Some(n) => n,
        None => 0,
    };
    Ok(Figures { monthly_rate, payment, flat_interest })
}

fn find_month_interest(owed: i64, rate: Dec) -> (r: HandlerResult<i64>)
    requires
        rate.wf(),
        rate.mantissa >= 0,
        owed >= 0,
    ensures
        match (r, month_interest(owed as int, rate.pair())) {
            (Ok(n), Ok(wanted)) => n == wanted && n >= 0 && (0real <= number(rate.pair()) <= 1real
                ==> is_share(n as int, owed as int, rate.pair())),
            (Err(error), Err(wanted)) => error@ == wanted,
            _ => false,
        },
{
    match multiply(whole(owed), rate) {
        None => Err(arithmetic_overflow()),
        Some(d) => {
            proof {
                nearest_of_natural(d.mantissa as int, d.scale as int);
                if 0real <= number(rate.pair()) <= 1real {
                    nearest_is_share(
                        nearest(d.mantissa as int, d.scale as int),
                        owed as int,
                        rate.pair(),
                        d.pair(),
                    );
                }
            }
            match to_i64(d) {
                Some(n) => Ok(n),
                None => Err(bad_request("利息金额超出范围")),
            }
        },
    }
}

fn find_payment(principal: i64, plan: &NewPlan, figures: &Figures, sequence: i32, owed: i64) -> (r:
    HandlerResult<ScheduleAmount>)
    requires
        principal >= 0,
        plan.wf(),
        1 <= sequence <= plan.term_months,
        0 <= owed <= principal,
        figures.monthly_rate.wf(),
        figures.monthly_rate.mantissa >= 0,
        figures.flat_interest >= 0,
        is_monthly_rate(figures.monthly_rate.pair(), plan.annual_rate_bps as int),
    ensures
        agrees(
            r,
            payment(
                principal as int,
                *plan,
                Terms {
                    monthly_rate: figures.monthly_rate.pair(),
                    payment: figures.payment as int,
                    flat_interest: figures.flat_interest as int,
                },
                sequence as int,
                owed as int,
            ),
        ),
        r matches Ok(row) ==> 0 <= row.principal <= owed && row.interest >= 0,
        r matches Ok(row) ==> plan.method@ != "flat"@ ==> is_interest(
            row.interest as int,
            owed as int,
            plan.annual_rate_bps as int,
            1,
        ),
{
    let count: i32 = plan.term_months;
    let due_date = match plan.first_due_date.add_months((sequence - 1) as u32) {
        Some(due_date) => due_date,
        None => return Err(bad_request("还款日期超出范围")),
    };
    let share: i64 = split_amount(principal, count, sequence);
    let part: i64 = if share <= owed {
        share
    } else {
        owed
    };
    let (paid, interest): (i64, i64) = if same(&plan.method, "equal_principal") {
        match find_month_interest(owed, figures.monthly_rate) {
            Ok(interest) => (part, interest),
            Err(error) => return Err(error),
        }
    } else if same(&plan.method, "flat") {
        (part, split_amount(figures.flat_interest, count, sequence))
    } else {
        let interest: i64 = match find_month_interest(owed, figures.monthly_rate) {
            Ok(interest) => interest,
            Err(error) => return Err(error),
        };
        let rest: i128 = figures.payment as i128 - interest as i128;
        let paid: i64 = if sequence == count {
            owed
        } else if rest <= 0 {
            0
        } else if rest <= owed as i128 {
            rest as i64
        } else {
            owed
        };
        (paid, interest)
    };
    proof {
        if plan.method@ != "flat"@ {
            share_is_interest(
                interest as int,
                owed as int,
                figures.monthly_rate.pair(),
                plan.annual_rate_bps as int,
            );
        }
    }
    let fee: i64 = split_amount(plan.fee, count, sequence);
    let sum = match paid.checked_add(interest) {
        Some(sum) => sum.checked_add(fee),
        None => None,
    };
    match sum {
        None => Err(bad_request("分期金额超出范围")),
        Some(total) => Ok(
            ScheduleAmount { sequence, due_date, principal: paid, interest, fee, total },
        ),
    }
}

proof fn exact_product(a: int, b: int, c: int)
    requires
        a <= i64::MAX,
    ensures
        0 <= a && 0 <= b <= 10_000 ==> fits_mantissa(a * b),
        0 <= a && 0 <= b <= 10_000 && 0 <= c <= 360 ==> 0 <= a * b * c
            <= 34000000000000000000000000,
{
    if 0 <= a && 0 <= b <= 10_000 {
        assert(0 <= a * b <= a * 10_000) by (nonlinear_arith)
            requires
                0 <= a,
                0 <= b <= 10_000,
        ;
        if 0 <= c <= 360 {
            assert(0 <= (a * b) * c <= (a * b) * 360) by (nonlinear_arith)
                requires
                    0 <= a * b,
                    0 <= c <= 360,
            ;
        }
    }
}

proof fn nearest_is_flat_interest(flat: (int, int), principal: int, bps: int, months: int)
    requires
        0 <= principal <= i64::MAX,
        0 <= bps <= 10_000,
        0 <= months <= 360,
        is_near_or_tiny(flat, principal * bps * months, 120_000),
    ensures
        is_interest(nearest(flat.0, flat.1), principal, bps, months),
{
    exact_product(principal, bps, months);
    let n = principal * bps * months;
    near_number(flat, n, 120_000);
    nearest_number(flat);
    let (x, v, k) = (n as real, number(flat), nearest(flat.0, flat.1) as real);
    let q = x / 120000real;
    assert(q * 120000real == x);
    assert(n <= 34000000000000000000000000);
    let d = nearest(flat.0, flat.1) * 120_000 - n;
    assert(d as real == k * 120000real - x);
    assert(-60001 < d < 60001);
}

/// The payments that pay an amount back as a plan says: each pays back a part of the amount, the
/// interest of its month, which is never negative, and a part of the fee.
pub fn schedule(principal: i64, plan: &NewPlan) -> (r: HandlerResult<Vec<ScheduleAmount>>)
    requires
        principal >= 0,
        plan.wf(),
    ensures
        schedule_agrees(r, payments(principal as int, *plan)),
        r matches Ok(rows) ==> forall|i: int|
            0 <= i < rows@.len() ==> (#[trigger] rows@[i]).interest >= 0,
        r matches Ok(rows) ==> plan.method@ != "flat"@ ==> forall|i: int|
            0 <= i < rows@.len() ==> is_interest(
                (#[trigger] rows@[i]).interest as int,
                principal - principal_sum(rows@.take(i)),
                plan.annual_rate_bps as int,
                1,
            ),
        r is Ok ==> is_annuity(
            terms_of(principal as int, *plan)->Ok_0.payment,
            principal as int,
            plan.annual_rate_bps as int,
            plan.term_months as int,
        ),
        r matches Ok(rows) ==> plan.method@ == "flat"@ ==> is_interest(
            interest_sum(rows@),
            principal as int,
            plan.annual_rate_bps as int,
            plan.term_months as int,
        ),
{
    let figures = match find_figures(principal, plan) {
        Ok(figures) => figures,
        Err(error) => return Err(error),
    };
    let ghost terms = terms_of(principal as int, *plan)->Ok_0;
    let ghost all = payments(principal as int, *plan);
    let count: i32 = plan.term_months;
    let mut rows: Vec<ScheduleAmount> = Vec::new();
    let mut owed: i64 = principal;
    let mut sequence: i32 = 1;
    while sequence <= count
        invariant
            1 <= sequence <= count + 1,
            count == plan.term_months,
            plan.wf(),
            0 <= owed <= principal,
            figures.monthly_rate.wf(),
            figures.monthly_rate.mantissa >= 0,
            figures.flat_interest >= 0,
            terms == (Terms {
                monthly_rate: figures.monthly_rate.pair(),
                payment: figures.payment as int,
                flat_interest: figures.flat_interest as int,
            }),
            all == payments(principal as int, *plan),
            is_monthly_rate(figures.monthly_rate.pair(), plan.annual_rate_bps as int),
            is_annuity(
                terms.payment,
                principal as int,
                plan.annual_rate_bps as int,
                plan.term_months as int,
            ),
            forall|i: int| 0 <= i < rows@.len() ==> (#[trigger] rows@[i]).interest >= 0,
            owed == principal - principal_sum(rows@),
            plan.method@ != "flat"@ ==> forall|i: int|
                0 <= i < rows@.len() ==> is_interest(
                    (#[trigger] rows@[i]).interest as int,
                    principal - principal_sum(rows@.take(i)),
                    plan.annual_rate_bps as int,
                    1,
                ),
            plan.method@ == "flat"@ ==> interest_sum(rows@) == parts_sum(
                figures.flat_interest as int,
                count as int,
                sequence - 1,
            ),
            match payments_from(principal as int, *plan, terms, sequence as int, owed as int) {
                Ok(rest) => all == Ok::<Seq<ScheduleAmount>, ErrorView>(rows@ + rest),
                Err(e) => all == Err::<Seq<ScheduleAmount>, ErrorView>(e),
            },
        decreases count + 1 - sequence,
    {
        let ghost before = rows@;
        match find_payment(principal, plan, &figures, sequence, owed) {
            Err(error) => return Err(error),
            Ok(row) => {
                rows.push(row);
                proof {
                    assert(before.push(row).drop_last() =~= before);
                    principal_sum_push(before, row);
                    assert(rows@.take(before.len() as int) =~= before);
                    assert forall|i: int|
                        0 <= i < rows@.len() && plan.method@ != "flat"@ implies is_interest(
                        (#[trigger] rows@[i]).interest as int,
                        principal - principal_sum(rows@.take(i)),
                        plan.annual_rate_bps as int,
                        1,
                    ) by {
                        if i < before.len() {
                            assert(rows@[i] == before[i]);
                            assert(rows@.take(i) =~= before.take(i));
                        }
                    }
                    if plan.method@ == "flat"@ {
                        reveal_strlit("flat");
                        reveal_strlit("equal_principal");
                        assert("flat"@.len() != "equal_principal"@.len());
                        split_part_fits(
                            figures.flat_interest as int,
                            count as int,
                            sequence as int,
                        );
                    }
                }
                owed = owed - row.principal;
                proof {
                    match payments_from(
                        principal as int,
                        *plan,
                        terms,
                        sequence + 1,
                        owed as int,
                    ) {
                        Ok(rest) => {
                            assert(before + (seq![row] + rest) =~= rows@ + rest);
                        },
                        Err(_) => {},
                    }
                }
            },
        }
        sequence = sequence + 1;
    }
    proof {
        assert(rows@ + Seq::<ScheduleAmount>::empty() =~= rows@);
    }
    if owed != 0 {
        return Err(bad_request("无法生成完整的分期本金计划"));
    }
    proof {
        parts_add_up(figures.flat_interest as int, count as int, 1, 1);
    }
    Ok(rows)
}

/// The interests of the payments of a list in all.
pub open spec fn interest_sum(rows: Seq<ScheduleAmount>) -> int
    decreases rows.len(),
{
    if rows.len() == 0 {
        0
    } else {
        interest_sum(rows.drop_last()) + rows.last().interest
    }
}

proof fn principal_sum_push(rows: Seq<ScheduleAmount>, row: ScheduleAmount)
    ensures
        principal_sum(rows.push(row)) == principal_sum(rows) + row.principal,
    decreases rows.len(),
{
    if rows.len() == 0 {
        assert(rows.push(row).drop_first() =~= rows);
    } else {
        assert(rows.push(row).drop_first() =~= rows.drop_first().push(row));
        principal_sum_push(rows.drop_first(), row);
    }
}

/// What the payments of a list pay back in all.
pub open spec fn principal_sum(rows: Seq<ScheduleAmount>) -> int
    decreases rows.len(),
{
    if rows.len() == 0 {
        0
    } else {
        rows[0].principal + principal_sum(rows.drop_first())
    }
}

/// The fees of the payments of a list in all.
pub open spec fn fee_sum(rows: Seq<ScheduleAmount>) -> int
    decreases rows.len(),
{
    if rows.len() == 0 {
        0
    } else {
        rows[0].fee + fee_sum(rows.drop_first())
    }
}

/// The parts of an amount from one on, in all.
pub open spec fn parts_from(total: int, count: int, index: int) -> int
    decreases count + 1 - index,
{
    if index > count {
        0
    } else {
        split_part(total, count, index) + parts_from(total, count, index + 1)
    }
}

proof fn parts_from_is(total: int, count: int, index: int)
    requires
        1 <= index <= count + 1,
    ensures
        parts_from(total, count, index) == parts_sum(total, count, count) - parts_sum(
            total,
            count,
            index - 1,
        ),
    decreases count + 1 - index,
{
    if index <= count {
        parts_from_is(total, count, index + 1);
    }
}

proof fn payments_from_law(principal: int, plan: NewPlan, terms: Terms, sequence: int, owed: int)
    requires
        payments_from(principal, plan, terms, sequence, owed) is Ok,
        1 <= sequence <= plan.term_months + 1,
        0 <= principal <= i64::MAX,
        0 <= owed <= principal,
        fits_i64(terms.flat_interest),
        plan.wf(),
    ensures
        ({
            let rows = payments_from(principal, plan, terms, sequence, owed)->Ok_0;
            &&& rows.len() == plan.term_months + 1 - sequence
            &&& principal_sum(rows) == owed
            &&& fee_sum(rows) == parts_from(
                plan.fee as int,
                plan.term_months as int,
                sequence,
            )
            &&& forall|i: int| 0 <= i < rows.len() ==> (#[trigger] rows[i]).sequence == sequence + i
            &&& forall|i: int|
                0 <= i < rows.len() ==> (#[trigger] rows[i]).total == rows[i].principal
                    + rows[i].interest + rows[i].fee
            &&& forall|i: int| 0 <= i < rows.len() ==> 0 <= (#[trigger] rows[i]).principal
        }),
    decreases plan.term_months + 1 - sequence,
{
    if sequence <= plan.term_months {
        let row = payment(principal, plan, terms, sequence, owed)->Ok_0;
        split_part_small(principal, plan.term_months as int, sequence);
        split_part_small(plan.fee as int, plan.term_months as int, sequence);
        split_part_fits(terms.flat_interest, plan.term_months as int, sequence);
        payments_from_law(principal, plan, terms, sequence + 1, owed - row.principal);
        let rest = payments_from(
            principal,
            plan,
            terms,
            sequence + 1,
            owed - row.principal,
        )->Ok_0;
        let rows = seq![row] + rest;
        assert(rows.drop_first() =~= rest);
        assert forall|i: int| 0 <= i < rows.len() implies (#[trigger] rows[i]).sequence == sequence
            + i by {
            if i > 0 {
                assert(rows[i] == rest[i - 1]);
            }
        }
        assert forall|i: int| 0 <= i < rows.len() implies (#[trigger] rows[i]).total
            == rows[i].principal + rows[i].interest + rows[i].fee by {
            if i > 0 {
                assert(rows[i] == rest[i - 1]);
            }
        }
        assert forall|i: int| 0 <= i < rows.len() implies 0 <= (#[trigger] rows[i]).principal by {
            if i > 0 {
                assert(rows[i] == rest[i - 1]);
            }
        }
    }
}

proof fn split_part_small(total: int, count: int, index: int)
    requires
        total >= 0,
        count >= 1,
        index >= 1,
    ensures
        0 <= split_part(total, count, index) <= total,
{
    assert(total == (total / count) * count + total % count && 0 <= total % count < count && 0
        <= total / count <= total) by (nonlinear_arith)
        requires
            total >= 0,
            count >= 1,
    ;
    let q = total / count;
    let rest = total % count;
    if rest > 0 {
        assert(q + 1 <= total) by (nonlinear_arith)
            requires
                total == q * count + rest,
                rest >= 1,
                count >= 2,
                q >= 0,
        ;
    }
}

proof fn split_part_fits(total: int, count: int, index: int)
    requires
        fits_i64(total),
        count >= 1,
        index >= 1,
    ensures
        fits_i64(split_part(total, count, index)),
{
    if total >= 0 {
        split_part_small(total, count, index);
    } else {
        let n = -total;
        assert(n == (n / count) * count + n % count && 0 <= n % count < count && 0 <= n / count
            <= n) by (nonlinear_arith)
            requires
                n >= 0,
                count >= 1,
        ;
        assert((-(n / count)) * count == -((n / count) * count)) by (nonlinear_arith);
    }
}

/// With equal payments or equal parts of the amount, the interest of a payment is the nearest cent
/// to what the payments before it leave owed, times the rate of a month; so the last one bears
/// interest on the last part alone. What is owed is never more than at a payment before, and the
/// interest never rises.
pub proof fn interest_is_on_what_is_owed(
    principal: i64,
    plan: &NewPlan,
    rows: Vec<ScheduleAmount>,
    i: int,
    j: int,
)
    requires
        principal >= 0,
        plan.wf(),
        call_ensures(schedule, (principal, plan), Ok(rows)),
        plan.method@ != "flat"@,
        0 <= i <= j < rows@.len(),
    ensures
        ({
            let owed = principal - principal_sum(rows@.take(i));
            let later = principal - principal_sum(rows@.take(j));
            let rate = plan.annual_rate_bps;
            &&& 0 <= later <= owed <= principal
            &&& -60_000 <= 120_000 * rows@[i].interest - owed * rate <= 60_000
            &&& rows@[j].interest <= rows@[i].interest
            &&& i == 0 ==> owed == principal
            &&& i == rows@.len() - 1 ==> owed == rows@[i].principal
        }),
{
    let count = rows@.len() as int;
    let bps = plan.annual_rate_bps as int;
    schedule_pays_all(principal, *plan);
    let owed = principal - principal_sum(rows@.take(i));
    let later = principal - principal_sum(rows@.take(j));
    principal_sum_grows(rows@, i, j);
    principal_sum_grows(rows@, 0, i);
    principal_sum_grows(rows@, j, count);
    assert(rows@.take(0) =~= Seq::empty());
    assert(rows@.take(count) =~= rows@);
    assert(rows@.take(count) =~= rows@.take(count - 1).push(rows@[count - 1]));
    principal_sum_push(rows@.take(count - 1), rows@[count - 1]);
    let (a, b) = (rows@[i].interest as int, rows@[j].interest as int);
    assert(is_interest(a, owed, bps, 1) && is_interest(b, later, bps, 1));
    assert(owed * bps * 1 == owed * bps);
    if owed == later {
        let terms = terms_of(principal as int, *plan)->Ok_0;
        interests_are(principal as int, *plan, terms, 1, principal as int, i);
        interests_are(principal as int, *plan, terms, 1, principal as int, j);
    } else if bps > 0 {
        assert(later * bps < owed * bps) by (nonlinear_arith)
            requires
                later < owed,
                bps > 0,
        ;
    } else {
        assert(owed * bps == 0 && later * bps == 0) by (nonlinear_arith)
            requires
                bps == 0,
        ;
    }
}

proof fn principal_sum_grows(rows: Seq<ScheduleAmount>, i: int, j: int)
    requires
        0 <= i <= j <= rows.len(),
        forall|k: int| 0 <= k < rows.len() ==> 0 <= (#[trigger] rows[k]).principal,
    ensures
        principal_sum(rows.take(i)) <= principal_sum(rows.take(j)),
    decreases j - i,
{
    if i < j {
        principal_sum_grows(rows, i, j - 1);
        assert(rows.take(j) =~= rows.take(j - 1).push(rows[j - 1]));
        principal_sum_push(rows.take(j - 1), rows[j - 1]);
    }
}

proof fn interests_are(
    principal: int,
    plan: NewPlan,
    terms: Terms,
    sequence: int,
    owed: int,
    i: int,
)
    requires
        payments_from(principal, plan, terms, sequence, owed) is Ok,
        plan.method@ != "flat"@,
        0 <= i < payments_from(principal, plan, terms, sequence, owed)->Ok_0.len(),
    ensures
        ({
            let rows = payments_from(principal, plan, terms, sequence, owed)->Ok_0;
            month_interest(owed - principal_sum(rows.take(i)), terms.monthly_rate) == Ok::<
                int,
                ErrorView,
            >(rows[i].interest as int)
        }),
    decreases plan.term_months + 1 - sequence,
{
    let rows = payments_from(principal, plan, terms, sequence, owed)->Ok_0;
    let row = payment(principal, plan, terms, sequence, owed)->Ok_0;
    if i == 0 {
        assert(rows.take(0) =~= Seq::empty());
    } else {
        interests_are(principal, plan, terms, sequence + 1, owed - row.principal, i - 1);
        let rest = payments_from(
            principal,
            plan,
            terms,
            sequence + 1,
            owed - row.principal,
        )->Ok_0;
        assert(rows.take(i).drop_first() =~= rest.take(i - 1));
        assert(rows.take(i)[0] == row);
    }
}

/// What a payment pays back of what is owed when the payments are equal: what the interest leaves
/// of the payment, but not less than nothing and not more than is owed.
pub open spec fn left_of(payment: int, interest: int, owed: int) -> int {
    if payment <= interest {
        0
    } else if payment - interest <= owed {
        payment - interest
    } else {
        owed
    }
}

/// With equal payments there is one amount that every payment but the last comes to, its fee aside,
/// as long as it covers the interest and so much is still owed; and this amount pays the whole back
/// in the months of the plan.
pub proof fn equal_payments_are_equal(principal: i64, plan: &NewPlan, rows: Vec<ScheduleAmount>)
    requires
        principal >= 0,
        plan.wf(),
        call_ensures(schedule, (principal, plan), Ok(rows)),
        plan.method@ == "equal_payment"@,
    ensures
        exists|payment: int| #[trigger]
            is_annuity(
                payment,
                principal as int,
                plan.annual_rate_bps as int,
                plan.term_months as int,
            ) && forall|i: int|
                0 <= i < rows@.len() - 1 ==> (#[trigger] rows@[i]).principal == left_of(
                    payment,
                    rows@[i].interest as int,
                    principal - principal_sum(rows@.take(i)),
                ),
{
    let terms = terms_of(principal as int, *plan)->Ok_0;
    schedule_pays_all(principal, *plan);
    assert(is_annuity(
        terms.payment,
        principal as int,
        plan.annual_rate_bps as int,
        plan.term_months as int,
    ));
    assert forall|i: int| 0 <= i < rows@.len() - 1 implies (#[trigger] rows@[i]).principal
        == left_of(
        terms.payment,
        rows@[i].interest as int,
        principal - principal_sum(rows@.take(i)),
    ) by {
        equal_rows_are(principal as int, *plan, terms, 1, principal as int, i);
    }
}

proof fn equal_rows_are(
    principal: int,
    plan: NewPlan,
    terms: Terms,
    sequence: int,
    owed: int,
    i: int,
)
    requires
        payments_from(principal, plan, terms, sequence, owed) is Ok,
        plan.method@ == "equal_payment"@,
        plan.wf(),
        0 <= owed <= principal <= i64::MAX,
        1 <= sequence,
        fits_i64(terms.flat_interest),
        0 <= i < payments_from(principal, plan, terms, sequence, owed)->Ok_0.len() - 1,
    ensures
        ({
            let rows = payments_from(principal, plan, terms, sequence, owed)->Ok_0;
            rows[i].principal == left_of(
                terms.payment,
                rows[i].interest as int,
                owed - principal_sum(rows.take(i)),
            )
        }),
    decreases plan.term_months + 1 - sequence,
{
    reveal_strlit("flat");
    reveal_strlit("equal_principal");
    reveal_strlit("equal_payment");
    assert("flat"@.len() == 4 && "equal_principal"@.len() == 15 && "equal_payment"@.len() == 13);
    let rows = payments_from(principal, plan, terms, sequence, owed)->Ok_0;
    let row = payment(principal, plan, terms, sequence, owed)->Ok_0;
    let rest = payments_from(principal, plan, terms, sequence + 1, owed - row.principal)->Ok_0;
    payments_from_law(principal, plan, terms, sequence, owed);
    assert(rows == seq![row] + rest);
    if i == 0 {
        assert(rows.take(0) =~= Seq::empty());
    } else {
        equal_rows_are(principal, plan, terms, sequence + 1, owed - row.principal, i - 1);
        assert(rows.take(i).drop_first() =~= rest.take(i - 1));
        assert(rows.take(i)[0] == row);
    }
}

/// With equal parts of the amount, and with flat interest, no two payments pay back parts that differ
/// by more than one cent. The parts of the fee never differ by more, and the payments are due month
/// by month from the first day on.
pub proof fn payments_are_even(
    principal: i64,
    plan: &NewPlan,
    rows: Vec<ScheduleAmount>,
    i: int,
    j: int,
)
    requires
        principal >= 0,
        plan.wf(),
        call_ensures(schedule, (principal, plan), Ok(rows)),
        0 <= i < rows@.len(),
        0 <= j < rows@.len(),
    ensures
        plan.method@ != "equal_payment"@ ==> -1 <= rows@[i].principal - rows@[j].principal <= 1,
        -1 <= rows@[i].fee - rows@[j].fee <= 1,
        i == 0 ==> rows@[i].due_date == plan.first_due_date,
        plus_months(plan.first_due_date, i) == Some(rows@[i].due_date),
{
    let terms = terms_of(principal as int, *plan)->Ok_0;
    let count = plan.term_months as int;
    parts_from_is(principal as int, count, 1);
    parts_add_up(principal as int, count, i + 1, j + 1);
    parts_add_up(plan.fee as int, count, i + 1, j + 1);
    even_rows_are(principal as int, *plan, terms, 1, principal as int, i);
    even_rows_are(principal as int, *plan, terms, 1, principal as int, j);
}

proof fn parts_from_covers(total: int, count: int, index: int)
    requires
        total >= 0,
        count >= 1,
        1 <= index <= count + 1,
    ensures
        parts_from(total, count, index) >= 0,
        index <= count ==> parts_from(total, count, index) >= split_part(total, count, index) >= 0,
    decreases count + 1 - index,
{
    if index <= count {
        parts_from_covers(total, count, index + 1);
        split_part_small(total, count, index);
    }
}

proof fn even_rows_are(
    principal: int,
    plan: NewPlan,
    terms: Terms,
    sequence: int,
    owed: int,
    i: int,
)
    requires
        payments_from(principal, plan, terms, sequence, owed) is Ok,
        plan.wf(),
        0 <= owed <= principal <= i64::MAX,
        1 <= sequence <= plan.term_months + 1,
        fits_i64(terms.flat_interest),
        plan.method@ != "equal_payment"@ ==> owed == parts_from(
            principal,
            plan.term_months as int,
            sequence,
        ),
        0 <= i < payments_from(principal, plan, terms, sequence, owed)->Ok_0.len(),
    ensures
        ({
            let rows = payments_from(principal, plan, terms, sequence, owed)->Ok_0;
            let count = plan.term_months as int;
            &&& plan.method@ != "equal_payment"@ ==> rows[i].principal == split_part(
                principal,
                count,
                sequence + i,
            )
            &&& rows[i].fee == split_part(plan.fee as int, count, sequence + i)
            &&& plus_months(plan.first_due_date, sequence + i - 1) == Some(rows[i].due_date)
        }),
    decreases plan.term_months + 1 - sequence,
{
    let count = plan.term_months as int;
    let rows = payments_from(principal, plan, terms, sequence, owed)->Ok_0;
    let row = payment(principal, plan, terms, sequence, owed)->Ok_0;
    let rest = payments_from(principal, plan, terms, sequence + 1, owed - row.principal)->Ok_0;
    payments_from_law(principal, plan, terms, sequence, owed);
    parts_from_covers(principal, count, sequence);
    split_part_small(principal, count, sequence);
    split_part_small(plan.fee as int, count, sequence);
    split_part_fits(terms.flat_interest, count, sequence);
    assert(rows == seq![row] + rest);
    assert(rows[0] == row);
    assert(row.principal >= 0);
    principal_sum_front(rows);
    if i > 0 {
        even_rows_are(principal, plan, terms, sequence + 1, owed - row.principal, i - 1);
        assert(rows[i] == rest[i - 1]);
    }
}

proof fn principal_sum_front(rows: Seq<ScheduleAmount>)
    requires
        rows.len() > 0,
        forall|k: int| 0 <= k < rows.len() ==> 0 <= (#[trigger] rows[k]).principal,
    ensures
        rows[0].principal <= principal_sum(rows),
{
    assert(rows.take(1).drop_first() =~= Seq::empty());
    assert(rows.take(rows.len() as int) =~= rows);
    reveal_with_fuel(principal_sum, 3);
    assert(rows.take(1)[0] == rows[0]);
    principal_sum_grows(rows, 1, rows.len() as int);
}

/// With flat interest the whole amount bears interest all the time: the interests of all payments
/// are together the nearest cent to the amount times the rate of a month times the months.
pub proof fn flat_interest_is_on_the_whole(
    principal: i64,
    plan: &NewPlan,
    rows: Vec<ScheduleAmount>,
)
    requires
        principal >= 0,
        plan.wf(),
        call_ensures(schedule, (principal, plan), Ok(rows)),
        plan.method@ == "flat"@,
    ensures
        -60_000 <= 120_000 * interest_sum(rows@) - principal * plan.annual_rate_bps
            * plan.term_months <= 60_000,
{
}

/// A schedule pays back exactly the amount and charges exactly the fee, in as many payments as
/// the plan has months, numbered from one; each payment is the sum of its parts, and none pays
/// back less than nothing.
pub proof fn schedule_pays_all(principal: i64, plan: NewPlan)
    requires
        principal >= 0,
        plan.wf(),
        payments(principal as int, plan) is Ok,
    ensures
        ({
            let rows = payments(principal as int, plan)->Ok_0;
            &&& rows.len() == plan.term_months
            &&& principal_sum(rows) == principal
            &&& fee_sum(rows) == plan.fee
            &&& forall|i: int| 0 <= i < rows.len() ==> (#[trigger] rows[i]).sequence == i + 1
            &&& forall|i: int|
                0 <= i < rows.len() ==> (#[trigger] rows[i]).total == rows[i].principal
                    + rows[i].interest + rows[i].fee
            &&& forall|i: int| 0 <= i < rows.len() ==> 0 <= (#[trigger] rows[i]).principal
        }),
{
    let terms = terms_of(principal as int, plan)->Ok_0;
    payments_from_law(principal as int, plan, terms, 1, principal as int);
    parts_from_is(plan.fee as int, plan.term_months as int, 1);
    parts_add_up(plan.fee as int, plan.term_months as int, 1, 1);
}

/// The rows that store a plan: the plan and its payments. The payments carry no plan's number
/// until the plan has one.
pub struct PlanRows {
    pub plan: installment_plan::Model,
    pub amounts: Vec<ScheduleAmount>,
}

/// Makes the plan of an expense and its payments.
pub fn create_plan(
    dek: &Dek,
    bill_id: i64,
    account_id: i64,
    principal: i64,
    input: NewPlan,
    now: DateTime,
) -> (r: HandlerResult<PlanRows>)
    requires
        principal >= 0,
        input.wf(),
    ensures
        match (r, payments(principal as int, input)) {
            (Ok(rows), Ok(amounts)) => {
                &&& rows.amounts@ == amounts
                &&& rows.plan.bill_id == bill_id
                &&& rows.plan.account_id == account_id
                &&& rows.plan.term_months == input.term_months
                &&& rows.plan.method@ == input.method@
                &&& cents(dek@, rows.plan.annual_rate_bps@) == input.annual_rate_bps
                &&& cents(dek@, rows.plan.fee@) == input.fee
                &&& rows.plan.first_due_date == input.first_due_date
                &&& rows.plan.created_at == now
                &&& input.method@ != "flat"@ ==> forall|i: int|
                    0 <= i < rows.amounts@.len() ==> is_interest(
                        (#[trigger] rows.amounts@[i]).interest as int,
                        principal - principal_sum(rows.amounts@.take(i)),
                        input.annual_rate_bps as int,
                        1,
                    )
                &&& input.method@ == "flat"@ ==> is_interest(
                    interest_sum(rows.amounts@),
                    principal as int,
                    input.annual_rate_bps as int,
                    input.term_months as int,
                )
            },
            (Err(error), Err(wanted)) => error@ == wanted,
            _ => false,
        },
{
    match schedule(principal, &input) {
        Err(error) => Err(error),
        Ok(amounts) => Ok(
            PlanRows {
                plan: installment_plan::Model {
                    id: 0,
                    bill_id,
                    account_id,
                    term_months: input.term_months,
                    annual_rate_bps: encrypt_cents(dek, input.annual_rate_bps),
                    fee: encrypt_cents(dek, input.fee),
                    method: input.method,
                    first_due_date: input.first_due_date,
                    created_at: now,
                },
                amounts,
            },
        ),
    }
}

/// The row of a payment holds these values.
pub open spec fn is_item(
    item: installment_item::Model,
    dek: Seq<u8>,
    plan_id: i64,
    amount: ScheduleAmount,
    now: DateTime,
) -> bool {
    &&& item.plan_id == plan_id
    &&& item.sequence == amount.sequence
    &&& item.due_date == amount.due_date
    &&& cents(dek, item.principal@) == amount.principal
    &&& cents(dek, item.interest@) == amount.interest
    &&& cents(dek, item.fee@) == amount.fee
    &&& cents(dek, item.total@) == amount.total
    &&& item.paid_at is None
    &&& item.repayment_account_id is None
    &&& item.principal_transfer_id is None
    &&& item.charge_bill_id is None
    &&& item.created_at == now
}

/// The rows that store the payments of a plan, none of them paid.
pub fn plan_items(dek: &Dek, plan_id: i64, amounts: &Vec<ScheduleAmount>, now: DateTime) -> (r: Vec<
    installment_item::Model,
>)
    ensures
        r@.len() == amounts@.len(),
        forall|i: int|
            0 <= i < r@.len() ==> is_item(#[trigger] r@[i], dek@, plan_id, amounts@[i], now),
{
    let mut items: Vec<installment_item::Model> = Vec::new();
    let mut i: usize = 0;
    while i < amounts.len()
        invariant
            i <= amounts.len(),
            items@.len() == i,
            forall|j: int|
                0 <= j < i ==> is_item(#[trigger] items@[j], dek@, plan_id, amounts@[j], now),
        decreases amounts.len() - i,
    {
        let amount = amounts[i];
        items.push(
            installment_item::Model {
                id: 0,
                plan_id,
                sequence: amount.sequence,
                due_date: amount.due_date,
                principal: encrypt_cents(dek, amount.principal),
                interest: encrypt_cents(dek, amount.interest),
                fee: encrypt_cents(dek, amount.fee),
                total: encrypt_cents(dek, amount.total),
                paid_at: None,
                repayment_account_id: None,
                principal_transfer_id: None,
                charge_bill_id: None,
                created_at: now,
            },
        );
        i = i + 1;
    }
    items
}

/// The name of a way to pay.
pub open spec fn method_name(method: Seq<char>) -> Seq<char> {
    if method == "equal_principal"@ {
        "等额本金"@
    } else if method == "flat"@ {
        "等本等息"@
    } else {
        "等额本息"@
    }
}

pub fn method_label(method: &str) -> (r: &'static str)
    ensures
        r@ == method_name(method@),
{
    if same(method, "equal_principal") {
        "等额本金"
    } else if same(method, "flat") {
        "等本等息"
    } else {
        "等额本息"
    }
}

/// The name of a number of months.
pub open spec fn term_name(months: int) -> Seq<char> {
    if months > 24 {
        int_text(months / 12) + " 年（"@ + int_text(months) + " 期月供）"@
    } else {
        int_text(months) + " 期"@
    }
}

pub fn term_label(months: i32) -> (r: String)
    ensures
        r@ == term_name(months as int),
{
    let count = int_to_text(months as i64);
    if months > 24 {
        join4(&int_to_text((months / 12) as i64), " 年（", &count, " 期月供）")
    } else {
        join2(&count, " 期")
    }
}

/// The interest of each payment of a plan, zero for the payments of other plans.
pub open spec fn interests(dek: Seq<u8>, items: Seq<installment_item::Model>, plan: i64) -> Seq<
    int,
> {
    Seq::new(
        items.len(),
        |i: int|
            if items[i].plan_id == plan {
                cents(dek, items[i].interest@)
            } else {
                0
            },
    )
}

/// The fee of each payment of a plan, zero for the payments of other plans.
pub open spec fn fees(dek: Seq<u8>, items: Seq<installment_item::Model>, plan: i64) -> Seq<int> {
    Seq::new(
        items.len(),
        |i: int|
            if items[i].plan_id == plan {
                cents(dek, items[i].fee@)
            } else {
                0
            },
    )
}

/// The total of each payment of a plan, zero for the payments of other plans.
pub open spec fn repayments(dek: Seq<u8>, items: Seq<installment_item::Model>, plan: i64) -> Seq<
    int,
> {
    Seq::new(
        items.len(),
        |i: int|
            if items[i].plan_id == plan {
                cents(dek, items[i].total@)
            } else {
                0
            },
    )
}

/// The total of each payment of a plan that is not paid, zero for all others.
pub open spec fn unpaid(dek: Seq<u8>, items: Seq<installment_item::Model>, plan: i64) -> Seq<int> {
    Seq::new(
        items.len(),
        |i: int|
            if items[i].plan_id == plan && items[i].paid_at is None {
                cents(dek, items[i].total@)
            } else {
                0
            },
    )
}

/// The sums of interest, fee and total over the payments of a plan, or the refusal.
pub open spec fn item_sums(dek: Seq<u8>, items: Seq<installment_item::Model>, plan: i64) -> Result<
    (i64, i64, i64),
    ErrorView,
> {
    match (
        checked_total(interests(dek, items, plan)),
        checked_total(fees(dek, items, plan)),
        checked_total(repayments(dek, items, plan)),
    ) {
        (Some(a), Some(b), Some(c)) => Ok((a as i64, b as i64, c as i64)),
        _ => Err(bad("分期金额超出范围"@)),
    }
}

/// The sums of interest, fee and total over the payments of a plan.
pub fn sum_items(dek: &Dek, items: &Vec<installment_item::Model>, plan_id: i64) -> (r:
    HandlerResult<(i64, i64, i64)>)
    ensures
        agrees(r, item_sums(dek@, items@, plan_id)),
{
    let ghost a = interests(dek@, items@, plan_id);
    let ghost b = fees(dek@, items@, plan_id);
    let ghost c = repayments(dek@, items@, plan_id);
    let mut interest: i64 = 0;
    let mut fee: i64 = 0;
    let mut sum: i64 = 0;
    let mut i: usize = 0;
    proof {
        assert(a.take(0) =~= Seq::empty());
        assert(b.take(0) =~= Seq::empty());
        assert(c.take(0) =~= Seq::empty());
    }
    while i < items.len()
        invariant
            i <= items.len(),
            a == interests(dek@, items@, plan_id),
            b == fees(dek@, items@, plan_id),
            c == repayments(dek@, items@, plan_id),
            checked_total(a.take(i as int)) == Some(interest as int),
            checked_total(b.take(i as int)) == Some(fee as int),
            checked_total(c.take(i as int)) == Some(sum as int),
        decreases items.len() - i,
    {
        let item = &items[i];
        proof {
            assert(a.take(i + 1).drop_last() =~= a.take(i as int));
            assert(b.take(i + 1).drop_last() =~= b.take(i as int));
            assert(c.take(i + 1).drop_last() =~= c.take(i as int));
        }
        if item.plan_id == plan_id {
            match interest.checked_add(decrypt_cents(dek, &item.interest)) {
                Some(n) => {
                    interest = n;
                },
                None => {
                    proof {
                        checked_total_stops(a, i + 1);
                    }
                    return Err(bad_request("分期金额超出范围"));
                },
            }
            match fee.checked_add(decrypt_cents(dek, &item.fee)) {
                Some(n) => {
                    fee = n;
                },
                None => {
                    proof {
                        checked_total_stops(b, i + 1);
                    }
                    return Err(bad_request("分期金额超出范围"));
                },
            }
            match sum.checked_add(decrypt_cents(dek, &item.total)) {
                Some(n) => {
                    sum = n;
                },
                None => {
                    proof {
                        checked_total_stops(c, i + 1);
                    }
                    return Err(bad_request("分期金额超出范围"));
                },
            }
        }
        i = i + 1;
    }
    proof {
        assert(a.take(a.len() as int) =~= a);
        assert(b.take(b.len() as int) =~= b);
        assert(c.take(c.len() as int) =~= c);
    }
    Ok((interest, fee, sum))
}

/// The number of payments of a plan, of those paid, and of those overdue, among the first `n`.
pub open spec fn progress(items: Seq<installment_item::Model>, plan: i64, today: Date, n: int) -> (
    int,
    int,
    int,
)
    decreases n,
{
    if n <= 0 {
        (0, 0, 0)
    } else {
        let (all, paid, late) = progress(items, plan, today, n - 1);
        let item = items[n - 1];
        if item.plan_id != plan {
            (all, paid, late)
        } else if item.paid_at is Some {
            (all + 1, paid + 1, late)
        } else if item.due_date.days < today.days {
            (all + 1, paid, late + 1)
        } else {
            (all + 1, paid, late)
        }
    }
}

/// The first payment of a plan that is not paid.
pub open spec fn first_unpaid(items: Seq<installment_item::Model>, plan: i64, n: int) -> Option<
    installment_item::Model,
>
    decreases n,
{
    if n <= 0 {
        None
    } else {
        match first_unpaid(items, plan, n - 1) {
            Some(item) => Some(item),
            None => if items[n - 1].plan_id == plan && items[n - 1].paid_at is None {
                Some(items[n - 1])
            } else {
                None
            },
        }
    }
}

/// The next payment of a plan as it is shown.
pub open spec fn next_due_text(
    dek: Seq<u8>,
    items: Seq<installment_item::Model>,
    plan: i64,
    currency: Seq<char>,
    n: int,
) -> Seq<char> {
    match first_unpaid(items, plan, n) {
        Some(item) => date_text(item.due_date) + " · "@ + amount_text(
            cents(dek, item.total@),
            currency,
        ),
        None => "已全部标记还清"@,
    }
}

/// The title of an expense: its category, and its note where it has one.
pub open spec fn bill_title(dek: Seq<u8>, b: crate::entity::bill::Model) -> Seq<char> {
    if plain(dek, b.note@).len() == 0 {
        plain(dek, b.category@)
    } else {
        plain(dek, b.category@) + " · "@ + plain(dek, b.note@)
    }
}

pub fn bill_title_of(dek: &Dek, b: &crate::entity::bill::Model) -> (r: String)
    ensures
        r@ == bill_title(dek@, *b),
{
    let category = decrypt_string(dek, &b.category);
    let note = decrypt_string(dek, &b.note);
    if note.as_str().is_empty() {
        category
    } else {
        join3(&category, " · ", &note)
    }
}

/// One line of the list of plans.
pub struct InstallmentRow {
    pub id: i64,
    pub title: String,
    pub account_name: String,
    pub principal: String,
    pub term: String,
    pub method: String,
    pub annual_rate: String,
    pub total_repayment: String,
    pub remaining: String,
    pub next_due: String,
    pub progress: String,
    pub overdue_count: usize,
}

/// A plan is shown only where its expense and its account are there.
pub open spec fn is_shown(book: Book, plan: installment_plan::Model) -> bool {
    found(book.bills@, plan.bill_id) is Some && found(book.accounts@, plan.account_id) is Some
}

/// The plans that are shown among the first `n`.
pub open spec fn shown_plans(book: Book, plans: Seq<installment_plan::Model>, n: int) -> Seq<
    installment_plan::Model,
>
    decreases n,
{
    if n <= 0 {
        Seq::empty()
    } else if is_shown(book, plans[n - 1]) {
        shown_plans(book, plans, n - 1).push(plans[n - 1])
    } else {
        shown_plans(book, plans, n - 1)
    }
}

/// The sums of a plan are amounts.
pub open spec fn sums_fit(
    dek: Seq<u8>,
    items: Seq<installment_item::Model>,
    plan: i64,
) -> bool {
    item_sums(dek, items, plan) is Ok && checked_total(unpaid(dek, items, plan)) is Some
}

/// The line of a plan shows these values.
pub open spec fn is_plan_row(
    row: InstallmentRow,
    dek: Seq<u8>,
    book: Book,
    masks: Seq<MaskedDetail>,
    items: Seq<installment_item::Model>,
    today: Date,
    plan: installment_plan::Model,
) -> bool {
    let b = found(book.bills@, plan.bill_id)->0;
    let a = found(book.accounts@, plan.account_id)->0;
    let n = items.len() as int;
    let counts = progress(items, plan.id, today, n);
    let sums = item_sums(dek, items, plan.id)->Ok_0;
    &&& row.id == plan.id
    &&& row.title@ == bill_title(dek, b)
    &&& row.account_name@ == display_name(
        dek,
        a,
        found(book.details@, a.id),
        found(masks, a.id),
    )
    &&& row.principal@ == amount_text(cents(dek, b.amount@), a.currency@)
    &&& row.term@ == term_name(plan.term_months as int)
    &&& row.method@ == method_name(plan.method@)
    &&& row.annual_rate@ == cents_text(cents(dek, plan.annual_rate_bps@)) + "%"@
    &&& row.total_repayment@ == amount_text(sums.2 as int, a.currency@)
    &&& row.remaining@ == amount_text(
        checked_total(unpaid(dek, items, plan.id))->0,
        a.currency@,
    )
    &&& row.next_due@ == next_due_text(dek, items, plan.id, a.currency@, n)
    &&& row.progress@ == nat_text(counts.1) + "/"@ + nat_text(counts.0)
    &&& row.overdue_count == counts.2
}

/// How far a plan has been paid.
struct PlanState {
    remaining: i64,
    all: usize,
    paid: usize,
    overdue: usize,
    next_due: String,
}

fn plan_state(
    dek: &Dek,
    items: &Vec<installment_item::Model>,
    plan_id: i64,
    currency: &str,
    today: Date,
) -> (r: HandlerResult<PlanState>)
    ensures
        match (r, checked_total(unpaid(dek@, items@, plan_id))) {
            (Ok(state), Some(sum)) => {
                &&& state.remaining == sum
                &&& progress(items@, plan_id, today, items@.len() as int) == (
                    state.all as int,
                    state.paid as int,
                    state.overdue as int,
                )
                &&& state.next_due@ == next_due_text(
                    dek@,
                    items@,
                    plan_id,
                    currency@,
                    items@.len() as int,
                )
            },
            (Err(error), None) => error@ == bad("分期金额超出范围"@),
            _ => false,
        },
{
    let ghost sums = unpaid(dek@, items@, plan_id);
    let mut remaining: i64 = 0;
    let mut all: usize = 0;
    let mut paid: usize = 0;
    let mut overdue: usize = 0;
    let mut next_due: String = "已全部标记还清".to_owned();
    let mut open = true;
    let mut i: usize = 0;
    proof {
        assert(sums.take(0) =~= Seq::empty());
    }
    while i < items.len()
        invariant
            i <= items.len(),
            sums == unpaid(dek@, items@, plan_id),
            checked_total(sums.take(i as int)) == Some(remaining as int),
            all <= i,
            paid <= i,
            overdue <= i,
            progress(items@, plan_id, today, i as int) == (
                all as int,
                paid as int,
                overdue as int,
            ),
            open == (first_unpaid(items@, plan_id, i as int) is None),
            next_due@ == next_due_text(dek@, items@, plan_id, currency@, i as int),
        decreases items.len() - i,
    {
        let item = &items[i];
        proof {
            assert(sums.take(i + 1).drop_last() =~= sums.take(i as int));
        }
        if item.plan_id == plan_id {
            all = all + 1;
            if item.paid_at.is_some() {
                paid = paid + 1;
            } else {
                let amount: i64 = decrypt_cents(dek, &item.total);
                match remaining.checked_add(amount) {
                    Some(n) => {
                        remaining = n;
                    },
                    None => {
                        proof {
                            checked_total_stops(sums, i + 1);
                        }
                        return Err(bad_request("分期金额超出范围"));
                    },
                }
                if open {
                    next_due = join3(
                        &date_to_text(item.due_date),
                        " · ",
                        &crate::currency::format(amount, currency),
                    );
                    open = false;
                }
                if item.due_date.days < today.days {
                    overdue = overdue + 1;
                }
            }
        }
        i = i + 1;
    }
    proof {
        assert(sums.take(sums.len() as int) =~= sums);
    }
    Ok(PlanState { remaining, all, paid, overdue, next_due })
}

/// The list of plans: what each costs, how far it has been paid and what is due next.
pub fn list(
    dek: &Dek,
    book: &Book,
    masks: &Vec<MaskedDetail>,
    plans: &Vec<installment_plan::Model>,
    items: &Vec<installment_item::Model>,
    today: Date,
) -> (r: HandlerResult<Vec<InstallmentRow>>)
    ensures
        ({
            let shown = shown_plans(*book, plans@, plans@.len() as int);
            match r {
                Ok(rows) => {
                    &&& rows@.len() == shown.len()
                    &&& forall|i: int|
                        0 <= i < rows@.len() ==> sums_fit(dek@, items@, (#[trigger] shown[i]).id)
                    &&& forall|i: int|
                        0 <= i < rows@.len() ==> is_plan_row(
                            #[trigger] rows@[i],
                            dek@,
                            *book,
                            masks@,
                            items@,
                            today,
                            shown[i],
                        )
                },
                Err(error) => error@ == bad("分期金额超出范围"@) && exists|i: int|
                    0 <= i < shown.len() && !sums_fit(dek@, items@, (#[trigger] shown[i]).id),
            }
        }),
{
    let ghost shown = shown_plans(*book, plans@, plans@.len() as int);
    let mut rows: Vec<InstallmentRow> = Vec::new();
    let mut k: usize = 0;
    while k < plans.len()
        invariant
            k <= plans.len(),
            shown == shown_plans(*book, plans@, plans@.len() as int),
            rows@.len() == shown_plans(*book, plans@, k as int).len(),
            forall|i: int|
                0 <= i < rows@.len() ==> sums_fit(
                    dek@,
                    items@,
                    (#[trigger] shown_plans(*book, plans@, k as int)[i]).id,
                ),
            forall|i: int|
                0 <= i < rows@.len() ==> is_plan_row(
                    #[trigger] rows@[i],
                    dek@,
                    *book,
                    masks@,
                    items@,
                    today,
                    shown_plans(*book, plans@, k as int)[i],
                ),
        decreases plans.len() - k,
    {
        let plan = &plans[k];
        let ghost before = shown_plans(*book, plans@, k as int);
        let bill = find(&book.bills, plan.bill_id);
        let account = find(&book.accounts, plan.account_id);
        if let (Some(bill), Some(account)) = (bill, account) {
            proof {
                shown_plans_extend(*book, plans@, k + 1, plans@.len() as int);
                assert(shown_plans(*book, plans@, k + 1) == before.push(*plan));
                assert(shown[before.len() as int] == *plan);
            }
            let sums = match sum_items(dek, items, plan.id) {
                Ok(sums) => sums,
                Err(error) => {
                    proof {
                        assert(!sums_fit(dek@, items@, shown[before.len() as int].id));
                    }
                    return Err(error);
                },
            };
            let state = match plan_state(dek, items, plan.id, &account.currency, today) {
                Ok(state) => state,
                Err(error) => {
                    proof {
                        assert(!sums_fit(dek@, items@, shown[before.len() as int].id));
                    }
                    return Err(error);
                },
            };
            let c = &account.currency;
            let name = account_display_name(
                dek,
                account,
                find(&book.details, account.id),
                find(masks, account.id),
            );
            let principal = crate::currency::format(decrypt_cents(dek, &bill.amount), c);
            let rate = join2(&fmt_cents(decrypt_cents(dek, &plan.annual_rate_bps)), "%");
            let progress_text = join3(
                &nat_to_text(state.paid as u128),
                "/",
                &nat_to_text(state.all as u128),
            );
            let row = InstallmentRow {
                id: plan.id,
                title: bill_title_of(dek, bill),
                account_name: name,
                principal,
                term: term_label(plan.term_months),
                method: method_label(&plan.method).to_owned(),
                annual_rate: rate,
                total_repayment: crate::currency::format(sums.2, c),
                remaining: crate::currency::format(state.remaining, c),
                next_due: state.next_due,
                progress: progress_text,
                overdue_count: state.overdue,
            };
            proof {
                assert(is_plan_row(row, dek@, *book, masks@, items@, today, *plan));
            }
            rows.push(row);
        }
        k = k + 1;
    }
    Ok(rows)
}

/// The plans shown among more are those shown among fewer, and then some.
proof fn shown_plans_extend(book: Book, plans: Seq<installment_plan::Model>, m: int, n: int)
    requires
        0 <= m <= n,
    ensures
        shown_plans(book, plans, m).len() <= shown_plans(book, plans, n).len(),
        forall|i: int|
            0 <= i < shown_plans(book, plans, m).len() ==> shown_plans(book, plans, m)[i]
                == #[trigger] shown_plans(book, plans, n)[i],
    decreases n,
{
    if m < n {
        shown_plans_extend(book, plans, m, n - 1);
    }
}

/// One line of the schedule of a plan.
pub struct ScheduleRow {
    pub id: i64,
    pub sequence: i32,
    pub due_date: String,
    pub principal: String,
    pub interest: String,
    pub fee: String,
    pub total: String,
    pub paid: bool,
    pub overdue: bool,
}

/// The line of a payment shows these values.
pub open spec fn is_schedule_row(
    row: ScheduleRow,
    dek: Seq<u8>,
    item: installment_item::Model,
    currency: Seq<char>,
    today: Date,
) -> bool {
    &&& row.id == item.id
    &&& row.sequence == item.sequence
    &&& row.due_date@ == date_text(item.due_date)
    &&& row.principal@ == amount_text(cents(dek, item.principal@), currency)
    &&& row.interest@ == amount_text(cents(dek, item.interest@), currency)
    &&& row.fee@ == amount_text(cents(dek, item.fee@), currency)
    &&& row.total@ == amount_text(cents(dek, item.total@), currency)
    &&& row.paid == (item.paid_at is Some)
    &&& row.overdue == (item.paid_at is None && item.due_date.days < today.days)
}

/// The payments of a plan among the first `n`.
pub open spec fn items_of(items: Seq<installment_item::Model>, plan: i64, n: int) -> Seq<
    installment_item::Model,
>
    decreases n,
{
    if n <= 0 {
        Seq::empty()
    } else if items[n - 1].plan_id == plan {
        items_of(items, plan, n - 1).push(items[n - 1])
    } else {
        items_of(items, plan, n - 1)
    }
}

/// The page of a plan.
pub struct InstallmentDetail {
    pub title: String,
    pub account_name: String,
    pub currency: String,
    pub principal: String,
    pub term: String,
    pub method: String,
    pub annual_rate: String,
    pub total_interest: String,
    pub total_fee: String,
    pub total_repayment: String,
    pub first_due_date: String,
    pub schedule: Vec<ScheduleRow>,
}

impl Row for installment_plan::Model {
    open spec fn key(&self) -> i64 {
        self.id
    }

    fn row_key(&self) -> i64 {
        self.id
    }
}

impl Row for installment_item::Model {
    open spec fn key(&self) -> i64 {
        self.id
    }

    fn row_key(&self) -> i64 {
        self.id
    }
}

/// Why the page of a plan cannot be shown, where it cannot.
pub open spec fn detail_refusal(
    dek: Seq<u8>,
    book: Book,
    plans: Seq<installment_plan::Model>,
    items: Seq<installment_item::Model>,
    id: i64,
) -> Option<ErrorView> {
    match found(plans, id) {
        None => Some(missing("分期计划不存在"@)),
        Some(plan) => if found(book.bills@, plan.bill_id) is None {
            Some(internal("分期计划关联的账单不存在"@))
        } else if found(book.accounts@, plan.account_id) is None {
            Some(internal("分期计划关联的账户不存在"@))
        } else {
            match item_sums(dek, items, id) {
                Err(e) => Some(e),
                Ok(_) => None,
            }
        },
    }
}

/// The page of a plan shows these values.
pub open spec fn is_plan_detail(
    page: InstallmentDetail,
    dek: Seq<u8>,
    book: Book,
    masks: Seq<MaskedDetail>,
    plan: installment_plan::Model,
    items: Seq<installment_item::Model>,
    today: Date,
) -> bool {
    let b = found(book.bills@, plan.bill_id)->0;
    let a = found(book.accounts@, plan.account_id)->0;
    let c = a.currency@;
    let sums = item_sums(dek, items, plan.id)->Ok_0;
    let own = items_of(items, plan.id, items.len() as int);
    &&& page.title@ == bill_title(dek, b)
    &&& page.account_name@ == display_name(dek, a, found(book.details@, a.id), found(masks, a.id))
    &&& page.currency@ == c
    &&& page.principal@ == amount_text(cents(dek, b.amount@), c)
    &&& page.term@ == term_name(plan.term_months as int)
    &&& page.method@ == method_name(plan.method@)
    &&& page.annual_rate@ == cents_text(cents(dek, plan.annual_rate_bps@)) + "%"@
    &&& page.total_interest@ == amount_text(sums.0 as int, c)
    &&& page.total_fee@ == amount_text(sums.1 as int, c)
    &&& page.total_repayment@ == amount_text(sums.2 as int, c)
    &&& page.first_due_date@ == date_text(plan.first_due_date)
    &&& page.schedule@.len() == own.len()
    &&& forall|i: int|
        0 <= i < own.len() ==> is_schedule_row(
            #[trigger] page.schedule@[i],
            dek,
            own[i],
            c,
            today,
        )
}

/// The page of a plan: what it costs and each of its payments.
pub fn detail(
    dek: &Dek,
    book: &Book,
    masks: &Vec<MaskedDetail>,
    plans: &Vec<installment_plan::Model>,
    items: &Vec<installment_item::Model>,
    id: i64,
    today: Date,
) -> (r: HandlerResult<InstallmentDetail>)
    ensures
        match r {
            Ok(page) => detail_refusal(dek@, *book, plans@, items@, id) is None && is_plan_detail(
                page,
                dek@,
                *book,
                masks@,
                found(plans@, id)->0,
                items@,
                today,
            ),
            Err(error) => detail_refusal(dek@, *book, plans@, items@, id) == Some(error@),
        },
{
    let plan = match find(plans, id) {
        Some(plan) => plan,
        None => return Err(not_found("分期计划不存在")),
    };
    proof {
        crate::book::found_is_row(plans@, id);
    }
    let bill = match find(&book.bills, plan.bill_id) {
        Some(bill) => bill,
        None => return Err(err500("分期计划关联的账单不存在")),
    };
    let account = match find(&book.accounts, plan.account_id) {
        Some(account) => account,
        None => return Err(err500("分期计划关联的账户不存在")),
    };
    let sums = match sum_items(dek, items, id) {
        Ok(sums) => sums,
        Err(error) => return Err(error),
    };
    let c = &account.currency;
    let mut rows: Vec<ScheduleRow> = Vec::new();
    let mut i: usize = 0;
    while i < items.len()
        invariant
            i <= items.len(),
            rows@.len() == items_of(items@, id, i as int).len(),
            forall|j: int|
                0 <= j < rows@.len() ==> is_schedule_row(
                    #[trigger] rows@[j],
                    dek@,
                    items_of(items@, id, i as int)[j],
                    c@,
                    today,
                ),
        decreases items.len() - i,
    {
        let item = &items[i];
        if item.plan_id == id {
            rows.push(
                ScheduleRow {
                    id: item.id,
                    sequence: item.sequence,
                    due_date: date_to_text(item.due_date),
                    principal: crate::currency::format(decrypt_cents(dek, &item.principal), c),
                    interest: crate::currency::format(decrypt_cents(dek, &item.interest), c),
                    fee: crate::currency::format(decrypt_cents(dek, &item.fee), c),
                    total: crate::currency::format(decrypt_cents(dek, &item.total), c),
                    paid: item.paid_at.is_some(),
                    overdue: item.paid_at.is_none() && item.due_date.days < today.days,
                },
            );
        }
        i = i + 1;
    }
    let name = account_display_name(
        dek,
        account,
        find(&book.details, account.id),
        find(masks, account.id),
    );
    Ok(
        InstallmentDetail {
            title: bill_title_of(dek, bill),
            account_name: name,
            currency: account.currency.clone(),
            principal: crate::currency::format(decrypt_cents(dek, &bill.amount), c),
            term: term_label(plan.term_months),
            method: method_label(&plan.method).to_owned(),
            annual_rate: join2(&fmt_cents(decrypt_cents(dek, &plan.annual_rate_bps)), "%"),
            total_interest: crate::currency::format(sums.0, c),
            total_fee: crate::currency::format(sums.1, c),
            total_repayment: crate::currency::format(sums.2, c),
            first_due_date: date_to_text(plan.first_due_date),
            schedule: rows,
        },
    )
}

/// Marks a payment as paid or as not paid: the time to store for it, and where to go next.
pub fn set_paid(
    items: &Vec<installment_item::Model>,
    id: i64,
    form: &PaidFormData,
    now: DateTime,
) -> (r: HandlerResult<(Option<DateTime>, String)>)
    ensures
        match (r, found(items@, id)) {
            (Ok((paid_at, target)), Some(item)) => paid_at == (if form.paid {
                Some(now)
            } else {
                None
            }) && target@ == "/installments/"@ + int_text(item.plan_id as int),
            (Err(error), None) => error@ == missing("分期期次不存在"@),
            _ => false,
        },
{
    match find(items, id) {
        None => Err(not_found("分期期次不存在")),
        Some(item) => Ok(
            (
                if form.paid {
                    Some(now)
                } else {
                    None
                },
                join2("/installments/", &int_to_text(item.plan_id)),
            ),
        ),
    }
}

/// What a plan costs are its own payments together: their interest, their fees and their totals.
pub proof fn plan_costs_its_payments(
    dek: &Dek,
    items: &Vec<installment_item::Model>,
    plan_id: i64,
    sums: (i64, i64, i64),
)
    requires
        call_ensures(sum_items, (dek, items, plan_id), Ok(sums)),
    ensures
        ({
            let key = dek@;
            &&& sums.0 == total(
                items@.map_values(
                    |x: installment_item::Model|
                        if x.plan_id == plan_id {
                            cents(key, x.interest@)
                        } else {
                            0
                        },
                ),
            )
            &&& sums.1 == total(
                items@.map_values(
                    |x: installment_item::Model|
                        if x.plan_id == plan_id {
                            cents(key, x.fee@)
                        } else {
                            0
                        },
                ),
            )
            &&& sums.2 == total(
                items@.map_values(
                    |x: installment_item::Model|
                        if x.plan_id == plan_id {
                            cents(key, x.total@)
                        } else {
                            0
                        },
                ),
            )
        }),
{
    let key = dek@;
    assert(interests(key, items@, plan_id) =~= items@.map_values(
        |x: installment_item::Model|
            if x.plan_id == plan_id {
                cents(key, x.interest@)
            } else {
                0
            },
    ));
    assert(fees(key, items@, plan_id) =~= items@.map_values(
        |x: installment_item::Model|
            if x.plan_id == plan_id {
                cents(key, x.fee@)
            } else {
                0
            },
    ));
    assert(repayments(key, items@, plan_id) =~= items@.map_values(
        |x: installment_item::Model|
            if x.plan_id == plan_id {
                cents(key, x.total@)
            } else {
                0
            },
    ));
    crate::totals::checked_total_is_total(interests(key, items@, plan_id));
    crate::totals::checked_total_is_total(fees(key, items@, plan_id));
    crate::totals::checked_total_is_total(repayments(key, items@, plan_id));
}

/// One for each of the first `n` payments that a plan owns, else nothing; of these only the paid ones,
/// or only those that are not paid though their day is over, where that is asked for.
pub open spec fn payment_marks(
    items: Seq<installment_item::Model>,
    plan: i64,
    today: Date,
    paid: bool,
    late: bool,
    n: int,
) -> Seq<int> {
    Seq::new(
        n as nat,
        |i: int|
            {
                let x = items[i];
                if x.plan_id == plan && (paid ==> x.paid_at is Some) && (late ==> x.paid_at is None
                    && x.due_date.days < today.days) {
                    1int
                } else {
                    0
                }
            },
    )
}

/// A plan counts its own payments: all of them, those that are paid, and those that are not paid
/// though their day is over. A payment is never both paid and overdue.
pub proof fn progress_counts_payments(
    items: Seq<installment_item::Model>,
    plan: i64,
    today: Date,
    n: int,
)
    requires
        0 <= n <= items.len(),
    ensures
        ({
            let (all, paid, late) = progress(items, plan, today, n);
            &&& all == total(payment_marks(items, plan, today, false, false, n))
            &&& paid == total(payment_marks(items, plan, today, true, false, n))
            &&& late == total(payment_marks(items, plan, today, false, true, n))
            &&& 0 <= paid + late <= all
        }),
    decreases n,
{
    if n > 0 {
        progress_counts_payments(items, plan, today, n - 1);
        assert(payment_marks(items, plan, today, false, false, n).drop_last() =~= payment_marks(
            items,
            plan,
            today,
            false,
            false,
            n - 1,
        ));
        assert(payment_marks(items, plan, today, true, false, n).drop_last() =~= payment_marks(
            items,
            plan,
            today,
            true,
            false,
            n - 1,
        ));
        assert(payment_marks(items, plan, today, false, true, n).drop_last() =~= payment_marks(
            items,
            plan,
            today,
            false,
            true,
            n - 1,
        ));
    }
}

/// The next payment of a plan is the first one that is not paid, and there is none only where all are
/// paid.
pub proof fn next_payment_is_first_unpaid(items: Seq<installment_item::Model>, plan: i64, n: int)
    requires
        0 <= n <= items.len(),
    ensures
        match first_unpaid(items, plan, n) {
            Some(item) => exists|k: int|
                0 <= k < n && #[trigger] items[k] == item && item.plan_id == plan && item.paid_at
                    is None && forall|i: int|
                    0 <= i < k && (#[trigger] items[i]).plan_id == plan ==> items[i].paid_at
                        is Some,
            None => forall|i: int|
                0 <= i < n && (#[trigger] items[i]).plan_id == plan ==> items[i].paid_at is Some,
        },
    decreases n,
{
    if n > 0 {
        next_payment_is_first_unpaid(items, plan, n - 1);
        if first_unpaid(items, plan, n - 1) is None && first_unpaid(items, plan, n) is Some {
            assert(items[n - 1] == first_unpaid(items, plan, n)->0);
        }
    }
}

} // verus!
