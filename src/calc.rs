use vstd::prelude::*;
use vstd::string::StringSliceAdditionalSpecFns;

use crate::length::{
    all_within, divided, formula_of, lemma_formula_of_result, scaled, CalcFormula, CalcHandle,
    Length, Unit,
};
use crate::numeric::{floor_div, LIMIT};
use crate::token::{at_end, at_end_exec, next_token, token_at, token_result, Token};

verus! {

/// The value of a `calc()` sub-expression: a plain number or a formula over units.
#[derive(Debug, Clone, Copy, PartialEq, Eq, Structural)]
pub enum CalcValue {
    /// A number without unit, in millionths.
    Number(i64),
    /// A sum of unit quantities.
    Formula(CalcFormula),
}

/// Why a length could not be parsed.
#[derive(Debug, Clone, Copy, PartialEq, Eq, Structural)]
pub enum ParseError {
    /// The input is not a valid length: an unexpected token, a unit mismatch, a division by
    /// zero or by a unit quantity, or a value out of range.
    InvalidLength,
    /// The input is not a valid value of a keyword or percentage property.
    InvalidValue,
}

impl CalcValue {
    /// Numbers and coefficients lie within `[-LIMIT, LIMIT]`.
    pub open spec fn wf(self) -> bool {
        match self {
            CalcValue::Number(n) => -LIMIT <= n <= LIMIT,
            CalcValue::Formula(f) => f.wf(),
        }
    }
}

/// A number, if it lies within `[-LIMIT, LIMIT]`.
pub open spec fn bounded_number(v: int) -> Option<CalcValue> {
    if -LIMIT <= v <= LIMIT {
        Some(CalcValue::Number(v as i64))
    } else {
        None
    }
}

/// A formula value, if the coefficients `c` lie within bounds.
pub open spec fn formula_value(c: spec_fn(Unit) -> int) -> Option<CalcValue> {
    match formula_of(c) {
        Some(f) => Some(CalcValue::Formula(f)),
        None => None,
    }
}

/// `a + b` (or `a - b` when `minus`): numbers add to numbers and formulas to formulas; mixing
/// the two is an error.
pub open spec fn sum_of(a: CalcValue, b: CalcValue, minus: bool) -> Option<CalcValue> {
    match (a, b) {
        (CalcValue::Number(x), CalcValue::Number(y)) => bounded_number(
            if minus {
                x - y
            } else {
                x + y
            },
        ),
        (CalcValue::Formula(f), CalcValue::Formula(g)) => formula_value(
            |u: Unit|
                if minus {
                    f.coeff(u) - g.coeff(u)
                } else {
                    f.coeff(u) + g.coeff(u)
                },
        ),
        _ => None,
    }
}

/// `a * b`: a formula may be scaled by a number, but two formulas do not multiply.
pub open spec fn product_of(a: CalcValue, b: CalcValue) -> Option<CalcValue> {
    match (a, b) {
        (CalcValue::Number(x), CalcValue::Number(y)) => bounded_number(scaled(x as int, y as int)),
        (CalcValue::Formula(f), CalcValue::Number(y)) => formula_value(
            |u: Unit| scaled(f.coeff(u), y as int),
        ),
        (CalcValue::Number(x), CalcValue::Formula(g)) => formula_value(
            |u: Unit| scaled(g.coeff(u), x as int),
        ),
        _ => None,
    }
}

/// `a / b`: only a non-zero number divides.
pub open spec fn quotient_of(a: CalcValue, b: CalcValue) -> Option<CalcValue> {
    match (a, b) {
        (_, CalcValue::Number(0)) => None,
        (CalcValue::Number(x), CalcValue::Number(y)) => bounded_number(divided(x as int, y as int)),
        (CalcValue::Formula(f), CalcValue::Number(y)) => formula_value(
            |u: Unit| divided(f.coeff(u), y as int),
        ),
        _ => None,
    }
}

/// The negation of a value.
pub open spec fn negation_of(a: CalcValue) -> CalcValue {
    match a {
        CalcValue::Number(x) => CalcValue::Number(-x as i64),
        CalcValue::Formula(f) => CalcValue::Formula(
            crate::length::from_coeffs(|u: Unit| -f.coeff(u)),
        ),
    }
}

/// A sum of products at `i` (`product (('+' | '-') product)*`), with the position after it.
pub open spec fn sum_at(s: Seq<u8>, i: int) -> Option<(CalcValue, int)>
    decreases s.len() - i, 3int,
{
    if 0 <= i <= s.len() {
        match product_at(s, i) {
            Some((v, j)) => if i < j <= s.len() {
                sum_rest(s, j, v)
            } else {
                None
            },
            None => None,
        }
    } else {
        None
    }
}

/// The remaining `('+' | '-') product` terms at `i` of a sum whose value so far is `acc`.
pub open spec fn sum_rest(s: Seq<u8>, i: int, acc: CalcValue) -> Option<(CalcValue, int)>
    decreases s.len() - i, 2int,
{
    match token_at(s, i) {
        Some((Token::Delim(d), j)) => if (d == 43 || d == 45) && 0 <= i < j <= s.len() {
            match product_at(s, j) {
                Some((rhs, k)) => match sum_of(acc, rhs, d == 45) {
                    Some(v) => if j < k <= s.len() {
                        sum_rest(s, k, v)
                    } else {
                        None
                    },
                    None => None,
                },
                None => None,
            }
        } else {
            Some((acc, i))
        },
        _ => Some((acc, i)),
    }
}

/// A product of factors at `i` (`factor (('*' | '/') factor)*`), with the position after it.
pub open spec fn product_at(s: Seq<u8>, i: int) -> Option<(CalcValue, int)>
    decreases s.len() - i, 1int,
{
    if 0 <= i <= s.len() {
        match factor_at(s, i) {
            Some((v, j)) => if i < j <= s.len() {
                product_rest(s, j, v)
            } else {
                None
            },
            None => None,
        }
    } else {
        None
    }
}

/// The remaining `('*' | '/') factor` terms at `i` of a product whose value so far is `acc`.
pub open spec fn product_rest(s: Seq<u8>, i: int, acc: CalcValue) -> Option<(CalcValue, int)>
    decreases s.len() - i, 1int,
{
    match token_at(s, i) {
        Some((Token::Delim(d), j)) => if (d == 42 || d == 47) && 0 <= i < j <= s.len() {
            match factor_at(s, j) {
                Some((rhs, k)) => match (if d == 42 {
                    product_of(acc, rhs)
                } else {
                    quotient_of(acc, rhs)
                }) {
                    Some(v) => if j < k <= s.len() {
                        product_rest(s, k, v)
                    } else {
                        None
                    },
                    None => None,
                },
                None => None,
            }
        } else {
            Some((acc, i))
        },
        _ => Some((acc, i)),
    }
}

/// A factor at `i`: a signed factor, a number, a percentage, a dimension, or a nested
/// `calc(...)`, with the position after it.
pub open spec fn factor_at(s: Seq<u8>, i: int) -> Option<(CalcValue, int)>
    decreases s.len() - i, 0int,
{
    match token_at(s, i) {
        Some((t, j)) => if 0 <= i < j <= s.len() {
            match t {
                Token::Delim(43) => factor_at(s, j),
                Token::Delim(45) => match factor_at(s, j) {
                    Some((v, k)) => Some((negation_of(v), k)),
                    None => None,
                },
                Token::Number(v) => Some((CalcValue::Number(v), j)),
                Token::Percentage(v) => Some(
                    (
                        CalcValue::Formula(
                            crate::length::from_coeffs(
                                |u: Unit|
                                    if u == Unit::Percent {
                                        v / 100
                                    } else {
                                        0
                                    },
                            ),
                        ),
                        j,
                    ),
                ),
                Token::Dimension(v, w) => Some(
                    (
                        CalcValue::Formula(
                            crate::length::from_coeffs(
                                |u: Unit|
                                    if u == w {
                                        v as int
                                    } else {
                                        0
                                    },
                            ),
                        ),
                        j,
                    ),
                ),
                Token::CalcOpen => match sum_at(s, j) {
                    Some((v, k)) => match token_at(s, k) {
                        Some((Token::CloseParen, m)) => Some((v, m)),
                        _ => None,
                    },
                    None => None,
                },
                _ => None,
            }
        } else {
            None
        },
        None => None,
    }
}

} // verus!

verus! {

/// Computes `sum_of`.
fn sum_exec(a: CalcValue, b: CalcValue, minus: bool) -> (r: Option<CalcValue>)
    requires
        a.wf(),
        b.wf(),
    ensures
        r == sum_of(a, b, minus),
        r matches Some(v) ==> v.wf(),
{
    match (a, b) {
        (CalcValue::Number(x), CalcValue::Number(y)) => {
            let v = if minus {
                x - y
            } else {
                x + y
            };
            if -LIMIT <= v && v <= LIMIT {
                Some(CalcValue::Number(v))
            } else {
                None
            }
        },
        (CalcValue::Formula(f), CalcValue::Formula(g)) => {
            let ghost c = |u: Unit|
                if minus {
                    f.coeff(u) - g.coeff(u)
                } else {
                    f.coeff(u) + g.coeff(u)
                };
            let r = if minus {
                f.sub(g)
            } else {
                f.add(g)
            };
            match r {
                Some(h) => {
                    proof {
                        lemma_formula_of_result(h, c);
                    }
                    Some(CalcValue::Formula(h))
                },
                None => {
                    proof {
                        assert(!all_within(c));
                    }
                    None
                },
            }
        },
        _ => None,
    }
}

/// Computes `product_of`.
fn product_exec(a: CalcValue, b: CalcValue) -> (r: Option<CalcValue>)
    requires
        a.wf(),
        b.wf(),
    ensures
        r == product_of(a, b),
        r matches Some(v) ==> v.wf(),
{
    match (a, b) {
        (CalcValue::Number(x), CalcValue::Number(y)) => {
            match crate::length::scale_coeff(x, y) {
                Some(v) => Some(CalcValue::Number(v)),
                None => None,
            }
        },
        (CalcValue::Formula(f), CalcValue::Number(y)) => {
            let ghost c = |u: Unit| scaled(f.coeff(u), y as int);
            match f.scale(y) {
                Some(h) => {
                    proof {
                        lemma_formula_of_result(h, c);
                    }
                    Some(CalcValue::Formula(h))
                },
                None => {
                    proof {
                        assert(!all_within(c));
                    }
                    None
                },
            }
        },
        (CalcValue::Number(x), CalcValue::Formula(g)) => {
            let ghost c = |u: Unit| scaled(g.coeff(u), x as int);
            match g.scale(x) {
                Some(h) => {
                    proof {
                        lemma_formula_of_result(h, c);
                    }
                    Some(CalcValue::Formula(h))
                },
                None => {
                    proof {
                        assert(!all_within(c));
                    }
                    None
                },
            }
        },
        _ => None,
    }
}

/// Computes `quotient_of`.
fn quotient_exec(a: CalcValue, b: CalcValue) -> (r: Option<CalcValue>)
    requires
        a.wf(),
        b.wf(),
    ensures
        r == quotient_of(a, b),
        r matches Some(v) ==> v.wf(),
{
    match (a, b) {
        (_, CalcValue::Number(0)) => None,
        (CalcValue::Number(x), CalcValue::Number(y)) => {
            match crate::length::divide_coeff(x, y) {
                Some(v) => Some(CalcValue::Number(v)),
                None => None,
            }
        },
        (CalcValue::Formula(f), CalcValue::Number(y)) => {
            let ghost c = |u: Unit| divided(f.coeff(u), y as int);
            match f.divide(y) {
                Some(h) => {
                    proof {
                        lemma_formula_of_result(h, c);
                    }
                    Some(CalcValue::Formula(h))
                },
                None => {
                    proof {
                        assert(!all_within(c));
                    }
                    None
                },
            }
        },
        _ => None,
    }
}

/// Computes `negation_of`.
fn negation_exec(a: CalcValue) -> (r: CalcValue)
    requires
        a.wf(),
    ensures
        r == negation_of(a),
        r.wf(),
{
    match a {
        CalcValue::Number(x) => CalcValue::Number(-x),
        CalcValue::Formula(f) => {
            let h = f.neg();
            proof {
                let c = |u: Unit| -f.coeff(u);
                assert(all_within(c));
                lemma_formula_of_result(h, c);
            }
            CalcValue::Formula(h)
        },
    }
}

/// The formula holding `value` of unit `unit` alone.
fn single_exec(unit: Unit, value: i64) -> (r: CalcValue)
    requires
        -LIMIT <= value <= LIMIT,
    ensures
        r == CalcValue::Formula(
            crate::length::from_coeffs(
                |u: Unit|
                    if u == unit {
                        value as int
                    } else {
                        0
                    },
            ),
        ),
        r.wf(),
{
    let h = CalcFormula::single(unit, value);
    proof {
        let c = |u: Unit|
            if u == unit {
                value as int
            } else {
                0
            };
        assert(all_within(c));
        lemma_formula_of_result(h, c);
    }
    CalcValue::Formula(h)
}

} // verus!

verus! {

/// Whether `r` is the parse result `expected`, with positions as `usize`.
pub open spec fn value_result(r: Option<(CalcValue, usize)>, expected: Option<(CalcValue, int)>) -> bool {
    match r {
        None => expected is None,
        Some((v, e)) => expected == Some((v, e as int)),
    }
}

/// Parses a sum at `i`.
fn parse_calc_sum(s: &[u8], i: usize) -> (r: Option<(CalcValue, usize)>)
    requires
        i <= s@.len(),
    ensures
        value_result(r, sum_at(s@, i as int)),
        r matches Some((v, e)) ==> i < e <= s@.len() && v.wf(),
    decreases s@.len() - i, 3int,
{
    match parse_calc_product(s, i) {
        Some((v, j)) => parse_sum_rest(s, j, v),
        None => None,
    }
}

/// Parses the remaining terms of a sum at `i`.
fn parse_sum_rest(s: &[u8], i: usize, acc: CalcValue) -> (r: Option<(CalcValue, usize)>)
    requires
        i <= s@.len(),
        acc.wf(),
    ensures
        value_result(r, sum_rest(s@, i as int, acc)),
        r matches Some((v, e)) ==> i <= e <= s@.len() && v.wf(),
    decreases s@.len() - i, 2int,
{
    match next_token(s, i) {
        Some((Token::Delim(d), j)) => {
            if d == 43 || d == 45 {
                match parse_calc_product(s, j) {
                    Some((rhs, k)) => match sum_exec(acc, rhs, d == 45) {
                        Some(v) => parse_sum_rest(s, k, v),
                        None => None,
                    },
                    None => None,
                }
            } else {
                Some((acc, i))
            }
        },
        _ => Some((acc, i)),
    }
}

/// Parses a product at `i`.
fn parse_calc_product(s: &[u8], i: usize) -> (r: Option<(CalcValue, usize)>)
    requires
        i <= s@.len(),
    ensures
        value_result(r, product_at(s@, i as int)),
        r matches Some((v, e)) ==> i < e <= s@.len() && v.wf(),
    decreases s@.len() - i, 1int,
{
    match parse_calc_factor(s, i) {
        Some((v, j)) => parse_product_rest(s, j, v),
        None => None,
    }
}

/// Parses the remaining factors of a product at `i`.
fn parse_product_rest(s: &[u8], i: usize, acc: CalcValue) -> (r: Option<(CalcValue, usize)>)
    requires
        i <= s@.len(),
        acc.wf(),
    ensures
        value_result(r, product_rest(s@, i as int, acc)),
        r matches Some((v, e)) ==> i <= e <= s@.len() && v.wf(),
    decreases s@.len() - i, 1int,
{
    match next_token(s, i) {
        Some((Token::Delim(d), j)) => {
            if d == 42 || d == 47 {
                match parse_calc_factor(s, j) {
                    Some((rhs, k)) => {
                        let combined = if d == 42 {
                            product_exec(acc, rhs)
                        } else {
                            quotient_exec(acc, rhs)
                        };
                        match combined {
                            Some(v) => parse_product_rest(s, k, v),
                            None => None,
                        }
                    },
                    None => None,
                }
            } else {
                Some((acc, i))
            }
        },
        _ => Some((acc, i)),
    }
}

/// Parses a factor at `i`.
fn parse_calc_factor(s: &[u8], i: usize) -> (r: Option<(CalcValue, usize)>)
    requires
        i <= s@.len(),
    ensures
        value_result(r, factor_at(s@, i as int)),
        r matches Some((v, e)) ==> i < e <= s@.len() && v.wf(),
    decreases s@.len() - i, 0int,
{
    match next_token(s, i) {
        None => None,
        Some((t, j)) => match t {
            Token::Delim(43) => parse_calc_factor(s, j),
            Token::Delim(45) => match parse_calc_factor(s, j) {
                Some((v, k)) => Some((negation_exec(v), k)),
                None => None,
            },
            Token::Number(v) => Some((CalcValue::Number(v), j)),
            Token::Percentage(v) => Some((single_exec(Unit::Percent, floor_div(v as i128, 100) as i64), j)),
            Token::Dimension(v, w) => Some((single_exec(w, v), j)),
            Token::CalcOpen => match parse_calc_sum(s, j) {
                Some((v, k)) => match next_token(s, k) {
                    Some((Token::CloseParen, m)) => Some((v, m)),
                    _ => None,
                },
                None => None,
            },
            _ => None,
        },
    }
}

} // verus!

verus! {

/// The length that a lone number token stands for, negated when `negative`.
pub open spec fn token_length(t: Token, negative: bool) -> Option<Length> {
    let sign = if negative {
        -1int
    } else {
        1int
    };
    match t {
        Token::Number(v) => Some(Length::Px((sign * v) as i64)),
        Token::Percentage(v) => Some(Length::Percentage((sign * v) as i64)),
        Token::Dimension(v, u) => {
            let x = (sign * v) as i64;
            match u {
                Unit::Px => Some(Length::Px(x)),
                Unit::Percent => Some(Length::Percentage(x)),
                Unit::Rem => Some(Length::Rem(x)),
                Unit::Em => Some(Length::Em(x)),
                Unit::Vh => Some(Length::Vh(x)),
                Unit::Vw => Some(Length::Vw(x)),
                Unit::Cm => Some(Length::Cm(x)),
                Unit::Mm => Some(Length::Mm(x)),
                Unit::In => Some(Length::In(x)),
                Unit::Q => Some(Length::Q(x)),
                Unit::Pt => Some(Length::Pt(x)),
                Unit::Pc => Some(Length::Pc(x)),
            }
        },
        _ => None,
    }
}

/// The length at `i` (`auto`, a signed number, percentage or dimension, or a `calc(...)`
/// expression, where a plain number is pixels), with the position after it.
pub open spec fn length_at(s: Seq<u8>, i: int) -> Option<(Length, int)> {
    match token_at(s, i) {
        Some((Token::Auto, j)) => Some((Length::Auto, j)),
        Some((Token::CalcOpen, j)) => match sum_at(s, j) {
            Some((v, k)) => match token_at(s, k) {
                Some((Token::CloseParen, m)) => match v {
                    CalcValue::Number(n) => Some((Length::Px(n), m)),
                    CalcValue::Formula(f) => Some((Length::Calc(CalcHandle::Formula(f)), m)),
                },
                _ => None,
            },
            None => None,
        },
        Some((Token::Delim(d), j)) => if d == 43 || d == 45 {
            match token_at(s, j) {
                Some((t, k)) => match token_length(t, d == 45) {
                    Some(l) => Some((l, k)),
                    None => None,
                },
                None => None,
            }
        } else {
            None
        },
        Some((t, j)) => match token_length(t, false) {
            Some(l) => Some((l, j)),
            None => None,
        },
        None => None,
    }
}

/// The length that the whole input `s` spells.
pub open spec fn length_of(s: Seq<u8>) -> Option<Length> {
    match length_at(s, 0) {
        Some((l, e)) => if at_end(s, e) {
            Some(l)
        } else {
            None
        },
        None => None,
    }
}

/// Whether `r` is `expected`, with positions as `usize`.
pub open spec fn length_result(r: Option<(Length, usize)>, expected: Option<(Length, int)>) -> bool {
    match r {
        None => expected is None,
        Some((l, e)) => expected == Some((l, e as int)),
    }
}

/// Parses the length at `i`.
pub fn parse_length_at(s: &[u8], i: usize) -> (r: Option<(Length, usize)>)
    requires
        i <= s@.len(),
    ensures
        length_result(r, length_at(s@, i as int)),
        r matches Some((l, e)) ==> i < e <= s@.len() && l.wf(),
{
    match next_token(s, i) {
        Some((Token::Auto, j)) => Some((Length::Auto, j)),
        Some((Token::CalcOpen, j)) => match parse_calc_sum(s, j) {
            Some((v, k)) => match next_token(s, k) {
                Some((Token::CloseParen, m)) => match v {
                    CalcValue::Number(n) => Some((Length::Px(n), m)),
                    CalcValue::Formula(f) => Some((Length::Calc(CalcHandle::Formula(f)), m)),
                },
                _ => None,
            },
            None => None,
        },
        Some((Token::Delim(d), j)) => {
            if d == 43 || d == 45 {
                match next_token(s, j) {
                    Some((t, k)) => match token_length_exec(t, d == 45) {
                        Some(l) => Some((l, k)),
                        None => None,
                    },
                    None => None,
                }
            } else {
                None
            }
        },
        Some((t, j)) => match token_length_exec(t, false) {
            Some(l) => Some((l, j)),
            None => None,
        },
        None => None,
    }
}

/// Computes `token_length`.
fn token_length_exec(t: Token, negative: bool) -> (r: Option<Length>)
    requires
        crate::token::token_bounded(t),
    ensures
        r == token_length(t, negative),
        r matches Some(l) ==> l.wf(),
{
    let sign: i64 = if negative {
        -1
    } else {
        1
    };
    match t {
        Token::Number(v) => Some(Length::Px(sign * v)),
        Token::Percentage(v) => Some(Length::Percentage(sign * v)),
        Token::Dimension(v, u) => {
            let x = sign * v;
            match u {
                Unit::Px => Some(Length::Px(x)),
                Unit::Percent => Some(Length::Percentage(x)),
                Unit::Rem => Some(Length::Rem(x)),
                Unit::Em => Some(Length::Em(x)),
                Unit::Vh => Some(Length::Vh(x)),
                Unit::Vw => Some(Length::Vw(x)),
                Unit::Cm => Some(Length::Cm(x)),
                Unit::Mm => Some(Length::Mm(x)),
                Unit::In => Some(Length::In(x)),
                Unit::Q => Some(Length::Q(x)),
                Unit::Pt => Some(Length::Pt(x)),
                Unit::Pc => Some(Length::Pc(x)),
            }
        },
        _ => None,
    }
}

impl Length {
    /// Parses a length from CSS text.
    pub fn from_str(text: &str) -> (r: Result<Length, ParseError>)
        ensures
            r == match length_of(text.spec_bytes()) {
                Some(l) => Ok(l),
                None => Err(ParseError::InvalidLength),
            },
            r matches Ok(l) ==> l.wf(),
    {
        let s = text.as_bytes();
        match parse_length_at(s, 0) {
            Some((l, e)) => {
                if at_end_exec(s, e) {
                    Ok(l)
                } else {
                    Err(ParseError::InvalidLength)
                }
            },
            None => Err(ParseError::InvalidLength),
        }
    }
}

} // verus!

verus! {

/// Scaling by a whole number multiplies exactly.
proof fn lemma_whole_scale(c: int, n: int)
    ensures
        scaled(c, n * crate::numeric::UNIT) == c * n,
{
    let u = crate::numeric::UNIT as int;
    assert(c * (n * u) == (c * n) * u) by (nonlinear_arith);
    vstd::arithmetic::div_mod::lemma_div_multiples_vanish(c * n, u);
    assert(u * (c * n) == (c * n) * u) by (nonlinear_arith);
}

/// A whole-number multiple distributes over a sum of coefficients.
proof fn lemma_expand_coeff(x: int, y: int, n: int)
    ensures
        scaled(x + y, n * crate::numeric::UNIT) == scaled(x, n * crate::numeric::UNIT) + scaled(
            y,
            n * crate::numeric::UNIT,
        ),
{
    lemma_whole_scale(x + y, n);
    lemma_whole_scale(x, n);
    lemma_whole_scale(y, n);
    assert((x + y) * n == x * n + y * n) by (nonlinear_arith);
}

/// Expanding a whole-number multiple over a sum gives the same value:
/// `(a + b) * n` and `a * n + b * n` evaluate to the same formula (or both overflow), so
/// they resolve alike under every sizing.
#[verifier::rlimit(60)]
pub proof fn lemma_expansion_resolves_alike(a: CalcFormula, b: CalcFormula, n: i64)
    requires
        a.wf(),
        b.wf(),
        -LIMIT <= n * crate::numeric::UNIT <= LIMIT,
        sum_of(CalcValue::Formula(a), CalcValue::Formula(b), false) is Some,
        product_of(CalcValue::Formula(a), CalcValue::Number((n * crate::numeric::UNIT) as i64)) is Some,
        product_of(CalcValue::Formula(b), CalcValue::Number((n * crate::numeric::UNIT) as i64)) is Some,
    ensures
        product_of(
            sum_of(CalcValue::Formula(a), CalcValue::Formula(b), false).unwrap(),
            CalcValue::Number((n * crate::numeric::UNIT) as i64),
        ) == sum_of(
            product_of(CalcValue::Formula(a), CalcValue::Number((n * crate::numeric::UNIT) as i64)).unwrap(),
            product_of(CalcValue::Formula(b), CalcValue::Number((n * crate::numeric::UNIT) as i64)).unwrap(),
            false,
        ),
{
    let k = (n * crate::numeric::UNIT) as i64;
    let ca = |u: Unit| a.coeff(u) + b.coeff(u);
    let sum = crate::length::from_coeffs(ca);
    crate::length::lemma_from_coeffs(ca);
    let cl = |u: Unit| scaled(sum.coeff(u), k as int);
    let cka = |u: Unit| scaled(a.coeff(u), k as int);
    let ckb = |u: Unit| scaled(b.coeff(u), k as int);
    assert forall|u: Unit| #[trigger] cl(u) == cka(u) + ckb(u) by {
        lemma_expand_coeff(a.coeff(u), b.coeff(u), n as int);
    }
    assert(all_within(cka));
    assert(all_within(ckb));
    let fa = crate::length::from_coeffs(cka);
    let fb = crate::length::from_coeffs(ckb);
    crate::length::lemma_from_coeffs(cka);
    crate::length::lemma_from_coeffs(ckb);
    let cs = |u: Unit| fa.coeff(u) + fb.coeff(u);
    assert forall|u: Unit| #![trigger cs(u)] #![trigger cl(u)] cs(u) == cl(u) by {}
    assert(cs =~= cl);
    assert(sum_of(CalcValue::Formula(a), CalcValue::Formula(b), false) == Some(CalcValue::Formula(sum)));
    assert(product_of(CalcValue::Formula(a), CalcValue::Number(k)) == Some(CalcValue::Formula(fa)));
    assert(product_of(CalcValue::Formula(b), CalcValue::Number(k)) == Some(CalcValue::Formula(fb)));
}

/// Subtracting is adding the negation: `a - b` and `a + (-b)` evaluate alike.
pub proof fn lemma_difference_is_sum_of_negation(a: CalcValue, b: CalcValue)
    requires
        a.wf(),
        b.wf(),
    ensures
        sum_of(a, b, true) == sum_of(a, negation_of(b), false),
{
    if let (CalcValue::Formula(f), CalcValue::Formula(g)) = (a, b) {
        let cn = |u: Unit| -g.coeff(u);
        assert(all_within(cn));
        crate::length::lemma_from_coeffs(cn);
        let h = crate::length::from_coeffs(cn);
        let c1 = |u: Unit| f.coeff(u) - g.coeff(u);
        let c2 = |u: Unit| f.coeff(u) + h.coeff(u);
        assert forall|u: Unit| #![trigger c1(u)] #![trigger c2(u)] c1(u) == c2(u) by {}
        assert(c1 =~= c2);
        assert(negation_of(b) == CalcValue::Formula(h));
    }
}

} // verus!
