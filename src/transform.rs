use vstd::prelude::*;
use vstd::string::StringSliceAdditionalSpecFns;

use smallvec::SmallVec;

use crate::calc::{length_at, length_result, parse_length_at};
use crate::length::Length;
use crate::numeric::{floor_div, LIMIT, UNIT};
use crate::token::{
    at_end, at_end_exec, next_token, token_at, AngleUnit, Token, TransformFunction,
};

verus! {

/// An angle: a value in millionths of its unit.
#[derive(Debug, Clone, Copy, PartialEq, Eq, Structural)]
pub struct Angle {
    /// The value, in millionths of `unit`.
    pub value: i64,
    /// The unit it is written in.
    pub unit: AngleUnit,
}

/// The six entries `a b c d x y` of an affine matrix, in millionths.
#[derive(Debug, Clone, Copy, PartialEq, Eq, Structural)]
pub struct MatrixValues {
    /// Horizontal scaling.
    pub a: i64,
    /// Vertical shear.
    pub b: i64,
    /// Horizontal shear.
    pub c: i64,
    /// Vertical scaling.
    pub d: i64,
    /// Horizontal translation.
    pub x: i64,
    /// Vertical translation.
    pub y: i64,
}

/// A single CSS transform operation; factors are in millionths.
#[derive(Debug, Clone, Copy, PartialEq, Eq, Structural)]
pub enum Transform {
    /// Translates along the X and Y axes.
    Translate(Length, Length),
    /// Scales by the given factors.
    Scale(i64, i64),
    /// Rotates by an angle.
    Rotate(Angle),
    /// Skews by the given angles.
    Skew(Angle, Angle),
    /// Applies a raw matrix.
    Matrix(MatrixValues),
}

/// Bound on the number of transforms in a list. `SmallVec::push` panics with "capacity
/// overflow" when the next power of two above the length, times the size of a `Transform`,
/// passes `isize::MAX` bytes; below this bound it cannot.
pub const MAX_TRANSFORMS: usize = usize::MAX / 1024;

/// Transform operations in declaration order, in a `SmallVec` that keeps up to four inline.
#[verifier::external_body]
pub struct Transforms {
    inner: SmallVec<[Transform; 4]>,
}

/// The transforms a `Transforms` holds, in declaration order.
pub uninterp spec fn transforms_of(t: Transforms) -> Seq<Transform>;

impl Transforms {
    /// Relies on `SmallVec::new`: a new list holds nothing.
    #[verifier::external_body]
    fn new() -> (r: Self)
        ensures
            transforms_of(r) == Seq::<Transform>::empty(),
    {
        Transforms { inner: SmallVec::new() }
    }

    /// Relies on `SmallVec::push`: the transform is appended after the others; it only panics
    /// on a capacity overflow, which `MAX_TRANSFORMS` rules out.
    #[verifier::external_body]
    fn push(&mut self, t: Transform)
        requires
            transforms_of(*old(self)).len() < MAX_TRANSFORMS,
        ensures
            transforms_of(*final(self)) == transforms_of(*old(self)).push(t),
    {
        self.inner.push(t)
    }

    /// Relies on `SmallVec::len`: the number of transforms held.
    #[verifier::external_body]
    pub fn len(&self) -> (r: usize)
        ensures
            r == transforms_of(*self).len(),
    {
        self.inner.len()
    }

    /// Relies on `<[Transform]>::to_vec`, reached through `SmallVec`'s `Deref` to a slice: the
    /// same transforms in the same order (`Transform` is `Copy`, so each clone is the value).
    #[verifier::external_body]
    pub fn to_vec(&self) -> (r: Vec<Transform>)
        ensures
            r@ == transforms_of(*self),
    {
        self.inner.to_vec()
    }
}

/// The zero angle.
pub open spec fn zero_angle() -> Angle {
    Angle { value: 0, unit: AngleUnit::Deg }
}

/// An optional sign at `i`: `-1` after a `-`, `1` after a `+` or when there is none, with
/// the position after it.
pub open spec fn sign_at(s: Seq<u8>, i: int) -> (int, int) {
    match token_at(s, i) {
        Some((Token::Delim(43), j)) => (1, j),
        Some((Token::Delim(45), j)) => (-1, j),
        _ => (1, i),
    }
}

/// A signed plain number at `i`, with the position after it.
pub open spec fn number_arg_at(s: Seq<u8>, i: int) -> Option<(int, int)> {
    let (sign, p) = sign_at(s, i);
    match token_at(s, p) {
        Some((Token::Number(v), j)) => Some((sign * v, j)),
        _ => None,
    }
}

/// A signed number or percentage at `i` (a percentage counts as its fraction), with the
/// position after it.
pub open spec fn factor_arg_at(s: Seq<u8>, i: int) -> Option<(int, int)> {
    let (sign, p) = sign_at(s, i);
    match token_at(s, p) {
        Some((Token::Number(v), j)) => Some((sign * v, j)),
        Some((Token::Percentage(v), j)) => Some((sign * (v / 100), j)),
        _ => None,
    }
}

/// A signed angle at `i` (a plain zero is allowed), with the position after it.
pub open spec fn angle_arg_at(s: Seq<u8>, i: int) -> Option<(Angle, int)> {
    let (sign, p) = sign_at(s, i);
    match token_at(s, p) {
        Some((Token::AngleDimension(v, u), j)) => Some((Angle { value: (sign * v) as i64, unit: u }, j)),
        Some((Token::Number(v), j)) => if v == 0 {
            Some((zero_angle(), j))
        } else {
            None
        },
        _ => None,
    }
}

/// Whether a closing parenthesis is at `i`, and the position after it.
pub open spec fn close_at(s: Seq<u8>, i: int) -> Option<int> {
    match token_at(s, i) {
        Some((Token::CloseParen, j)) => Some(j),
        _ => None,
    }
}

/// Whether a comma is at `i`, and the position after it.
pub open spec fn comma_at(s: Seq<u8>, i: int) -> Option<int> {
    match token_at(s, i) {
        Some((Token::Comma, j)) => Some(j),
        _ => None,
    }
}

/// `v` followed by a closing parenthesis at `i`.
pub open spec fn closed<T>(s: Seq<u8>, v: T, i: int) -> Option<(T, int)> {
    match close_at(s, i) {
        Some(j) => Some((v, j)),
        None => None,
    }
}

/// Two arguments separated by a comma, then a closing parenthesis.
pub open spec fn pair_args<T>(
    s: Seq<u8>,
    first: Option<(T, int)>,
    arg: spec_fn(int) -> Option<(T, int)>,
) -> Option<((T, T), int)> {
    match first {
        Some((x, k)) => match comma_at(s, k) {
            Some(l) => match arg(l) {
                Some((y, m)) => closed(s, (x, y), m),
                None => None,
            },
            None => None,
        },
        None => None,
    }
}

/// Six plain numbers from `i` on, then a closing parenthesis.
pub open spec fn matrix_args(s: Seq<u8>, i: int) -> Option<(MatrixValues, int)> {
    match number_arg_at(s, i) {
        Some((a, i1)) => match number_arg_at(s, i1) {
            Some((b, i2)) => match number_arg_at(s, i2) {
                Some((c, i3)) => match number_arg_at(s, i3) {
                    Some((d, i4)) => match number_arg_at(s, i4) {
                        Some((x, i5)) => match number_arg_at(s, i5) {
                            Some((y, i6)) => closed(
                                s,
                                MatrixValues {
                                    a: a as i64,
                                    b: b as i64,
                                    c: c as i64,
                                    d: d as i64,
                                    x: x as i64,
                                    y: y as i64,
                                },
                                i6,
                            ),
                            None => None,
                        },
                        None => None,
                    },
                    None => None,
                },
                None => None,
            },
            None => None,
        },
        None => None,
    }
}

/// The transform function at `i`, with the position after its closing parenthesis.
#[verifier::opaque]
pub open spec fn transform_at(s: Seq<u8>, i: int) -> Option<(Transform, int)> {
    match token_at(s, i) {
        Some((Token::Function(f), j)) => match f {
            TransformFunction::Translate => match pair_args(s, length_at(s, j), |p: int| length_at(s, p)) {
                Some(((x, y), k)) => Some((Transform::Translate(x, y), k)),
                None => None,
            },
            TransformFunction::TranslateX => match length_at(s, j) {
                Some((x, k)) => closed(s, Transform::Translate(x, Length::Px(0)), k),
                None => None,
            },
            TransformFunction::TranslateY => match length_at(s, j) {
                Some((y, k)) => closed(s, Transform::Translate(Length::Px(0), y), k),
                None => None,
            },
            TransformFunction::Scale => match factor_arg_at(s, j) {
                Some((x, k)) => match comma_at(s, k) {
                    Some(l) => match factor_arg_at(s, l) {
                        Some((y, m)) => closed(s, Transform::Scale(x as i64, y as i64), m),
                        None => None,
                    },
                    None => closed(s, Transform::Scale(x as i64, x as i64), k),
                },
                None => None,
            },
            TransformFunction::ScaleX => match factor_arg_at(s, j) {
                Some((x, k)) => closed(s, Transform::Scale(x as i64, UNIT), k),
                None => None,
            },
            TransformFunction::ScaleY => match factor_arg_at(s, j) {
                Some((y, k)) => closed(s, Transform::Scale(UNIT, y as i64), k),
                None => None,
            },
            TransformFunction::Skew => match pair_args(s, angle_arg_at(s, j), |p: int| angle_arg_at(s, p)) {
                Some(((x, y), k)) => Some((Transform::Skew(x, y), k)),
                None => None,
            },
            TransformFunction::SkewX => match angle_arg_at(s, j) {
                Some((x, k)) => closed(s, Transform::Skew(x, zero_angle()), k),
                None => None,
            },
            TransformFunction::SkewY => match angle_arg_at(s, j) {
                Some((y, k)) => closed(s, Transform::Skew(zero_angle(), y), k),
                None => None,
            },
            TransformFunction::Rotate => match angle_arg_at(s, j) {
                Some((a, k)) => closed(s, Transform::Rotate(a), k),
                None => None,
            },
            TransformFunction::Matrix => match matrix_args(s, j) {
                Some((m, k)) => Some((Transform::Matrix(m), k)),
                None => None,
            },
        },
        _ => None,
    }
}

/// The transform functions from `i` to the end of the input.
pub open spec fn transforms_from(s: Seq<u8>, i: int) -> Option<Seq<Transform>>
    decreases s.len() - i,
{
    if at_end(s, i) || i < 0 || i > s.len() {
        if at_end(s, i) {
            Some(Seq::empty())
        } else {
            None
        }
    } else {
        match transform_at(s, i) {
            Some((t, j)) => if i < j <= s.len() {
                match transforms_from(s, j) {
                    Some(rest) => Some(seq![t] + rest),
                    None => None,
                }
            } else {
                None
            },
            None => None,
        }
    }
}

} // verus!

verus! {

/// Whether `r` is `expected`, with positions as `usize`.
pub open spec fn at_result<T>(r: Option<(T, usize)>, expected: Option<(T, int)>) -> bool {
    match r {
        None => expected is None,
        Some((v, e)) => expected == Some((v, e as int)),
    }
}

/// Reads an optional sign.
fn parse_sign(s: &[u8], i: usize) -> (r: (i64, usize))
    requires
        i <= s@.len(),
    ensures
        (r.0 as int, r.1 as int) == sign_at(s@, i as int),
        r.0 == 1 || r.0 == -1,
        i <= r.1 <= s@.len(),
{
    match next_token(s, i) {
        Some((Token::Delim(43), j)) => (1, j),
        Some((Token::Delim(45), j)) => (-1, j),
        _ => (1, i),
    }
}

/// Reads a signed plain number.
fn parse_number_arg(s: &[u8], i: usize) -> (r: Option<(i64, usize)>)
    requires
        i <= s@.len(),
    ensures
        match r {
            None => number_arg_at(s@, i as int) is None,
            Some((v, e)) => number_arg_at(s@, i as int) == Some((v as int, e as int)) && -LIMIT <= v <= LIMIT && i < e <= s@.len(),
        },
{
    let (sign, p) = parse_sign(s, i);
    match next_token(s, p) {
        Some((Token::Number(v), j)) => Some((sign * v, j)),
        _ => None,
    }
}

/// Reads a signed number or percentage.
fn parse_factor_arg(s: &[u8], i: usize) -> (r: Option<(i64, usize)>)
    requires
        i <= s@.len(),
    ensures
        match r {
            None => factor_arg_at(s@, i as int) is None,
            Some((v, e)) => factor_arg_at(s@, i as int) == Some((v as int, e as int)) && i < e <= s@.len(),
        },
{
    let (sign, p) = parse_sign(s, i);
    match next_token(s, p) {
        Some((Token::Number(v), j)) => Some((sign * v, j)),
        Some((Token::Percentage(v), j)) => Some((sign * (floor_div(v as i128, 100) as i64), j)),
        _ => None,
    }
}

/// Reads a signed angle.
pub fn parse_angle_arg(s: &[u8], i: usize) -> (r: Option<(Angle, usize)>)
    requires
        i <= s@.len(),
    ensures
        at_result(r, angle_arg_at(s@, i as int)),
        r matches Some((_, e)) ==> i < e <= s@.len(),
{
    let (sign, p) = parse_sign(s, i);
    match next_token(s, p) {
        Some((Token::AngleDimension(v, u), j)) => Some((Angle { value: if sign < 0 { -v } else { v }, unit: u }, j)),
        Some((Token::Number(v), j)) => {
            if v == 0 {
                Some((Angle { value: 0, unit: AngleUnit::Deg }, j))
            } else {
                None
            }
        },
        _ => None,
    }
}

/// Reads a closing parenthesis.
fn parse_close(s: &[u8], i: usize) -> (r: Option<usize>)
    requires
        i <= s@.len(),
    ensures
        match r {
            None => close_at(s@, i as int) is None,
            Some(e) => close_at(s@, i as int) == Some(e as int) && i < e <= s@.len(),
        },
{
    match next_token(s, i) {
        Some((Token::CloseParen, j)) => Some(j),
        _ => None,
    }
}

/// Reads a comma.
fn parse_comma(s: &[u8], i: usize) -> (r: Option<usize>)
    requires
        i <= s@.len(),
    ensures
        match r {
            None => comma_at(s@, i as int) is None,
            Some(e) => comma_at(s@, i as int) == Some(e as int) && i < e <= s@.len(),
        },
{
    match next_token(s, i) {
        Some((Token::Comma, j)) => Some(j),
        _ => None,
    }
}

/// Reads the six numbers of `matrix(...)` and its closing parenthesis.
fn parse_matrix_args(s: &[u8], i: usize) -> (r: Option<(MatrixValues, usize)>)
    requires
        i <= s@.len(),
    ensures
        at_result(r, matrix_args(s@, i as int)),
        r matches Some((_, e)) ==> i < e <= s@.len(),
{
    let (a, i1) = match parse_number_arg(s, i) {
        Some(v) => v,
        None => return None,
    };
    let (b, i2) = match parse_number_arg(s, i1) {
        Some(v) => v,
        None => return None,
    };
    let (c, i3) = match parse_number_arg(s, i2) {
        Some(v) => v,
        None => return None,
    };
    let (d, i4) = match parse_number_arg(s, i3) {
        Some(v) => v,
        None => return None,
    };
    let (x, i5) = match parse_number_arg(s, i4) {
        Some(v) => v,
        None => return None,
    };
    let (y, i6) = match parse_number_arg(s, i5) {
        Some(v) => v,
        None => return None,
    };
    match parse_close(s, i6) {
        Some(e) => Some((MatrixValues { a, b, c, d, x, y }, e)),
        None => None,
    }
}

impl Transform {
    /// Parses the transform function at `i`.
    #[verifier::rlimit(40)]
    pub fn parse_at(s: &[u8], i: usize) -> (r: Option<(Transform, usize)>)
        requires
            i <= s@.len(),
        ensures
            at_result(r, transform_at(s@, i as int)),
            r matches Some((_, e)) ==> i < e <= s@.len(),
    {
        reveal(transform_at);
        let (f, j) = match next_token(s, i) {
            Some((Token::Function(f), j)) => (f, j),
            _ => return None,
        };
        match f {
            TransformFunction::Translate => {
                let (x, k) = match parse_length_at(s, j) {
                    Some(v) => v,
                    None => return None,
                };
                let l = match parse_comma(s, k) {
                    Some(l) => l,
                    None => return None,
                };
                let (y, m) = match parse_length_at(s, l) {
                    Some(v) => v,
                    None => return None,
                };
                match parse_close(s, m) {
                    Some(e) => Some((Transform::Translate(x, y), e)),
                    None => None,
                }
            },
            TransformFunction::TranslateX | TransformFunction::TranslateY => {
                let (v, k) = match parse_length_at(s, j) {
                    Some(v) => v,
                    None => return None,
                };
                let t = if f == TransformFunction::TranslateX {
                    Transform::Translate(v, Length::Px(0))
                } else {
                    Transform::Translate(Length::Px(0), v)
                };
                match parse_close(s, k) {
                    Some(e) => Some((t, e)),
                    None => None,
                }
            },
            TransformFunction::Scale => {
                let (x, k) = match parse_factor_arg(s, j) {
                    Some(v) => v,
                    None => return None,
                };
                match parse_comma(s, k) {
                    Some(l) => {
                        let (y, m) = match parse_factor_arg(s, l) {
                            Some(v) => v,
                            None => return None,
                        };
                        match parse_close(s, m) {
                            Some(e) => Some((Transform::Scale(x, y), e)),
                            None => None,
                        }
                    },
                    None => match parse_close(s, k) {
                        Some(e) => Some((Transform::Scale(x, x), e)),
                        None => None,
                    },
                }
            },
            TransformFunction::ScaleX | TransformFunction::ScaleY => {
                let (v, k) = match parse_factor_arg(s, j) {
                    Some(v) => v,
                    None => return None,
                };
                let t = if f == TransformFunction::ScaleX {
                    Transform::Scale(v, UNIT)
                } else {
                    Transform::Scale(UNIT, v)
                };
                match parse_close(s, k) {
                    Some(e) => Some((t, e)),
                    None => None,
                }
            },
            TransformFunction::Skew => {
                let (x, k) = match parse_angle_arg(s, j) {
                    Some(v) => v,
                    None => return None,
                };
                let l = match parse_comma(s, k) {
                    Some(l) => l,
                    None => return None,
                };
                let (y, m) = match parse_angle_arg(s, l) {
                    Some(v) => v,
                    None => return None,
                };
                match parse_close(s, m) {
                    Some(e) => Some((Transform::Skew(x, y), e)),
                    None => None,
                }
            },
            TransformFunction::SkewX | TransformFunction::SkewY | TransformFunction::Rotate => {
                let (a, k) = match parse_angle_arg(s, j) {
                    Some(v) => v,
                    None => return None,
                };
                let zero = Angle { value: 0, unit: AngleUnit::Deg };
                let t = if f == TransformFunction::SkewX {
                    Transform::Skew(a, zero)
                } else if f == TransformFunction::SkewY {
                    Transform::Skew(zero, a)
                } else {
                    Transform::Rotate(a)
                };
                match parse_close(s, k) {
                    Some(e) => Some((t, e)),
                    None => None,
                }
            },
            TransformFunction::Matrix => match parse_matrix_args(s, j) {
                Some((m, k)) => Some((Transform::Matrix(m), k)),
                None => None,
            },
        }
    }

    /// Parses a single transform function, which must be the whole input.
    pub fn from_str(text: &str) -> (r: Option<Transform>)
        ensures
            r == match transform_at(text.spec_bytes(), 0) {
                Some((t, e)) => if at_end(text.spec_bytes(), e) {
                    Some(t)
                } else {
                    None
                },
                None => None,
            },
    {
        let s = text.as_bytes();
        match Transform::parse_at(s, 0) {
            Some((t, e)) => {
                if at_end_exec(s, e) {
                    Some(t)
                } else {
                    None
                }
            },
            None => None,
        }
    }
}

impl Transforms {
    /// Parses a list of transform functions that runs to the end of the input; a list of
    /// `MAX_TRANSFORMS` or more is refused too.
    pub fn from_css(text: &str) -> (r: Option<Transforms>)
        ensures
            match r {
                Some(t) => transforms_from(text.spec_bytes(), 0) == Some(transforms_of(t)),
                None => match transforms_from(text.spec_bytes(), 0) {
                    Some(ts) => ts.len() >= MAX_TRANSFORMS,
                    None => true,
                },
            },
    {
        let s = text.as_bytes();
        let mut out = Transforms::new();
        let mut i: usize = 0;
        while !at_end_exec(s, i)
            invariant
                i <= s@.len(),
                s@ == text.spec_bytes(),
                transforms_from(s@, 0) == match transforms_from(s@, i as int) {
                    Some(rest) => Some(transforms_of(out) + rest),
                    None => None,
                },
            decreases s@.len() - i,
        {
            match Transform::parse_at(s, i) {
                Some((t, j)) => {
                    if out.len() >= MAX_TRANSFORMS {
                        return None;
                    }
                    proof {
                        match transforms_from(s@, j as int) {
                            Some(rest) => {
                                assert(transforms_of(out).push(t) + rest =~= transforms_of(out) + (seq![t] + rest));
                            },
                            None => {},
                        }
                    }
                    out.push(t);
                    i = j;
                },
                None => {
                    proof {
                        assert(transforms_from(s@, i as int) is None);
                    }
                    return None;
                },
            }
        }
        proof {
            assert(transforms_of(out) + Seq::<Transform>::empty() =~= transforms_of(out));
        }
        Some(out)
    }
}

} // verus!
