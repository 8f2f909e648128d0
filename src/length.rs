use vstd::prelude::*;

use crate::numeric::{clamp_i64, floor_div, saturate, LIMIT, MAX_SIZING, UNIT};

verus! {

/// Default root font size: sixteen pixels.
pub const DEFAULT_FONT_SIZE: i64 = 16_000_000;

/// Tolerance under which a resolved coefficient counts as zero (one millionth).
pub const CALC_ZERO_EPSILON: i64 = 1;

/// The units that a `calc()` formula can combine.
#[derive(Debug, Clone, Copy, PartialEq, Eq, Structural)]
pub enum Unit {
    Px,
    Percent,
    Rem,
    Em,
    Vh,
    Vw,
    Cm,
    Mm,
    In,
    Q,
    Pt,
    Pc,
}

/// The viewport of a render: its size in pixels, root font size and device-pixel ratio
/// (both in millionths).
#[derive(Debug, Clone, Copy, PartialEq, Eq, Structural)]
pub struct Viewport {
    /// The width of the viewport in pixels.
    pub width: Option<u32>,
    /// The height of the viewport in pixels.
    pub height: Option<u32>,
    /// The root font size in millionths of a pixel, used for `rem` units.
    pub font_size: i64,
    /// How many device pixels stand for one CSS pixel, in millionths.
    pub device_pixel_ratio: i64,
}

impl Viewport {
    /// Creates a viewport with the default font size and a device-pixel ratio of one.
    pub fn new(width: Option<u32>, height: Option<u32>) -> (r: Self)
        ensures
            r == (Viewport { width, height, font_size: DEFAULT_FONT_SIZE, device_pixel_ratio: UNIT }),
    {
        Self::new_with_font_size(width, height, DEFAULT_FONT_SIZE)
    }

    /// Creates a viewport with the given root font size and a device-pixel ratio of one.
    pub fn new_with_font_size(width: Option<u32>, height: Option<u32>, font_size: i64) -> (r: Self)
        ensures
            r == (Viewport { width, height, font_size, device_pixel_ratio: UNIT }),
    {
        Viewport { width, height, font_size, device_pixel_ratio: UNIT }
    }

    /// The viewport height in pixels, zero when unknown.
    pub open spec fn height_px(self) -> int {
        match self.height {
            Some(h) => h as int,
            None => 0,
        }
    }

    /// The viewport width in pixels, zero when unknown.
    pub open spec fn width_px(self) -> int {
        match self.width {
            Some(w) => w as int,
            None => 0,
        }
    }
}

/// The context needed to resolve a length: the viewport and the current font size.
#[derive(Debug, Clone, Copy, PartialEq, Eq, Structural)]
pub struct Sizing {
    /// The viewport of the render.
    pub viewport: Viewport,
    /// The computed font size of the current node, in millionths of a pixel.
    pub font_size: i64,
}

impl Sizing {
    /// Font sizes are non-negative, the device-pixel ratio is positive, and all are bounded.
    pub open spec fn wf(self) -> bool {
        &&& 0 < self.viewport.device_pixel_ratio <= MAX_SIZING
        &&& 0 <= self.viewport.font_size <= MAX_SIZING
        &&& 0 <= self.font_size <= MAX_SIZING
    }

    /// Whether the sizing is well formed (see `wf`).
    pub fn is_wf(&self) -> (r: bool)
        ensures
            r == self.wf(),
    {
        0 < self.viewport.device_pixel_ratio && self.viewport.device_pixel_ratio <= MAX_SIZING
            && 0 <= self.viewport.font_size && self.viewport.font_size <= MAX_SIZING && 0
            <= self.font_size && self.font_size <= MAX_SIZING
    }
}

/// Numerator of the factor that turns a coefficient of unit `u` into device pixels.
pub open spec fn unit_factor(u: Unit, s: Sizing) -> int {
    let dpr = s.viewport.device_pixel_ratio as int;
    match u {
        Unit::Px => dpr,
        Unit::Percent => 0,
        Unit::Rem => s.viewport.font_size * dpr,
        Unit::Em => s.font_size as int,
        Unit::Vh => s.viewport.height_px(),
        Unit::Vw => s.viewport.width_px(),
        Unit::Cm => dpr * 4800,
        Unit::Mm => dpr * 480,
        Unit::In => dpr * 96,
        Unit::Q => dpr * 120,
        Unit::Pt => dpr * 4,
        Unit::Pc => dpr * 16,
    }
}

/// Denominator of the factor that turns a coefficient of unit `u` into device pixels.
pub open spec fn unit_divisor(u: Unit) -> int {
    match u {
        Unit::Rem => UNIT * UNIT,
        Unit::Vh | Unit::Vw => 100,
        Unit::Cm | Unit::Mm | Unit::Q => 127 * UNIT,
        Unit::Pt => 3 * UNIT,
        _ => UNIT as int,
    }
}

/// The device pixels (in millionths, rounded down) that `c` of unit `u` stand for.
pub open spec fn unit_term(u: Unit, c: int, s: Sizing) -> int {
    c * unit_factor(u, s) / unit_divisor(u)
}

/// Factor and divisor of `unit_factor` / `unit_divisor`, computed.
fn unit_factor_exec(u: Unit, s: &Sizing) -> (r: (i128, i128))
    requires
        s.wf(),
    ensures
        r.0 == unit_factor(u, *s),
        r.1 == unit_divisor(u),
        0 <= r.0 <= MAX_SIZING * MAX_SIZING,
        r.1 > 0,
{
    let dpr = s.viewport.device_pixel_ratio as i128;
    proof {
        assert(s.viewport.font_size * dpr <= MAX_SIZING * MAX_SIZING) by (nonlinear_arith)
            requires
                0 <= s.viewport.font_size <= MAX_SIZING,
                0 <= dpr <= MAX_SIZING,
        ;
        assert(s.viewport.font_size * dpr >= 0) by (nonlinear_arith)
            requires
                0 <= s.viewport.font_size,
                0 <= dpr,
        ;
    }
    match u {
        Unit::Px => (dpr, UNIT as i128),
        Unit::Percent => (0, UNIT as i128),
        Unit::Rem => (s.viewport.font_size as i128 * dpr, UNIT as i128 * UNIT as i128),
        Unit::Em => (s.font_size as i128, UNIT as i128),
        Unit::Vh => (
            match s.viewport.height {
                Some(h) => h as i128,
                None => 0,
            },
            100,
        ),
        Unit::Vw => (
            match s.viewport.width {
                Some(w) => w as i128,
                None => 0,
            },
            100,
        ),
        Unit::Cm => (dpr * 4800, 127 * UNIT as i128),
        Unit::Mm => (dpr * 480, 127 * UNIT as i128),
        Unit::In => (dpr * 96, UNIT as i128),
        Unit::Q => (dpr * 120, 127 * UNIT as i128),
        Unit::Pt => (dpr * 4, 3 * UNIT as i128),
        Unit::Pc => (dpr * 16, UNIT as i128),
    }
}

/// `unit_term`, computed for a bounded coefficient.
fn unit_term_exec(u: Unit, c: i64, s: &Sizing) -> (r: i128)
    requires
        s.wf(),
        -LIMIT <= c <= LIMIT,
    ensures
        r == unit_term(u, c as int, *s),
        -LIMIT * MAX_SIZING * MAX_SIZING <= r <= LIMIT * MAX_SIZING * MAX_SIZING,
{
    let (f, d) = unit_factor_exec(u, s);
    proof {
        assert(-LIMIT * (MAX_SIZING * MAX_SIZING) <= c * f <= LIMIT * (MAX_SIZING * MAX_SIZING))
            by (nonlinear_arith)
            requires
                -LIMIT <= c <= LIMIT,
                0 <= f <= MAX_SIZING * MAX_SIZING,
        ;
        crate::numeric::lemma_div_within(c * f, LIMIT * (MAX_SIZING * MAX_SIZING), d as int);
    }
    floor_div(c as i128 * f, d)
}

/// The fully resolved form `px + percent * basis` of a `calc()` expression; `px` is in
/// millionths of a device pixel and `percent` in millionths of the basis.
#[derive(Debug, Clone, Copy, PartialEq, Eq, Structural)]
pub struct CalcLinear {
    /// The pixel term.
    pub px: i64,
    /// The share of the basis.
    pub percent: i64,
}

/// `px + percent * basis`, with the percentage term rounded down, before clamping.
pub open spec fn linear_value(px: int, percent: int, basis: int) -> int {
    px + percent * basis / (UNIT as int)
}

impl CalcLinear {
    /// Neither term is `i64::MIN`, so both can be negated.
    pub open spec fn wf(self) -> bool {
        self.px > i64::MIN && self.percent > i64::MIN
    }

    /// Negates both terms.
    pub fn neg(self) -> (r: Self)
        requires
            self.wf(),
        ensures
            r.px == -self.px,
            r.percent == -self.percent,
            r.wf(),
    {
        CalcLinear { px: -self.px, percent: -self.percent }
    }

    /// Evaluates the linear form against a basis (both in millionths).
    pub fn resolve(self, basis: i64) -> (r: i64)
        ensures
            r == clamp_i64(linear_value(self.px as int, self.percent as int, basis as int)),
    {
        let share = crate::numeric::mul_div(self.percent, basis, UNIT);
        proof {
            assert(-0x4000_0000_0000_0000_0000_0000_0000_0000 <= self.percent * basis <= 0x4000_0000_0000_0000_0000_0000_0000_0000) by (nonlinear_arith)
                requires
                    -0x8000_0000_0000_0000 <= self.percent <= 0x7fff_ffff_ffff_ffff,
                    -0x8000_0000_0000_0000 <= basis <= 0x7fff_ffff_ffff_ffff,
            ;
            crate::numeric::lemma_div_within(self.percent * basis, 0x4000_0000_0000_0000_0000_0000_0000_0000, UNIT as int);
        }
        saturate(self.px as i128 + share)
    }
}

/// The symbolic form of a `calc()` expression before sizing is known: one coefficient
/// (in millionths) for each unit.
#[derive(Debug, Clone, Copy, PartialEq, Eq, Structural, Default)]
pub struct CalcFormula {
    /// Coefficient of `Px`.
    pub px: i64,
    /// Coefficient of `Percent`.
    pub percent: i64,
    /// Coefficient of `Rem`.
    pub rem: i64,
    /// Coefficient of `Em`.
    pub em: i64,
    /// Coefficient of `Vh`.
    pub vh: i64,
    /// Coefficient of `Vw`.
    pub vw: i64,
    /// Coefficient of `Cm`.
    pub cm: i64,
    /// Coefficient of `Mm`.
    pub mm: i64,
    /// Coefficient of `In`.
    pub inch: i64,
    /// Coefficient of `Q`.
    pub q: i64,
    /// Coefficient of `Pt`.
    pub pt: i64,
    /// Coefficient of `Pc`.
    pub pc: i64,
}

impl CalcFormula {
    /// The coefficient of unit `u`.
    pub open spec fn coeff(self, u: Unit) -> int {
        match u {
            Unit::Px => self.px as int,
            Unit::Percent => self.percent as int,
            Unit::Rem => self.rem as int,
            Unit::Em => self.em as int,
            Unit::Vh => self.vh as int,
            Unit::Vw => self.vw as int,
            Unit::Cm => self.cm as int,
            Unit::Mm => self.mm as int,
            Unit::In => self.inch as int,
            Unit::Q => self.q as int,
            Unit::Pt => self.pt as int,
            Unit::Pc => self.pc as int,
        }
    }

    /// Every coefficient lies within `[-LIMIT, LIMIT]`.
    pub open spec fn wf(self) -> bool {
        forall|u: Unit| -LIMIT <= #[trigger] self.coeff(u) <= LIMIT
    }

    /// The coefficient of unit `u`.
    pub fn get(&self, u: Unit) -> (r: i64)
        ensures
            r == self.coeff(u),
    {
        match u {
            Unit::Px => self.px,
            Unit::Percent => self.percent,
            Unit::Rem => self.rem,
            Unit::Em => self.em,
            Unit::Vh => self.vh,
            Unit::Vw => self.vw,
            Unit::Cm => self.cm,
            Unit::Mm => self.mm,
            Unit::In => self.inch,
            Unit::Q => self.q,
            Unit::Pt => self.pt,
            Unit::Pc => self.pc,
        }
    }

    /// The formula that holds `value` of unit `u` and nothing else.
    pub fn single(u: Unit, value: i64) -> (r: Self)
        ensures
            forall|v: Unit| #[trigger] r.coeff(v) == if v == u { value as int } else { 0 },
    {
        let mut r = CalcFormula { px: 0, percent: 0, rem: 0, em: 0, vh: 0, vw: 0, cm: 0, mm: 0, inch: 0, q: 0, pt: 0, pc: 0 };
        match u {
            Unit::Px => r.px = value,
            Unit::Percent => r.percent = value,
            Unit::Rem => r.rem = value,
            Unit::Em => r.em = value,
            Unit::Vh => r.vh = value,
            Unit::Vw => r.vw = value,
            Unit::Cm => r.cm = value,
            Unit::Mm => r.mm = value,
            Unit::In => r.inch = value,
            Unit::Q => r.q = value,
            Unit::Pt => r.pt = value,
            Unit::Pc => r.pc = value,
        }
        r
    }

    /// Negates every coefficient.
    pub fn neg(self) -> (r: Self)
        requires
            self.wf(),
        ensures
            forall|u: Unit| #[trigger] r.coeff(u) == -self.coeff(u),
            r.wf(),
    {
        proof {
            lemma_coeff_bounds(self);
        }
        CalcFormula {
            px: -self.px,
            percent: -self.percent,
            rem: -self.rem,
            em: -self.em,
            vh: -self.vh,
            vw: -self.vw,
            cm: -self.cm,
            mm: -self.mm,
            inch: -self.inch,
            q: -self.q,
            pt: -self.pt,
            pc: -self.pc,
        }
    }

    /// Adds two formulas coefficient by coefficient; `None` when a coefficient leaves `[-LIMIT, LIMIT]`.
    pub fn add(self, rhs: Self) -> (r: Option<Self>)
        requires
            self.wf(),
            rhs.wf(),
        ensures
            r is Some <==> (forall|u: Unit| -LIMIT <= #[trigger] self.coeff(u) + rhs.coeff(u) <= LIMIT),
            r matches Some(f) ==> f.wf() && forall|u: Unit| #[trigger] f.coeff(u) == self.coeff(u) + rhs.coeff(u),
    {
        proof {
            lemma_coeff_bounds(self);
            lemma_coeff_bounds(rhs);
        }
        let r = CalcFormula {
            px: self.px + rhs.px,
            percent: self.percent + rhs.percent,
            rem: self.rem + rhs.rem,
            em: self.em + rhs.em,
            vh: self.vh + rhs.vh,
            vw: self.vw + rhs.vw,
            cm: self.cm + rhs.cm,
            mm: self.mm + rhs.mm,
            inch: self.inch + rhs.inch,
            q: self.q + rhs.q,
            pt: self.pt + rhs.pt,
            pc: self.pc + rhs.pc,
        };
        if in_limit(r.px) && in_limit(r.percent) && in_limit(r.rem) && in_limit(r.em) && in_limit(r.vh) && in_limit(r.vw) && in_limit(r.cm) && in_limit(r.mm) && in_limit(r.inch) && in_limit(r.q) && in_limit(r.pt) && in_limit(r.pc) {
            Some(r)
        } else {
            proof {
                assert(!(-LIMIT <= r.coeff(Unit::Px) <= LIMIT && -LIMIT <= r.coeff(Unit::Percent) <= LIMIT && -LIMIT <= r.coeff(Unit::Rem) <= LIMIT && -LIMIT <= r.coeff(Unit::Em) <= LIMIT && -LIMIT <= r.coeff(Unit::Vh) <= LIMIT && -LIMIT <= r.coeff(Unit::Vw) <= LIMIT && -LIMIT <= r.coeff(Unit::Cm) <= LIMIT && -LIMIT <= r.coeff(Unit::Mm) <= LIMIT && -LIMIT <= r.coeff(Unit::In) <= LIMIT && -LIMIT <= r.coeff(Unit::Q) <= LIMIT && -LIMIT <= r.coeff(Unit::Pt) <= LIMIT && -LIMIT <= r.coeff(Unit::Pc) <= LIMIT));
            }
            None
        }
    }

    /// Subtracts `rhs` coefficient by coefficient; `None` when a coefficient leaves `[-LIMIT, LIMIT]`.
    pub fn sub(self, rhs: Self) -> (r: Option<Self>)
        requires
            self.wf(),
            rhs.wf(),
        ensures
            r is Some <==> (forall|u: Unit| -LIMIT <= #[trigger] self.coeff(u) - rhs.coeff(u) <= LIMIT),
            r matches Some(f) ==> f.wf() && forall|u: Unit| #[trigger] f.coeff(u) == self.coeff(u) - rhs.coeff(u),
    {
        proof {
            lemma_coeff_bounds(self);
            lemma_coeff_bounds(rhs);
        }
        let r = CalcFormula {
            px: self.px - rhs.px,
            percent: self.percent - rhs.percent,
            rem: self.rem - rhs.rem,
            em: self.em - rhs.em,
            vh: self.vh - rhs.vh,
            vw: self.vw - rhs.vw,
            cm: self.cm - rhs.cm,
            mm: self.mm - rhs.mm,
            inch: self.inch - rhs.inch,
            q: self.q - rhs.q,
            pt: self.pt - rhs.pt,
            pc: self.pc - rhs.pc,
        };
        if in_limit(r.px) && in_limit(r.percent) && in_limit(r.rem) && in_limit(r.em) && in_limit(r.vh) && in_limit(r.vw) && in_limit(r.cm) && in_limit(r.mm) && in_limit(r.inch) && in_limit(r.q) && in_limit(r.pt) && in_limit(r.pc) {
            Some(r)
        } else {
            proof {
                assert(!(-LIMIT <= r.coeff(Unit::Px) <= LIMIT && -LIMIT <= r.coeff(Unit::Percent) <= LIMIT && -LIMIT <= r.coeff(Unit::Rem) <= LIMIT && -LIMIT <= r.coeff(Unit::Em) <= LIMIT && -LIMIT <= r.coeff(Unit::Vh) <= LIMIT && -LIMIT <= r.coeff(Unit::Vw) <= LIMIT && -LIMIT <= r.coeff(Unit::Cm) <= LIMIT && -LIMIT <= r.coeff(Unit::Mm) <= LIMIT && -LIMIT <= r.coeff(Unit::In) <= LIMIT && -LIMIT <= r.coeff(Unit::Q) <= LIMIT && -LIMIT <= r.coeff(Unit::Pt) <= LIMIT && -LIMIT <= r.coeff(Unit::Pc) <= LIMIT));
            }
            None
        }
    }

    /// Multiplies every coefficient by a number (in millionths), rounding down; `None` when a
    /// coefficient leaves `[-LIMIT, LIMIT]`.
    pub fn scale(self, factor: i64) -> (r: Option<Self>)
        requires
            self.wf(),
        ensures
            r is Some <==> (forall|u: Unit| -LIMIT <= #[trigger] scaled(self.coeff(u), factor as int) <= LIMIT),
            r matches Some(f) ==> f.wf() && forall|u: Unit| #[trigger] f.coeff(u) == scaled(self.coeff(u), factor as int),
    {
        proof {
            lemma_coeff_bounds(self);
        }
        let px = scale_coeff(self.px, factor);
        let percent = scale_coeff(self.percent, factor);
        let rem = scale_coeff(self.rem, factor);
        let em = scale_coeff(self.em, factor);
        let vh = scale_coeff(self.vh, factor);
        let vw = scale_coeff(self.vw, factor);
        let cm = scale_coeff(self.cm, factor);
        let mm = scale_coeff(self.mm, factor);
        let inch = scale_coeff(self.inch, factor);
        let q = scale_coeff(self.q, factor);
        let pt = scale_coeff(self.pt, factor);
        let pc = scale_coeff(self.pc, factor);
        if px.is_some() && percent.is_some() && rem.is_some() && em.is_some() && vh.is_some() && vw.is_some() && cm.is_some() && mm.is_some() && inch.is_some() && q.is_some() && pt.is_some() && pc.is_some() {
            let r = CalcFormula {
                px: px.unwrap(),
                percent: percent.unwrap(),
                rem: rem.unwrap(),
                em: em.unwrap(),
                vh: vh.unwrap(),
                vw: vw.unwrap(),
                cm: cm.unwrap(),
                mm: mm.unwrap(),
                inch: inch.unwrap(),
                q: q.unwrap(),
                pt: pt.unwrap(),
                pc: pc.unwrap(),
            };
            Some(r)
        } else {
            None
        }
    }

    /// Divides every coefficient by a non-zero number (in millionths), rounding down; `None` when
    /// a coefficient leaves `[-LIMIT, LIMIT]`.
    pub fn divide(self, divisor: i64) -> (r: Option<Self>)
        requires
            self.wf(),
            divisor != 0,
            -LIMIT <= divisor <= LIMIT,
        ensures
            r is Some <==> (forall|u: Unit| -LIMIT <= #[trigger] divided(self.coeff(u), divisor as int) <= LIMIT),
            r matches Some(f) ==> f.wf() && forall|u: Unit| #[trigger] f.coeff(u) == divided(self.coeff(u), divisor as int),
    {
        proof {
            lemma_coeff_bounds(self);
        }
        let px = divide_coeff(self.px, divisor);
        let percent = divide_coeff(self.percent, divisor);
        let rem = divide_coeff(self.rem, divisor);
        let em = divide_coeff(self.em, divisor);
        let vh = divide_coeff(self.vh, divisor);
        let vw = divide_coeff(self.vw, divisor);
        let cm = divide_coeff(self.cm, divisor);
        let mm = divide_coeff(self.mm, divisor);
        let inch = divide_coeff(self.inch, divisor);
        let q = divide_coeff(self.q, divisor);
        let pt = divide_coeff(self.pt, divisor);
        let pc = divide_coeff(self.pc, divisor);
        if px.is_some() && percent.is_some() && rem.is_some() && em.is_some() && vh.is_some() && vw.is_some() && cm.is_some() && mm.is_some() && inch.is_some() && q.is_some() && pt.is_some() && pc.is_some() {
            let r = CalcFormula {
                px: px.unwrap(),
                percent: percent.unwrap(),
                rem: rem.unwrap(),
                em: em.unwrap(),
                vh: vh.unwrap(),
                vw: vw.unwrap(),
                cm: cm.unwrap(),
                mm: mm.unwrap(),
                inch: inch.unwrap(),
                q: q.unwrap(),
                pt: pt.unwrap(),
                pc: pc.unwrap(),
            };
            Some(r)
        } else {
            None
        }
    }

    /// The pixel term of the resolved formula, before clamping: the sum of every unit's term.
    pub open spec fn px_sum(self, s: Sizing) -> int {
        unit_term(Unit::Px, self.coeff(Unit::Px), s)
            + unit_term(Unit::Percent, self.coeff(Unit::Percent), s)
            + unit_term(Unit::Rem, self.coeff(Unit::Rem), s)
            + unit_term(Unit::Em, self.coeff(Unit::Em), s)
            + unit_term(Unit::Vh, self.coeff(Unit::Vh), s)
            + unit_term(Unit::Vw, self.coeff(Unit::Vw), s)
            + unit_term(Unit::Cm, self.coeff(Unit::Cm), s)
            + unit_term(Unit::Mm, self.coeff(Unit::Mm), s)
            + unit_term(Unit::In, self.coeff(Unit::In), s)
            + unit_term(Unit::Q, self.coeff(Unit::Q), s)
            + unit_term(Unit::Pt, self.coeff(Unit::Pt), s)
            + unit_term(Unit::Pc, self.coeff(Unit::Pc), s)
    }

    /// Folds every coefficient but the percentage into device pixels.
    pub fn resolve(self, sizing: &Sizing) -> (r: CalcLinear)
        requires
            self.wf(),
            sizing.wf(),
        ensures
            r.px == clamp_i64(self.px_sum(*sizing)),
            r.percent == self.percent,
            r.wf(),
    {
        proof {
            lemma_coeff_bounds(self);
        }
        let total: i128 = unit_term_exec(Unit::Px, self.px, sizing)
            + unit_term_exec(Unit::Percent, self.percent, sizing)
            + unit_term_exec(Unit::Rem, self.rem, sizing)
            + unit_term_exec(Unit::Em, self.em, sizing)
            + unit_term_exec(Unit::Vh, self.vh, sizing)
            + unit_term_exec(Unit::Vw, self.vw, sizing)
            + unit_term_exec(Unit::Cm, self.cm, sizing)
            + unit_term_exec(Unit::Mm, self.mm, sizing)
            + unit_term_exec(Unit::In, self.inch, sizing)
            + unit_term_exec(Unit::Q, self.q, sizing)
            + unit_term_exec(Unit::Pt, self.pt, sizing)
            + unit_term_exec(Unit::Pc, self.pc, sizing);
        CalcLinear { px: saturate(total), percent: self.percent }
    }
}

/// The coefficients of a well-formed formula, unit by unit, lie within `[-LIMIT, LIMIT]`.
pub proof fn lemma_coeff_bounds(f: CalcFormula)
    requires
        f.wf(),
    ensures
        -LIMIT <= f.coeff(Unit::Px) <= LIMIT,
        -LIMIT <= f.coeff(Unit::Percent) <= LIMIT,
        -LIMIT <= f.coeff(Unit::Rem) <= LIMIT,
        -LIMIT <= f.coeff(Unit::Em) <= LIMIT,
        -LIMIT <= f.coeff(Unit::Vh) <= LIMIT,
        -LIMIT <= f.coeff(Unit::Vw) <= LIMIT,
        -LIMIT <= f.coeff(Unit::Cm) <= LIMIT,
        -LIMIT <= f.coeff(Unit::Mm) <= LIMIT,
        -LIMIT <= f.coeff(Unit::In) <= LIMIT,
        -LIMIT <= f.coeff(Unit::Q) <= LIMIT,
        -LIMIT <= f.coeff(Unit::Pt) <= LIMIT,
        -LIMIT <= f.coeff(Unit::Pc) <= LIMIT,
{
    assert(-LIMIT <= f.coeff(Unit::Px) <= LIMIT);
    assert(-LIMIT <= f.coeff(Unit::Percent) <= LIMIT);
    assert(-LIMIT <= f.coeff(Unit::Rem) <= LIMIT);
    assert(-LIMIT <= f.coeff(Unit::Em) <= LIMIT);
    assert(-LIMIT <= f.coeff(Unit::Vh) <= LIMIT);
    assert(-LIMIT <= f.coeff(Unit::Vw) <= LIMIT);
    assert(-LIMIT <= f.coeff(Unit::Cm) <= LIMIT);
    assert(-LIMIT <= f.coeff(Unit::Mm) <= LIMIT);
    assert(-LIMIT <= f.coeff(Unit::In) <= LIMIT);
    assert(-LIMIT <= f.coeff(Unit::Q) <= LIMIT);
    assert(-LIMIT <= f.coeff(Unit::Pt) <= LIMIT);
    assert(-LIMIT <= f.coeff(Unit::Pc) <= LIMIT);
}

/// Whether `v` lies within `[-LIMIT, LIMIT]`.
fn in_limit(v: i64) -> (r: bool)
    ensures
        r == (-LIMIT <= v <= LIMIT),
{
    -LIMIT <= v && v <= LIMIT
}

/// `c * k`, both in millionths, rounded down.
pub open spec fn scaled(c: int, k: int) -> int {
    c * k / (UNIT as int)
}

/// `c / k`, both in millionths, rounded down.
pub open spec fn divided(c: int, k: int) -> int {
    if k > 0 {
        (c * UNIT) / k
    } else {
        (-c * UNIT) / (-k)
    }
}

/// `scaled`, computed; `None` outside `[-LIMIT, LIMIT]`.
pub fn scale_coeff(c: i64, k: i64) -> (r: Option<i64>)
    requires
        -LIMIT <= c <= LIMIT,
    ensures
        r is Some <==> -LIMIT <= scaled(c as int, k as int) <= LIMIT,
        r matches Some(v) ==> v == scaled(c as int, k as int),
{
    let v = crate::numeric::mul_div(c, k, UNIT);
    if -(LIMIT as i128) <= v && v <= LIMIT as i128 {
        Some(v as i64)
    } else {
        None
    }
}

/// `divided`, computed; `None` outside `[-LIMIT, LIMIT]`.
pub fn divide_coeff(c: i64, k: i64) -> (r: Option<i64>)
    requires
        -LIMIT <= c <= LIMIT,
        -LIMIT <= k <= LIMIT,
        k != 0,
    ensures
        r is Some <==> -LIMIT <= divided(c as int, k as int) <= LIMIT,
        r matches Some(v) ==> v == divided(c as int, k as int),
{
    proof {
        assert(-LIMIT * UNIT <= c * UNIT <= LIMIT * UNIT && -LIMIT * UNIT <= (-c) * UNIT <= LIMIT
            * UNIT) by (nonlinear_arith)
            requires
                -LIMIT <= c <= LIMIT,
        ;
    }
    let v = if k > 0 {
        floor_div(c as i128 * UNIT as i128, k as i128)
    } else {
        floor_div(-(c as i128) * UNIT as i128, -(k as i128))
    };
    if -(LIMIT as i128) <= v && v <= LIMIT as i128 {
        Some(v as i64)
    } else {
        None
    }
}

} // verus!

verus! {

/// The handle that `Length::Calc` carries.
#[derive(Debug, Clone, Copy, PartialEq, Eq, Structural)]
pub enum CalcHandle {
    /// A parsed formula, not yet resolved.
    Formula(CalcFormula),
    /// A formula resolved to its linear form.
    Linear(CalcLinear),
}

/// A length, percentage or automatic value; numbers are in millionths.
#[derive(Debug, Clone, Copy, PartialEq, Eq, Structural)]
pub enum Length {
    /// Automatic sizing based on content.
    Auto,
    /// Percentage of the parent container (0 to 100).
    Percentage(i64),
    /// Multiple of the root font size.
    Rem(i64),
    /// Multiple of the current font size.
    Em(i64),
    /// Percentage of the viewport height.
    Vh(i64),
    /// Percentage of the viewport width.
    Vw(i64),
    /// Centimetres.
    Cm(i64),
    /// Millimetres.
    Mm(i64),
    /// Inches.
    In(i64),
    /// Quarter millimetres.
    Q(i64),
    /// Points.
    Pt(i64),
    /// Picas.
    Pc(i64),
    /// Pixels.
    Px(i64),
    /// A `calc(...)` expression.
    Calc(CalcHandle),
}

/// A value as the external layout engine takes it: a length in device pixels, a fraction
/// of the basis, automatic, or a handle into a `CalcArena`.
#[derive(Debug, Clone, Copy, PartialEq, Eq, Structural)]
pub enum CompactLength {
    /// Automatic.
    Auto,
    /// Device pixels, in millionths.
    Length(i64),
    /// A fraction of the basis, in millionths.
    Percent(i64),
    /// An encoded handle of a linear form registered in a `CalcArena`.
    Calc(usize),
}

/// The linear form a calc handle stands for under a sizing.
pub open spec fn handle_linear(h: CalcHandle, s: Sizing) -> CalcLinear {
    match h {
        CalcHandle::Formula(f) => CalcLinear { px: clamp_i64(f.px_sum(s)) as i64, percent: f.percent },
        CalcHandle::Linear(l) => l,
    }
}

/// Whether `v` is within `CALC_ZERO_EPSILON` of zero.
pub open spec fn near_zero(v: int) -> bool {
    -CALC_ZERO_EPSILON <= v <= CALC_ZERO_EPSILON
}

/// Whether a value is within `CALC_ZERO_EPSILON` of zero.
pub fn is_near_zero(value: i64) -> (r: bool)
    ensures
        r == near_zero(value as int),
{
    -CALC_ZERO_EPSILON <= value && value <= CALC_ZERO_EPSILON
}

/// Resolves a calc handle to its linear form.
pub fn calc_handle_to_linear(handle: CalcHandle, sizing: &Sizing) -> (r: CalcLinear)
    requires
        sizing.wf(),
        handle matches CalcHandle::Formula(f) ==> f.wf(),
    ensures
        r == handle_linear(handle, *sizing),
{
    match handle {
        CalcHandle::Formula(formula) => formula.resolve(sizing),
        CalcHandle::Linear(linear) => linear,
    }
}

impl Length {
    /// Every number can be negated, and a formula keeps its coefficients within bounds.
    pub open spec fn wf(self) -> bool {
        match self {
            Length::Auto => true,
            Length::Calc(CalcHandle::Formula(f)) => f.wf(),
            Length::Calc(CalcHandle::Linear(l)) => l.wf(),
            Length::Percentage(v) => v > i64::MIN,
            Length::Rem(v) => v > i64::MIN,
            Length::Em(v) => v > i64::MIN,
            Length::Vh(v) => v > i64::MIN,
            Length::Vw(v) => v > i64::MIN,
            Length::Cm(v) => v > i64::MIN,
            Length::Mm(v) => v > i64::MIN,
            Length::In(v) => v > i64::MIN,
            Length::Q(v) => v > i64::MIN,
            Length::Pt(v) => v > i64::MIN,
            Length::Pc(v) => v > i64::MIN,
            Length::Px(v) => v > i64::MIN,
        }
    }

    /// The length with its sign flipped.
    pub open spec fn negated(self) -> Self {
        match self {
            Length::Auto => Length::Auto,
            Length::Percentage(v) => Length::Percentage(-v as i64),
            Length::Rem(v) => Length::Rem(-v as i64),
            Length::Em(v) => Length::Em(-v as i64),
            Length::Vh(v) => Length::Vh(-v as i64),
            Length::Vw(v) => Length::Vw(-v as i64),
            Length::Cm(v) => Length::Cm(-v as i64),
            Length::Mm(v) => Length::Mm(-v as i64),
            Length::In(v) => Length::In(-v as i64),
            Length::Q(v) => Length::Q(-v as i64),
            Length::Pt(v) => Length::Pt(-v as i64),
            Length::Pc(v) => Length::Pc(-v as i64),
            Length::Px(v) => Length::Px(-v as i64),
            Length::Calc(CalcHandle::Formula(f)) => Length::Calc(CalcHandle::Formula(CalcFormula {
                px: -f.px as i64,
                percent: -f.percent as i64,
                rem: -f.rem as i64,
                em: -f.em as i64,
                vh: -f.vh as i64,
                vw: -f.vw as i64,
                cm: -f.cm as i64,
                mm: -f.mm as i64,
                inch: -f.inch as i64,
                q: -f.q as i64,
                pt: -f.pt as i64,
                pc: -f.pc as i64,
            })),
            Length::Calc(CalcHandle::Linear(l)) => Length::Calc(
                CalcHandle::Linear(CalcLinear { px: -l.px as i64, percent: -l.percent as i64 }),
            ),
        }
    }

    /// Whether the unit is absolute, so that the device-pixel ratio applies to it.
    pub open spec fn is_absolute(self) -> bool {
        match self {
            Length::Px(_) | Length::Rem(_) | Length::Cm(_) | Length::Mm(_) | Length::In(_)
            | Length::Q(_) | Length::Pt(_) | Length::Pc(_) => true,
            _ => false,
        }
    }

    /// The value in CSS pixels (millionths, rounded down) before the device-pixel ratio;
    /// `basis` is what a percentage is taken of.
    pub open spec fn px_pre_dpr(self, s: Sizing, basis: int) -> int {
        match self {
            Length::Auto => 0,
            Length::Px(v) => v as int,
            Length::Percentage(v) => v * basis / (100 * UNIT),
            Length::Rem(v) => v * s.viewport.font_size / (UNIT as int),
            Length::Em(v) => v * s.font_size / (UNIT as int),
            Length::Vh(v) => v * s.viewport.height_px() / 100,
            Length::Vw(v) => v * s.viewport.width_px() / 100,
            Length::Cm(v) => v * 4800 / 127,
            Length::Mm(v) => v * 480 / 127,
            Length::In(v) => v * 96,
            Length::Q(v) => v * 120 / 127,
            Length::Pt(v) => v * 4 / 3,
            Length::Pc(v) => v * 16,
            Length::Calc(h) => linear_value(
                handle_linear(h, s).px as int,
                handle_linear(h, s).percent as int,
                basis,
            ),
        }
    }

    /// The value in device pixels (millionths): absolute units are scaled by the device-pixel
    /// ratio, the others are taken as they are.
    pub open spec fn px_value(self, s: Sizing, basis: int) -> int {
        if self.is_absolute() {
            clamp_i64(self.px_pre_dpr(s, basis) * s.viewport.device_pixel_ratio / (UNIT as int))
        } else {
            clamp_i64(self.px_pre_dpr(s, basis))
        }
    }

    /// Returns a zero pixel length.
    pub fn zero() -> (r: Self)
        ensures
            r == Length::Px(0),
    {
        Length::Px(0)
    }

    /// Returns the length with its sign flipped.
    pub fn negative(self) -> (r: Self)
        requires
            self.wf(),
        ensures
            r == self.negated(),
            r.wf(),
    {
        match self {
            Length::Auto => Length::Auto,
            Length::Percentage(v) => Length::Percentage(-v),
            Length::Rem(v) => Length::Rem(-v),
            Length::Em(v) => Length::Em(-v),
            Length::Vh(v) => Length::Vh(-v),
            Length::Vw(v) => Length::Vw(-v),
            Length::Cm(v) => Length::Cm(-v),
            Length::Mm(v) => Length::Mm(-v),
            Length::In(v) => Length::In(-v),
            Length::Q(v) => Length::Q(-v),
            Length::Pt(v) => Length::Pt(-v),
            Length::Pc(v) => Length::Pc(-v),
            Length::Px(v) => Length::Px(-v),
            Length::Calc(CalcHandle::Formula(formula)) => {
                let negated = formula.neg();
                proof {
                    assert(negated.coeff(Unit::Px) == -formula.coeff(Unit::Px));
                    assert(negated.coeff(Unit::Percent) == -formula.coeff(Unit::Percent));
                    assert(negated.coeff(Unit::Rem) == -formula.coeff(Unit::Rem));
                    assert(negated.coeff(Unit::Em) == -formula.coeff(Unit::Em));
                    assert(negated.coeff(Unit::Vh) == -formula.coeff(Unit::Vh));
                    assert(negated.coeff(Unit::Vw) == -formula.coeff(Unit::Vw));
                    assert(negated.coeff(Unit::Cm) == -formula.coeff(Unit::Cm));
                    assert(negated.coeff(Unit::Mm) == -formula.coeff(Unit::Mm));
                    assert(negated.coeff(Unit::In) == -formula.coeff(Unit::In));
                    assert(negated.coeff(Unit::Q) == -formula.coeff(Unit::Q));
                    assert(negated.coeff(Unit::Pt) == -formula.coeff(Unit::Pt));
                    assert(negated.coeff(Unit::Pc) == -formula.coeff(Unit::Pc));
                }
                Length::Calc(CalcHandle::Formula(negated))
            },
            Length::Calc(CalcHandle::Linear(linear)) => Length::Calc(CalcHandle::Linear(linear.neg())),
        }
    }

    /// The value in CSS pixels before the device-pixel ratio.
    fn to_px_pre_dpr(self, sizing: &Sizing, percentage_full_px: i64) -> (r: i128)
        requires
            self.wf(),
            sizing.wf(),
        ensures
            r == self.px_pre_dpr(*sizing, percentage_full_px as int),
            self.is_absolute() ==> -0x2_0000_0000_0000_0000_0000 <= r <= 0x2_0000_0000_0000_0000_0000,
    {
        let fs = sizing.viewport.font_size;
        match self {
            Length::Auto => 0,
            Length::Px(v) => v as i128,
            Length::Percentage(v) => {
                proof { lemma_i64_product(v as int, percentage_full_px as int); }
                floor_div(v as i128 * percentage_full_px as i128, 100 * UNIT as i128)
            },
            Length::Rem(v) => {
                proof {
                    assert(-0x8000_0000_0000_0000 * MAX_SIZING <= v * fs <= 0x8000_0000_0000_0000 * MAX_SIZING) by (nonlinear_arith)
                        requires -0x8000_0000_0000_0000 <= v <= 0x8000_0000_0000_0000, 0 <= fs <= MAX_SIZING;
                    crate::numeric::lemma_div_within(v * fs, 0x8000_0000_0000_0000 * MAX_SIZING, UNIT as int);
                }
                floor_div(v as i128 * fs as i128, UNIT as i128)
            },
            Length::Em(v) => {
                proof {
                    assert(-0x8000_0000_0000_0000 * MAX_SIZING <= v * sizing.font_size <= 0x8000_0000_0000_0000 * MAX_SIZING) by (nonlinear_arith)
                        requires -0x8000_0000_0000_0000 <= v <= 0x8000_0000_0000_0000, 0 <= sizing.font_size <= MAX_SIZING;
                }
                floor_div(v as i128 * sizing.font_size as i128, UNIT as i128)
            },
            Length::Vh(v) => {
                let h: i128 = match sizing.viewport.height {
                    Some(h) => h as i128,
                    None => 0,
                };
                proof {
                    assert(-0x8000_0000_0000_0000 * 0x1_0000_0000 <= v * h <= 0x8000_0000_0000_0000 * 0x1_0000_0000) by (nonlinear_arith)
                        requires -0x8000_0000_0000_0000 <= v <= 0x8000_0000_0000_0000, 0 <= h <= 0x1_0000_0000;
                }
                floor_div(v as i128 * h, 100)
            },
            Length::Vw(v) => {
                let w: i128 = match sizing.viewport.width {
                    Some(w) => w as i128,
                    None => 0,
                };
                proof {
                    assert(-0x8000_0000_0000_0000 * 0x1_0000_0000 <= v * w <= 0x8000_0000_0000_0000 * 0x1_0000_0000) by (nonlinear_arith)
                        requires -0x8000_0000_0000_0000 <= v <= 0x8000_0000_0000_0000, 0 <= w <= 0x1_0000_0000;
                }
                floor_div(v as i128 * w, 100)
            },
            Length::Cm(v) => {
                proof { crate::numeric::lemma_div_within(v * 4800, 0x8000_0000_0000_0000int * 4800, 127int); }
                floor_div(v as i128 * 4800, 127)
            },
            Length::Mm(v) => {
                proof { crate::numeric::lemma_div_within(v * 480, 0x8000_0000_0000_0000int * 480, 127int); }
                floor_div(v as i128 * 480, 127)
            },
            Length::In(v) => v as i128 * 96,
            Length::Q(v) => {
                proof { crate::numeric::lemma_div_within(v * 120, 0x8000_0000_0000_0000int * 120, 127int); }
                floor_div(v as i128 * 120, 127)
            },
            Length::Pt(v) => {
                proof { crate::numeric::lemma_div_within(v * 4, 0x8000_0000_0000_0000int * 4, 3int); }
                floor_div(v as i128 * 4, 3)
            },
            Length::Pc(v) => v as i128 * 16,
            Length::Calc(handle) => {
                let linear = calc_handle_to_linear(handle, sizing);
                proof { lemma_i64_product(linear.percent as int, percentage_full_px as int); }
                linear.px as i128 + floor_div(linear.percent as i128 * percentage_full_px as i128, UNIT as i128)
            },
        }
    }

    /// The value in device pixels (millionths) when a percentage is taken of
    /// `percentage_full_px`.
    pub fn to_px(self, sizing: &Sizing, percentage_full_px: i64) -> (r: i64)
        requires
            self.wf(),
            sizing.wf(),
        ensures
            r == self.px_value(*sizing, percentage_full_px as int),
    {
        let value = self.to_px_pre_dpr(sizing, percentage_full_px);
        match self {
            Length::Auto | Length::Percentage(_) | Length::Vh(_) | Length::Vw(_) | Length::Em(_)
            | Length::Calc(_) => saturate(value),
            _ => {
                let dpr = sizing.viewport.device_pixel_ratio;
                proof {
                    assert(-0x2_0000_0000_0000_0000_0000 * MAX_SIZING <= value * dpr <= 0x2_0000_0000_0000_0000_0000 * MAX_SIZING) by (nonlinear_arith)
                        requires -0x2_0000_0000_0000_0000_0000 <= value <= 0x2_0000_0000_0000_0000_0000, 0 <= dpr <= MAX_SIZING;
                }
                saturate(floor_div(value * dpr as i128, UNIT as i128))
            },
        }
    }
}

/// A product of two `i64` values fits an `i128`.
pub proof fn lemma_i64_product(a: int, b: int)
    requires
        i64::MIN <= a <= i64::MAX,
        i64::MIN <= b <= i64::MAX,
    ensures
        -0x4000_0000_0000_0000_0000_0000_0000_0000 <= a * b <= 0x4000_0000_0000_0000_0000_0000_0000_0000,
{
    assert(-0x4000_0000_0000_0000_0000_0000_0000_0000 <= a * b <= 0x4000_0000_0000_0000_0000_0000_0000_0000) by (nonlinear_arith)
        requires
            -0x8000_0000_0000_0000 <= a <= 0x8000_0000_0000_0000,
            -0x8000_0000_0000_0000 <= b <= 0x8000_0000_0000_0000,
    ;
}

} // verus!

verus! {

/// Largest number of linear forms that a `CalcArena` holds.
pub const ARENA_CAPACITY: usize = 0x10_0000;

/// Number of arena generations a handle tells apart.
pub const ARENA_GENERATIONS: usize = 256;

/// The identifier a handle encodes: the position of the linear form (counted from one) and
/// the generation of the arena that holds it.
pub open spec fn handle_id(index: int, generation: int) -> int {
    index * ARENA_GENERATIONS + generation
}

/// The generation that the handle `val` names.
pub open spec fn handle_generation(val: usize) -> int {
    (val as int / 8) % (ARENA_GENERATIONS as int)
}

/// The position (counted from one) that the handle `val` names.
pub open spec fn handle_index(val: usize) -> int {
    (val as int / 8) / (ARENA_GENERATIONS as int)
}

/// The handle value of the `id`-th registered linear form (counted from one): the low three
/// bits stay clear.
pub open spec fn encoded_id(id: int) -> int {
    id * 8
}

/// Encodes the identifier of a registered linear form as a handle.
pub fn encode_linear_id(id: usize) -> (r: usize)
    requires
        id <= usize::MAX >> 3,
    ensures
        r == encoded_id(id as int),
{
    proof {
        vstd::arithmetic::power2::lemma2_to64();
        vstd::bits::lemma_usize_shr_is_div(usize::MAX, 3);
        assert(id * 8 <= usize::MAX) by (nonlinear_arith)
            requires
                id <= usize::MAX / 8,
        ;
        vstd::bits::lemma_usize_shl_is_mul(id, 3);
    }
    id << 3
}

/// Decodes a handle back into the identifier it was made from; the null handle has none.
pub fn decode_linear_id(ptr: usize) -> (r: Option<usize>)
    ensures
        r == if ptr == 0 {
            None
        } else {
            Some((ptr / 8) as usize)
        },
{
    proof {
        vstd::arithmetic::power2::lemma2_to64();
        vstd::bits::lemma_usize_shr_is_div(ptr, 3);
    }
    if ptr != 0 {
        Some(ptr >> 3)
    } else {
        None
    }
}

/// Storage for the linear forms that a render hands to the external layout engine by handle.
pub struct CalcArena {
    generation: u8,
    linear_values: Vec<CalcLinear>,
}

impl CalcArena {
    /// The registered linear forms, in order of registration.
    pub closed spec fn values(&self) -> Seq<CalcLinear> {
        self.linear_values@
    }

    /// The generation this arena was made with; its handles carry it.
    pub closed spec fn generation(&self) -> int {
        self.generation as int
    }

    /// An empty arena of the given generation. Arenas that live at the same time should have
    /// different generations: a handle only resolves against an arena of its own generation.
    pub fn new(generation: u8) -> (r: Self)
        ensures
            r.values() == Seq::<CalcLinear>::empty(),
            r.generation() == generation,
    {
        CalcArena { generation, linear_values: Vec::new() }
    }

    /// How many linear forms are registered.
    pub fn len(&self) -> (r: usize)
        ensures
            r == self.values().len(),
    {
        self.linear_values.len()
    }

    /// Registers a linear form and returns its handle, which names its position and this
    /// arena's generation.
    pub fn register_linear(&mut self, linear: CalcLinear) -> (r: usize)
        requires
            old(self).values().len() < ARENA_CAPACITY,
        ensures
            final(self).values() == old(self).values().push(linear),
            final(self).generation() == old(self).generation(),
            r == encoded_id(handle_id(final(self).values().len() as int, final(self).generation())),
    {
        self.linear_values.push(linear);
        proof {
            vstd::arithmetic::power2::lemma2_to64();
            vstd::bits::lemma_usize_shr_is_div(usize::MAX, 3);
        }
        let id = self.linear_values.len() * ARENA_GENERATIONS + self.generation as usize;
        encode_linear_id(id)
    }

    /// Resolves a handle against a basis (both in millionths); a handle that this arena did not
    /// hand out, by position or by generation, resolves to zero.
    pub fn resolve_calc_value(&self, val: usize, basis: i64) -> (r: i64)
        ensures
            r == if handle_generation(val) == self.generation() && handle_index(val) >= 1
                && handle_index(val) <= self.values().len() {
                clamp_i64(
                    linear_value(
                        self.values()[handle_index(val) - 1].px as int,
                        self.values()[handle_index(val) - 1].percent as int,
                        basis as int,
                    ),
                )
            } else {
                0
            },
    {
        let id = match decode_linear_id(val) {
            Some(id) => id,
            None => return 0,
        };
        if id % ARENA_GENERATIONS != self.generation as usize {
            return 0;
        }
        let index = id / ARENA_GENERATIONS;
        if index >= 1 && index <= self.linear_values.len() {
            self.linear_values[index - 1].resolve(basis)
        } else {
            0
        }
    }
}

/// What `Length::to_compact_length` yields under a sizing, with `h` the handle it registers.
pub open spec fn compact_of(l: Length, s: Sizing, h: usize) -> CompactLength {
    match l {
        Length::Auto => CompactLength::Auto,
        Length::Percentage(v) => CompactLength::Percent((v / 100) as i64),
        Length::Em(v) => CompactLength::Length(clamp_i64(v * s.font_size / (UNIT as int)) as i64),
        Length::Vh(v) => CompactLength::Length(clamp_i64(v * s.viewport.height_px() / 100) as i64),
        Length::Vw(v) => CompactLength::Length(clamp_i64(v * s.viewport.width_px() / 100) as i64),
        Length::Calc(c) => {
            let lin = handle_linear(c, s);
            if near_zero(lin.percent as int) {
                CompactLength::Length(lin.px)
            } else if near_zero(lin.px as int) {
                CompactLength::Percent(lin.percent)
            } else {
                CompactLength::Calc(h)
            }
        },
        _ => CompactLength::Length(l.px_value(s, s.viewport.width_px()) as i64),
    }
}

/// Whether converting `l` registers a linear form in the arena.
pub open spec fn registers_linear(l: Length, s: Sizing) -> bool {
    l matches Length::Calc(c) && !near_zero(handle_linear(c, s).percent as int) && !near_zero(
        handle_linear(c, s).px as int,
    )
}

impl Length {
    /// Converts the length into the form the external layout engine takes; a linear calc form
    /// with both terms non-zero is registered in `arena` and passed by handle.
    pub fn to_compact_length(self, sizing: &Sizing, arena: &mut CalcArena) -> (r: CompactLength)
        requires
            self.wf(),
            sizing.wf(),
            old(arena).values().len() < ARENA_CAPACITY,
        ensures
            final(arena).generation() == old(arena).generation(),
            registers_linear(self, *sizing) ==> final(arena).values() == old(arena).values().push(
                handle_linear(self->Calc_0, *sizing),
            ) && r == CompactLength::Calc(
                encoded_id(handle_id(final(arena).values().len() as int, final(arena).generation())) as usize,
            ),
            !registers_linear(self, *sizing) ==> final(arena).values() == old(arena).values() && r
                == compact_of(self, *sizing, 0),
    {
        match self {
            Length::Auto => CompactLength::Auto,
            Length::Percentage(value) => CompactLength::Percent(floor_div(value as i128, 100) as i64),
            Length::Em(_) | Length::Vh(_) | Length::Vw(_) => CompactLength::Length(
                saturate(self.to_px_pre_dpr(sizing, 0)),
            ),
            Length::Calc(handle) => {
                let linear = calc_handle_to_linear(handle, sizing);
                if is_near_zero(linear.percent) {
                    return CompactLength::Length(linear.px);
                }
                if is_near_zero(linear.px) {
                    return CompactLength::Percent(linear.percent);
                }
                CompactLength::Calc(arena.register_linear(linear))
            },
            _ => {
                let width: i64 = match sizing.viewport.width {
                    Some(w) => w as i64,
                    None => 0,
                };
                CompactLength::Length(self.to_px(sizing, width))
            },
        }
    }

    /// Replaces `em` lengths and calc formulas with their computed values. An `em` length
    /// becomes pixels, and so does a formula without a percentage; both have the device-pixel
    /// ratio taken back out, since `to_px` puts it in again for pixels and neither `em` nor a
    /// resolved formula is scaled by it. A formula without pixels becomes a percentage, and a
    /// mixed one its linear form.
    pub fn make_computed(&mut self, sizing: &Sizing)
        requires
            old(self).wf(),
            sizing.wf(),
        ensures
            final(self).wf(),
            *final(self) == computed_of(*old(self), *sizing),
    {
        match *self {
            Length::Em(em) => {
                proof {
                    assert(-0x8000_0000_0000_0000 * MAX_SIZING <= em * sizing.font_size <= 0x8000_0000_0000_0000 * MAX_SIZING) by (nonlinear_arith)
                        requires -0x8000_0000_0000_0000 <= em <= 0x8000_0000_0000_0000, 0 <= sizing.font_size <= MAX_SIZING;
                }
                *self = Length::Px(
                    saturate(floor_div(em as i128 * sizing.font_size as i128, sizing.viewport.device_pixel_ratio as i128)),
                );
            },
            Length::Calc(CalcHandle::Formula(formula)) => {
                let linear = formula.resolve(sizing);
                if is_near_zero(linear.percent) {
                    let dpr = sizing.viewport.device_pixel_ratio;
                    proof {
                        assert(-0x8000_0000_0000_0000 * UNIT <= linear.px * UNIT <= 0x8000_0000_0000_0000 * UNIT) by (nonlinear_arith)
                            requires -0x8000_0000_0000_0000 <= linear.px <= 0x8000_0000_0000_0000;
                    }
                    *self = Length::Px(saturate(floor_div(linear.px as i128 * UNIT as i128, dpr as i128)));
                } else if is_near_zero(linear.px) {
                    *self = Length::Percentage(formula.percent * 100);
                } else {
                    *self = Length::Calc(CalcHandle::Linear(linear));
                }
            },
            _ => {},
        }
    }
}

/// The computed value of a length under a sizing.
pub open spec fn computed_of(l: Length, s: Sizing) -> Length {
    match l {
        Length::Em(v) => Length::Px(
            clamp_i64(v * s.font_size / (s.viewport.device_pixel_ratio as int)) as i64,
        ),
        Length::Calc(CalcHandle::Formula(f)) => {
            let px = clamp_i64(f.px_sum(s));
            if near_zero(f.percent as int) {
                Length::Px(clamp_i64(px * UNIT / (s.viewport.device_pixel_ratio as int)) as i64)
            } else if near_zero(px) {
                Length::Percentage((f.percent * 100) as i64)
            } else {
                Length::Calc(CalcHandle::Linear(CalcLinear { px: px as i64, percent: f.percent }))
            }
        },
        _ => l,
    }
}

impl Default for Length {
    fn default() -> (r: Self)
        ensures
            r == Length::Auto,
    {
        Length::Auto
    }
}

} // verus!

verus! {

/// The formula whose coefficient of each unit `u` is `c(u)`.
pub open spec fn from_coeffs(c: spec_fn(Unit) -> int) -> CalcFormula {
    CalcFormula {
        px: c(Unit::Px) as i64,
        percent: c(Unit::Percent) as i64,
        rem: c(Unit::Rem) as i64,
        em: c(Unit::Em) as i64,
        vh: c(Unit::Vh) as i64,
        vw: c(Unit::Vw) as i64,
        cm: c(Unit::Cm) as i64,
        mm: c(Unit::Mm) as i64,
        inch: c(Unit::In) as i64,
        q: c(Unit::Q) as i64,
        pt: c(Unit::Pt) as i64,
        pc: c(Unit::Pc) as i64,
    }
}

/// Whether every `c(u)` lies within `[-LIMIT, LIMIT]`.
pub open spec fn all_within(c: spec_fn(Unit) -> int) -> bool {
    forall|u: Unit| -LIMIT <= #[trigger] c(u) <= LIMIT
}

/// The formula with coefficients `c`, where they all lie within bounds.
pub open spec fn formula_of(c: spec_fn(Unit) -> int) -> Option<CalcFormula> {
    if all_within(c) {
        Some(from_coeffs(c))
    } else {
        None
    }
}

/// Two formulas with the same coefficients are the same formula.
pub proof fn lemma_formula_ext(a: CalcFormula, b: CalcFormula)
    requires
        forall|u: Unit| #[trigger] a.coeff(u) == b.coeff(u),
    ensures
        a == b,
{
    assert(a.coeff(Unit::Px) == b.coeff(Unit::Px));
    assert(a.coeff(Unit::Percent) == b.coeff(Unit::Percent));
    assert(a.coeff(Unit::Rem) == b.coeff(Unit::Rem));
    assert(a.coeff(Unit::Em) == b.coeff(Unit::Em));
    assert(a.coeff(Unit::Vh) == b.coeff(Unit::Vh));
    assert(a.coeff(Unit::Vw) == b.coeff(Unit::Vw));
    assert(a.coeff(Unit::Cm) == b.coeff(Unit::Cm));
    assert(a.coeff(Unit::Mm) == b.coeff(Unit::Mm));
    assert(a.coeff(Unit::In) == b.coeff(Unit::In));
    assert(a.coeff(Unit::Q) == b.coeff(Unit::Q));
    assert(a.coeff(Unit::Pt) == b.coeff(Unit::Pt));
    assert(a.coeff(Unit::Pc) == b.coeff(Unit::Pc));
}

/// The formula built from bounded coefficients has those coefficients.
pub proof fn lemma_from_coeffs(c: spec_fn(Unit) -> int)
    requires
        all_within(c),
    ensures
        forall|u: Unit| #[trigger] from_coeffs(c).coeff(u) == c(u),
        from_coeffs(c).wf(),
{
    assert(-LIMIT <= c(Unit::Px) <= LIMIT);
    assert(-LIMIT <= c(Unit::Percent) <= LIMIT);
    assert(-LIMIT <= c(Unit::Rem) <= LIMIT);
    assert(-LIMIT <= c(Unit::Em) <= LIMIT);
    assert(-LIMIT <= c(Unit::Vh) <= LIMIT);
    assert(-LIMIT <= c(Unit::Vw) <= LIMIT);
    assert(-LIMIT <= c(Unit::Cm) <= LIMIT);
    assert(-LIMIT <= c(Unit::Mm) <= LIMIT);
    assert(-LIMIT <= c(Unit::In) <= LIMIT);
    assert(-LIMIT <= c(Unit::Q) <= LIMIT);
    assert(-LIMIT <= c(Unit::Pt) <= LIMIT);
    assert(-LIMIT <= c(Unit::Pc) <= LIMIT);
}

/// A formula is the one built from its own coefficients.
pub proof fn lemma_formula_of_result(r: CalcFormula, c: spec_fn(Unit) -> int)
    requires
        all_within(c),
        forall|u: Unit| #[trigger] r.coeff(u) == c(u),
    ensures
        formula_of(c) == Some(r),
{
    lemma_from_coeffs(c);
    lemma_formula_ext(r, from_coeffs(c));
}

} // verus!

verus! {

impl CalcFormula {
    /// Whether every coefficient lies within `[-LIMIT, LIMIT]`.
    pub fn is_wf(&self) -> (r: bool)
        ensures
            r == self.wf(),
    {
        let r = in_limit(self.px)
            && in_limit(self.percent)
            && in_limit(self.rem)
            && in_limit(self.em)
            && in_limit(self.vh)
            && in_limit(self.vw)
            && in_limit(self.cm)
            && in_limit(self.mm)
            && in_limit(self.inch)
            && in_limit(self.q)
            && in_limit(self.pt)
            && in_limit(self.pc);
        proof {
            if !r {
                assert(!(-LIMIT <= self.coeff(Unit::Px) <= LIMIT && -LIMIT <= self.coeff(Unit::Percent) <= LIMIT && -LIMIT <= self.coeff(Unit::Rem) <= LIMIT && -LIMIT <= self.coeff(Unit::Em) <= LIMIT && -LIMIT <= self.coeff(Unit::Vh) <= LIMIT && -LIMIT <= self.coeff(Unit::Vw) <= LIMIT && -LIMIT <= self.coeff(Unit::Cm) <= LIMIT && -LIMIT <= self.coeff(Unit::Mm) <= LIMIT && -LIMIT <= self.coeff(Unit::In) <= LIMIT && -LIMIT <= self.coeff(Unit::Q) <= LIMIT && -LIMIT <= self.coeff(Unit::Pt) <= LIMIT && -LIMIT <= self.coeff(Unit::Pc) <= LIMIT));
            }
        }
        r
    }
}

impl Length {
    /// Whether the length is well formed (see `wf`).
    pub fn is_wf(&self) -> (r: bool)
        ensures
            r == self.wf(),
    {
        match self {
            Length::Auto => true,
            Length::Calc(CalcHandle::Formula(f)) => f.is_wf(),
            Length::Calc(CalcHandle::Linear(l)) => l.px > i64::MIN && l.percent > i64::MIN,
            Length::Percentage(v) => *v > i64::MIN,
            Length::Rem(v) => *v > i64::MIN,
            Length::Em(v) => *v > i64::MIN,
            Length::Vh(v) => *v > i64::MIN,
            Length::Vw(v) => *v > i64::MIN,
            Length::Cm(v) => *v > i64::MIN,
            Length::Mm(v) => *v > i64::MIN,
            Length::In(v) => *v > i64::MIN,
            Length::Q(v) => *v > i64::MIN,
            Length::Pt(v) => *v > i64::MIN,
            Length::Pc(v) => *v > i64::MIN,
            Length::Px(v) => *v > i64::MIN,
        }
    }
}

} // verus!
