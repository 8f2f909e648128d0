use vstd::prelude::*;

use crate::length::Unit;
use crate::numeric::{LIMIT, UNIT};

verus! {

/// A token of the CSS value syntax that lengths and `calc()` expressions are written in.
/// Numbers are in millionths.
#[derive(Debug, Clone, Copy, PartialEq, Eq, Structural)]
pub enum Token {
    /// A number without unit.
    Number(i64),
    /// A number followed by `%`, on the scale 0 to 100.
    Percentage(i64),
    /// A number followed by a unit name.
    Dimension(i64, Unit),
    /// The keyword `auto`.
    Auto,
    /// A number followed by an angle unit.
    AngleDimension(i64, AngleUnit),
    /// The start of a nested `calc(` block.
    CalcOpen,
    /// The start of a transform function's arguments, such as `rotate(`.
    Function(TransformFunction),
    /// A comma.
    Comma,
    /// A closing parenthesis.
    CloseParen,
    /// One of `+ - * /`.
    Delim(u8),
}

/// The units an angle can be written in.
#[derive(Debug, Clone, Copy, PartialEq, Eq, Structural)]
pub enum AngleUnit {
    /// Degrees.
    Deg,
    /// Radians.
    Rad,
    /// Gradians (400 to the turn).
    Grad,
    /// Turns.
    Turn,
}

/// The CSS transform functions.
#[derive(Debug, Clone, Copy, PartialEq, Eq, Structural)]
pub enum TransformFunction {
    /// `translate(x, y)`.
    Translate,
    /// `translateX(x)`.
    TranslateX,
    /// `translateY(y)`.
    TranslateY,
    /// `scale(x[, y])`.
    Scale,
    /// `scaleX(x)`.
    ScaleX,
    /// `scaleY(y)`.
    ScaleY,
    /// `skew(x, y)`.
    Skew,
    /// `skewX(x)`.
    SkewX,
    /// `skewY(y)`.
    SkewY,
    /// `rotate(angle)`.
    Rotate,
    /// `matrix(a b c d x y)`.
    Matrix,
}

/// ASCII white space as CSS knows it.
pub open spec fn is_space(b: u8) -> bool {
    b == 32 || b == 9 || b == 10 || b == 13 || b == 12
}

/// An ASCII digit.
pub open spec fn is_digit(b: u8) -> bool {
    48 <= b <= 57
}

/// An ASCII letter.
pub open spec fn is_letter(b: u8) -> bool {
    (65 <= b <= 90) || (97 <= b <= 122)
}

/// The lower-case form of an ASCII byte.
pub open spec fn lower(b: u8) -> u8 {
    if 65 <= b <= 90 {
        (b + 32) as u8
    } else {
        b
    }
}

/// The first position at or after `i` that holds no white space.
pub open spec fn skip_spaces(s: Seq<u8>, i: int) -> int
    decreases s.len() - i,
{
    if 0 <= i < s.len() && is_space(s[i]) {
        skip_spaces(s, i + 1)
    } else {
        i
    }
}

/// The end of the run of digits that starts at `i`.
pub open spec fn digits_end(s: Seq<u8>, i: int) -> int
    decreases s.len() - i,
{
    if 0 <= i < s.len() && is_digit(s[i]) {
        digits_end(s, i + 1)
    } else {
        i
    }
}

/// The end of the run of letters that starts at `i`.
pub open spec fn letters_end(s: Seq<u8>, i: int) -> int
    decreases s.len() - i,
{
    if 0 <= i < s.len() && is_letter(s[i]) {
        letters_end(s, i + 1)
    } else {
        i
    }
}

/// The decimal value of the digits `s[i..j]`.
pub open spec fn digits_value(s: Seq<u8>, i: int, j: int) -> int
    decreases j - i,
{
    if j <= i {
        0
    } else {
        digits_value(s, i, j - 1) * 10 + (s[j - 1] - 48)
    }
}

/// `10` to the power `k`.
pub open spec fn pow10(k: nat) -> int
    decreases k,
{
    if k == 0 {
        1
    } else {
        10 * pow10((k - 1) as nat)
    }
}

/// The millionths that the fraction digits `s[a..b]` stand for; digits past the sixth are
/// dropped.
pub open spec fn fraction_value(s: Seq<u8>, a: int, b: int) -> int {
    let e = if b > a + 6 {
        a + 6
    } else {
        b
    };
    digits_value(s, a, e) * pow10((6 - (e - a)) as nat)
}

/// The number literal at `i` (digits, then optionally `.` and more digits), in millionths,
/// with the position after it.
pub open spec fn number_at(s: Seq<u8>, i: int) -> Option<(int, int)> {
    let a = digits_end(s, i);
    if a + 1 < s.len() && s[a] == 46 && is_digit(s[a + 1]) {
        let b = digits_end(s, a + 1);
        Some((digits_value(s, i, a) * UNIT + fraction_value(s, a + 1, b), b))
    } else if a > i {
        Some((digits_value(s, i, a) * UNIT, a))
    } else {
        None
    }
}

/// Whether `s[i..j]` spells `word` (lower case) in any case.
pub open spec fn spells(s: Seq<u8>, i: int, j: int, word: Seq<u8>) -> bool {
    &&& j - i == word.len()
    &&& forall|k: int| 0 <= k < word.len() ==> lower(#[trigger] s[i + k]) == word[k]
}

/// The unit that `s[i..j]` names, in any case.
pub open spec fn unit_named(s: Seq<u8>, i: int, j: int) -> Option<Unit> {
    if spells(s, i, j, seq![112u8, 120]) {
        Some(Unit::Px)
    } else if spells(s, i, j, seq![101u8, 109]) {
        Some(Unit::Em)
    } else if spells(s, i, j, seq![114u8, 101, 109]) {
        Some(Unit::Rem)
    } else if spells(s, i, j, seq![118u8, 119]) {
        Some(Unit::Vw)
    } else if spells(s, i, j, seq![118u8, 104]) {
        Some(Unit::Vh)
    } else if spells(s, i, j, seq![99u8, 109]) {
        Some(Unit::Cm)
    } else if spells(s, i, j, seq![109u8, 109]) {
        Some(Unit::Mm)
    } else if spells(s, i, j, seq![105u8, 110]) {
        Some(Unit::In)
    } else if spells(s, i, j, seq![113u8]) {
        Some(Unit::Q)
    } else if spells(s, i, j, seq![112u8, 116]) {
        Some(Unit::Pt)
    } else if spells(s, i, j, seq![112u8, 99]) {
        Some(Unit::Pc)
    } else {
        None
    }
}

/// The angle unit that `s[i..j]` names, in any case.
pub open spec fn angle_unit_named(s: Seq<u8>, i: int, j: int) -> Option<AngleUnit> {
    if spells(s, i, j, seq![100u8, 101, 103]) {
        Some(AngleUnit::Deg)
    } else if spells(s, i, j, seq![114u8, 97, 100]) {
        Some(AngleUnit::Rad)
    } else if spells(s, i, j, seq![103u8, 114, 97, 100]) {
        Some(AngleUnit::Grad)
    } else if spells(s, i, j, seq![116u8, 117, 114, 110]) {
        Some(AngleUnit::Turn)
    } else {
        None
    }
}

/// The transform function that `s[i..j]` names, in any case.
pub open spec fn function_named(s: Seq<u8>, i: int, j: int) -> Option<TransformFunction> {
    if spells(s, i, j, seq![116u8, 114, 97, 110, 115, 108, 97, 116, 101]) {
        Some(TransformFunction::Translate)
    } else if spells(s, i, j, seq![116u8, 114, 97, 110, 115, 108, 97, 116, 101, 120]) {
        Some(TransformFunction::TranslateX)
    } else if spells(s, i, j, seq![116u8, 114, 97, 110, 115, 108, 97, 116, 101, 121]) {
        Some(TransformFunction::TranslateY)
    } else if spells(s, i, j, seq![115u8, 99, 97, 108, 101]) {
        Some(TransformFunction::Scale)
    } else if spells(s, i, j, seq![115u8, 99, 97, 108, 101, 120]) {
        Some(TransformFunction::ScaleX)
    } else if spells(s, i, j, seq![115u8, 99, 97, 108, 101, 121]) {
        Some(TransformFunction::ScaleY)
    } else if spells(s, i, j, seq![115u8, 107, 101, 119]) {
        Some(TransformFunction::Skew)
    } else if spells(s, i, j, seq![115u8, 107, 101, 119, 120]) {
        Some(TransformFunction::SkewX)
    } else if spells(s, i, j, seq![115u8, 107, 101, 119, 121]) {
        Some(TransformFunction::SkewY)
    } else if spells(s, i, j, seq![114u8, 111, 116, 97, 116, 101]) {
        Some(TransformFunction::Rotate)
    } else if spells(s, i, j, seq![109u8, 97, 116, 114, 105, 120]) {
        Some(TransformFunction::Matrix)
    } else {
        None
    }
}

/// The token that starts at the first non-space position at or after `i`, with the position
/// after it; `None` at the end of the input or where no token is valid.
pub open spec fn token_at(s: Seq<u8>, i: int) -> Option<(Token, int)> {
    let p = skip_spaces(s, i);
    if p >= s.len() || p < 0 {
        None
    } else {
        let b = s[p];
        if is_digit(b) || b == 46 {
            match number_at(s, p) {
                None => None,
                Some((v, e)) => if v > LIMIT {
                    None
                } else if e < s.len() && s[e] == 37 {
                    Some((Token::Percentage(v as i64), e + 1))
                } else if e < s.len() && is_letter(s[e]) {
                    match unit_named(s, e, letters_end(s, e)) {
                        Some(u) => Some((Token::Dimension(v as i64, u), letters_end(s, e))),
                        None => match angle_unit_named(s, e, letters_end(s, e)) {
                            Some(u) => Some((Token::AngleDimension(v as i64, u), letters_end(s, e))),
                            None => None,
                        },
                    }
                } else {
                    Some((Token::Number(v as i64), e))
                },
            }
        } else if is_letter(b) {
            let c = letters_end(s, p);
            if c < s.len() && s[c] == 40 {
                if spells(s, p, c, seq![99u8, 97, 108, 99]) {
                    Some((Token::CalcOpen, c + 1))
                } else {
                    match function_named(s, p, c) {
                        Some(f) => Some((Token::Function(f), c + 1)),
                        None => None,
                    }
                }
            } else if spells(s, p, c, seq![97u8, 117, 116, 111]) {
                Some((Token::Auto, c))
            } else {
                None
            }
        } else if b == 43 || b == 45 || b == 42 || b == 47 {
            Some((Token::Delim(b), p + 1))
        } else if b == 41 {
            Some((Token::CloseParen, p + 1))
        } else if b == 44 {
            Some((Token::Comma, p + 1))
        } else {
            None
        }
    }
}

/// Whether only white space is left from `i` on.
pub open spec fn at_end(s: Seq<u8>, i: int) -> bool {
    skip_spaces(s, i) >= s.len()
}

} // verus!

verus! {

/// The decimal value of a run of digits is non-negative and has at most as many digits.
pub proof fn lemma_digits_value_bound(s: Seq<u8>, i: int, j: int)
    requires
        0 <= i <= j <= s.len(),
        forall|k: int| i <= k < j ==> is_digit(#[trigger] s[k]),
    ensures
        0 <= digits_value(s, i, j) < pow10((j - i) as nat),
    decreases j - i,
{
    if j > i {
        lemma_digits_value_bound(s, i, j - 1);
    }
}

fn is_space_byte(b: u8) -> (r: bool)
    ensures
        r == is_space(b),
{
    b == 32 || b == 9 || b == 10 || b == 13 || b == 12
}

fn is_digit_byte(b: u8) -> (r: bool)
    ensures
        r == is_digit(b),
{
    48 <= b && b <= 57
}

fn is_letter_byte(b: u8) -> (r: bool)
    ensures
        r == is_letter(b),
{
    (65 <= b && b <= 90) || (97 <= b && b <= 122)
}

/// Skips white space from `i` on.
pub fn skip_spaces_exec(s: &[u8], i: usize) -> (r: usize)
    requires
        i <= s@.len(),
    ensures
        r == skip_spaces(s@, i as int),
        i <= r <= s@.len(),
{
    let mut j = i;
    while j < s.len() && is_space_byte(s[j])
        invariant
            i <= j <= s@.len(),
            skip_spaces(s@, i as int) == skip_spaces(s@, j as int),
        decreases s@.len() - j,
    {
        j = j + 1;
    }
    j
}

/// Finds the end of the run of letters at `i`.
fn letters_end_exec(s: &[u8], i: usize) -> (r: usize)
    requires
        i <= s@.len(),
    ensures
        r == letters_end(s@, i as int),
        i <= r <= s@.len(),
        forall|k: int| i <= k < r ==> is_letter(#[trigger] s@[k]),
{
    let mut j = i;
    while j < s.len() && is_letter_byte(s[j])
        invariant
            i <= j <= s@.len(),
            letters_end(s@, i as int) == letters_end(s@, j as int),
            forall|k: int| i <= k < j ==> is_letter(#[trigger] s@[k]),
        decreases s@.len() - j,
    {
        j = j + 1;
    }
    j
}

/// Reads the whole digits at `i`: their end, their value, and whether that value exceeds
/// `LIMIT` (the value is only exact when it does not).
fn scan_integer(s: &[u8], i: usize) -> (r: (usize, u64, bool))
    requires
        i <= s@.len(),
    ensures
        r.0 == digits_end(s@, i as int),
        i <= r.0 <= s@.len(),
        !r.2 ==> r.1 == digits_value(s@, i as int, r.0 as int) && r.1 <= LIMIT,
        r.2 ==> digits_value(s@, i as int, r.0 as int) > LIMIT,
{
    let mut j = i;
    let mut value: u64 = 0;
    let mut big = false;
    while j < s.len() && is_digit_byte(s[j])
        invariant
            i <= j <= s@.len(),
            digits_end(s@, i as int) == digits_end(s@, j as int),
            !big ==> value == digits_value(s@, i as int, j as int) && value <= LIMIT,
            big ==> digits_value(s@, i as int, j as int) > LIMIT,
        decreases s@.len() - j,
    {
        let d = (s[j] - 48) as u64;
        if !big {
            let next = value * 10 + d;
            if next > LIMIT as u64 {
                big = true;
            } else {
                value = next;
            }
        }
        j = j + 1;
    }
    (j, value, big)
}

/// The first powers of ten.
pub proof fn lemma_pow10_table()
    ensures
        pow10(0) == 1,
        pow10(1) == 10,
        pow10(2) == 100,
        pow10(3) == 1_000,
        pow10(4) == 10_000,
        pow10(5) == 100_000,
        pow10(6) == 1_000_000,
{
    reveal_with_fuel(pow10, 7);
}

/// Reads the fraction digits at `a`: their end, and the millionths the first six stand for.
fn scan_fraction(s: &[u8], a: usize) -> (r: (usize, u64))
    requires
        a <= s@.len(),
    ensures
        r.0 == digits_end(s@, a as int),
        a <= r.0 <= s@.len(),
        r.1 == fraction_value(s@, a as int, r.0 as int),
        r.1 < UNIT,
        forall|k: int| a <= k < r.0 ==> is_digit(#[trigger] s@[k]),
{
    proof {
        lemma_pow10_table();
    }
    let mut j = a;
    let mut n: usize = 0;
    let mut value: u64 = 0;
    while j < s.len() && is_digit_byte(s[j])
        invariant
            a <= j <= s@.len(),
            n <= 6,
            n == (if j - a > 6 { 6 } else { j - a }),
            digits_end(s@, a as int) == digits_end(s@, j as int),
            forall|k: int| a <= k < j ==> is_digit(#[trigger] s@[k]),
            value == digits_value(s@, a as int, a + n),
            value < pow10(n as nat),
            pow10(0) == 1,
            pow10(1) == 10,
            pow10(2) == 100,
            pow10(3) == 1_000,
            pow10(4) == 10_000,
            pow10(5) == 100_000,
            pow10(6) == 1_000_000,
        decreases s@.len() - j,
    {
        if n < 6 {
            value = value * 10 + (s[j] - 48) as u64;
            n = n + 1;
        }
        j = j + 1;
    }
    let ghost digits = value as int;
    let ghost end = j;
    let mut k: usize = n;
    assert(value == digits * pow10((k - n) as nat)) by {
        assert(pow10((k - n) as nat) == 1);
    }
    while k < 6
        invariant
            n <= k <= 6,
            value == digits * pow10((k - n) as nat),
            value < pow10(k as nat),
            j == end,
            forall|k: int| a <= k < j ==> is_digit(#[trigger] s@[k]),
            pow10(0) == 1,
            pow10(1) == 10,
            pow10(2) == 100,
            pow10(3) == 1_000,
            pow10(4) == 10_000,
            pow10(5) == 100_000,
            pow10(6) == 1_000_000,
        decreases 6 - k,
    {
        proof {
            assert(pow10((k + 1 - n) as nat) == 10 * pow10((k - n) as nat));
            assert(pow10((k + 1) as nat) == 10 * pow10(k as nat));
            assert(digits * pow10((k + 1 - n) as nat) == 10 * (digits * pow10((k - n) as nat))) by (nonlinear_arith)
                requires pow10((k + 1 - n) as nat) == 10 * pow10((k - n) as nat);
        }
        value = value * 10;
        k = k + 1;
    }
    (j, value)
}

} // verus!

verus! {

/// The lower-case form of an ASCII byte.
fn lower_byte(b: u8) -> (r: u8)
    ensures
        r == lower(b),
{
    if 65 <= b && b <= 90 {
        b + 32
    } else {
        b
    }
}

/// Whether `s[i..j]` spells `word` in any case.
pub fn spells_exec(s: &[u8], i: usize, j: usize, word: &[u8]) -> (r: bool)
    requires
        i <= j <= s@.len(),
    ensures
        r == spells(s@, i as int, j as int, word@),
{
    if j - i != word.len() {
        return false;
    }
    let mut k: usize = 0;
    while k < word.len()
        invariant
            j - i == word@.len(),
            i <= j <= s@.len(),
            k <= word@.len(),
            forall|m: int| 0 <= m < k ==> lower(#[trigger] s@[i + m]) == word@[m],
        decreases word@.len() - k,
    {
        if lower_byte(s[i + k]) != word[k] {
            return false;
        }
        k = k + 1;
    }
    true
}

/// The unit that `s[i..j]` names.
fn unit_named_exec(s: &[u8], i: usize, j: usize) -> (r: Option<Unit>)
    requires
        i <= j <= s@.len(),
    ensures
        r == unit_named(s@, i as int, j as int),
{
    let px: [u8; 2] = [112, 120];
    let em: [u8; 2] = [101, 109];
    let rem: [u8; 3] = [114, 101, 109];
    let vw: [u8; 2] = [118, 119];
    let vh: [u8; 2] = [118, 104];
    let cm: [u8; 2] = [99, 109];
    let mm: [u8; 2] = [109, 109];
    let inch: [u8; 2] = [105, 110];
    let q: [u8; 1] = [113];
    let pt: [u8; 2] = [112, 116];
    let pc: [u8; 2] = [112, 99];
    proof {
        assert(px@ =~= seq![112u8, 120]);
        assert(em@ =~= seq![101u8, 109]);
        assert(rem@ =~= seq![114u8, 101, 109]);
        assert(vw@ =~= seq![118u8, 119]);
        assert(vh@ =~= seq![118u8, 104]);
        assert(cm@ =~= seq![99u8, 109]);
        assert(mm@ =~= seq![109u8, 109]);
        assert(inch@ =~= seq![105u8, 110]);
        assert(q@ =~= seq![113u8]);
        assert(pt@ =~= seq![112u8, 116]);
        assert(pc@ =~= seq![112u8, 99]);
    }
    if spells_exec(s, i, j, px.as_slice()) {
        Some(Unit::Px)
    } else if spells_exec(s, i, j, em.as_slice()) {
        Some(Unit::Em)
    } else if spells_exec(s, i, j, rem.as_slice()) {
        Some(Unit::Rem)
    } else if spells_exec(s, i, j, vw.as_slice()) {
        Some(Unit::Vw)
    } else if spells_exec(s, i, j, vh.as_slice()) {
        Some(Unit::Vh)
    } else if spells_exec(s, i, j, cm.as_slice()) {
        Some(Unit::Cm)
    } else if spells_exec(s, i, j, mm.as_slice()) {
        Some(Unit::Mm)
    } else if spells_exec(s, i, j, inch.as_slice()) {
        Some(Unit::In)
    } else if spells_exec(s, i, j, q.as_slice()) {
        Some(Unit::Q)
    } else if spells_exec(s, i, j, pt.as_slice()) {
        Some(Unit::Pt)
    } else if spells_exec(s, i, j, pc.as_slice()) {
        Some(Unit::Pc)
    } else {
        None
    }
}

/// The angle unit that `s[i..j]` names.
fn angle_unit_named_exec(s: &[u8], i: usize, j: usize) -> (r: Option<AngleUnit>)
    requires
        i <= j <= s@.len(),
    ensures
        r == angle_unit_named(s@, i as int, j as int),
{
    let deg: [u8; 3] = [100, 101, 103];
    let rad: [u8; 3] = [114, 97, 100];
    let grad: [u8; 4] = [103, 114, 97, 100];
    let turn: [u8; 4] = [116, 117, 114, 110];
    proof {
        assert(deg@ =~= seq![100u8, 101, 103]);
        assert(rad@ =~= seq![114u8, 97, 100]);
        assert(grad@ =~= seq![103u8, 114, 97, 100]);
        assert(turn@ =~= seq![116u8, 117, 114, 110]);
    }
    if spells_exec(s, i, j, deg.as_slice()) {
        Some(AngleUnit::Deg)
    } else if spells_exec(s, i, j, rad.as_slice()) {
        Some(AngleUnit::Rad)
    } else if spells_exec(s, i, j, grad.as_slice()) {
        Some(AngleUnit::Grad)
    } else if spells_exec(s, i, j, turn.as_slice()) {
        Some(AngleUnit::Turn)
    } else {
        None
    }
}

/// The transform function that `s[i..j]` names.
fn function_named_exec(s: &[u8], i: usize, j: usize) -> (r: Option<TransformFunction>)
    requires
        i <= j <= s@.len(),
    ensures
        r == function_named(s@, i as int, j as int),
{
    let translate: [u8; 9] = [116, 114, 97, 110, 115, 108, 97, 116, 101];
    let translate_x: [u8; 10] = [116, 114, 97, 110, 115, 108, 97, 116, 101, 120];
    let translate_y: [u8; 10] = [116, 114, 97, 110, 115, 108, 97, 116, 101, 121];
    let scale: [u8; 5] = [115, 99, 97, 108, 101];
    let scale_x: [u8; 6] = [115, 99, 97, 108, 101, 120];
    let scale_y: [u8; 6] = [115, 99, 97, 108, 101, 121];
    let skew: [u8; 4] = [115, 107, 101, 119];
    let skew_x: [u8; 5] = [115, 107, 101, 119, 120];
    let skew_y: [u8; 5] = [115, 107, 101, 119, 121];
    let rotate: [u8; 6] = [114, 111, 116, 97, 116, 101];
    let matrix: [u8; 6] = [109, 97, 116, 114, 105, 120];
    proof {
        assert(translate@ =~= seq![116u8, 114, 97, 110, 115, 108, 97, 116, 101]);
        assert(translate_x@ =~= seq![116u8, 114, 97, 110, 115, 108, 97, 116, 101, 120]);
        assert(translate_y@ =~= seq![116u8, 114, 97, 110, 115, 108, 97, 116, 101, 121]);
        assert(scale@ =~= seq![115u8, 99, 97, 108, 101]);
        assert(scale_x@ =~= seq![115u8, 99, 97, 108, 101, 120]);
        assert(scale_y@ =~= seq![115u8, 99, 97, 108, 101, 121]);
        assert(skew@ =~= seq![115u8, 107, 101, 119]);
        assert(skew_x@ =~= seq![115u8, 107, 101, 119, 120]);
        assert(skew_y@ =~= seq![115u8, 107, 101, 119, 121]);
        assert(rotate@ =~= seq![114u8, 111, 116, 97, 116, 101]);
        assert(matrix@ =~= seq![109u8, 97, 116, 114, 105, 120]);
    }
    if spells_exec(s, i, j, translate.as_slice()) {
        Some(TransformFunction::Translate)
    } else if spells_exec(s, i, j, translate_x.as_slice()) {
        Some(TransformFunction::TranslateX)
    } else if spells_exec(s, i, j, translate_y.as_slice()) {
        Some(TransformFunction::TranslateY)
    } else if spells_exec(s, i, j, scale.as_slice()) {
        Some(TransformFunction::Scale)
    } else if spells_exec(s, i, j, scale_x.as_slice()) {
        Some(TransformFunction::ScaleX)
    } else if spells_exec(s, i, j, scale_y.as_slice()) {
        Some(TransformFunction::ScaleY)
    } else if spells_exec(s, i, j, skew.as_slice()) {
        Some(TransformFunction::Skew)
    } else if spells_exec(s, i, j, skew_x.as_slice()) {
        Some(TransformFunction::SkewX)
    } else if spells_exec(s, i, j, skew_y.as_slice()) {
        Some(TransformFunction::SkewY)
    } else if spells_exec(s, i, j, rotate.as_slice()) {
        Some(TransformFunction::Rotate)
    } else if spells_exec(s, i, j, matrix.as_slice()) {
        Some(TransformFunction::Matrix)
    } else {
        None
    }
}

/// The number literal at `p`, in millionths, with its end; `None` where `number_at` has none
/// or its value exceeds `LIMIT`.
fn number_exec(s: &[u8], p: usize) -> (r: Option<(i64, usize)>)
    requires
        p <= s@.len(),
    ensures
        r is None <==> (number_at(s@, p as int) is None || (number_at(s@, p as int) matches Some((v, _)) && v > LIMIT)),
        r matches Some((v, e)) ==> number_at(s@, p as int) == Some((v as int, e as int)) && p < e
            <= s@.len() && 0 <= v,
{
    let (a, int_value, big) = scan_integer(s, p);
    if a < s.len() && s.len() - a > 1 && s[a] == 46 && is_digit_byte(s[a + 1]) {
        let (b, frac) = scan_fraction(s, a + 1);
        if big {
            proof {
                crate::token::lemma_fraction_nonneg(s@, a as int + 1, b as int);
                assert(digits_value(s@, p as int, a as int) * UNIT >= digits_value(s@, p as int, a as int)) by (nonlinear_arith)
                    requires digits_value(s@, p as int, a as int) >= 0;
            }
            return None;
        }
        let total = int_value as u128 * UNIT as u128 + frac as u128;
        if total > LIMIT as u128 {
            None
        } else {
            Some((total as i64, b))
        }
    } else if a > p {
        if big {
            proof {
                assert(digits_value(s@, p as int, a as int) * UNIT >= digits_value(s@, p as int, a as int)) by (nonlinear_arith)
                    requires digits_value(s@, p as int, a as int) >= 0;
            }
            return None;
        }
        let total = int_value as u128 * UNIT as u128;
        if total > LIMIT as u128 {
            None
        } else {
            Some((total as i64, a))
        }
    } else {
        None
    }
}

/// A fraction value is non-negative.
pub proof fn lemma_fraction_nonneg(s: Seq<u8>, a: int, b: int)
    requires
        0 <= a <= b <= s.len(),
        forall|k: int| a <= k < b ==> is_digit(#[trigger] s[k]),
    ensures
        fraction_value(s, a, b) >= 0,
{
    let e = if b > a + 6 {
        a + 6
    } else {
        b
    };
    lemma_digits_value_bound(s, a, e);
    lemma_pow10_nonneg((6 - (e - a)) as nat);
    assert(digits_value(s, a, e) * pow10((6 - (e - a)) as nat) >= 0) by (nonlinear_arith)
        requires
            digits_value(s, a, e) >= 0,
            pow10((6 - (e - a)) as nat) >= 0,
    ;
}

/// Powers of ten are positive.
pub proof fn lemma_pow10_nonneg(k: nat)
    ensures
        pow10(k) >= 1,
    decreases k,
{
    if k > 0 {
        lemma_pow10_nonneg((k - 1) as nat);
    }
}

} // verus!

verus! {

/// Whether `r` is what `token_at` gives, with positions as `usize`.
pub open spec fn token_result(r: Option<(Token, usize)>, expected: Option<(Token, int)>) -> bool {
    match r {
        None => expected is None,
        Some((t, e)) => expected == Some((t, e as int)),
    }
}

/// Numbers in a token lie within `[0, LIMIT]`.
pub open spec fn token_bounded(t: Token) -> bool {
    match t {
        Token::Number(v) => 0 <= v <= LIMIT,
        Token::Percentage(v) => 0 <= v <= LIMIT,
        Token::Dimension(v, _) => 0 <= v <= LIMIT,
        Token::AngleDimension(v, _) => 0 <= v <= LIMIT,
        _ => true,
    }
}

/// Reads the token that starts after the white space at `i`.
pub fn next_token(s: &[u8], i: usize) -> (r: Option<(Token, usize)>)
    requires
        i <= s@.len(),
    ensures
        token_result(r, token_at(s@, i as int)),
        r matches Some((t, e)) ==> i < e <= s@.len() && token_bounded(t),
{
    let p = skip_spaces_exec(s, i);
    if p >= s.len() {
        return None;
    }
    let b = s[p];
    if is_digit_byte(b) || b == 46 {
        match number_exec(s, p) {
            None => None,
            Some((v, e)) => {
                if e < s.len() && s[e] == 37 {
                    Some((Token::Percentage(v), e + 1))
                } else if e < s.len() && is_letter_byte(s[e]) {
                    let c = letters_end_exec(s, e);
                    match unit_named_exec(s, e, c) {
                        Some(u) => Some((Token::Dimension(v, u), c)),
                        None => match angle_unit_named_exec(s, e, c) {
                            Some(u) => Some((Token::AngleDimension(v, u), c)),
                            None => None,
                        },
                    }
                } else {
                    Some((Token::Number(v), e))
                }
            },
        }
    } else if is_letter_byte(b) {
        let c = letters_end_exec(s, p);
        let calc: [u8; 4] = [99, 97, 108, 99];
        let auto: [u8; 4] = [97, 117, 116, 111];
        proof {
            assert(calc@ =~= seq![99u8, 97, 108, 99]);
            assert(auto@ =~= seq![97u8, 117, 116, 111]);
        }
        if c < s.len() && s[c] == 40 {
            if spells_exec(s, p, c, calc.as_slice()) {
                Some((Token::CalcOpen, c + 1))
            } else {
                match function_named_exec(s, p, c) {
                    Some(f) => Some((Token::Function(f), c + 1)),
                    None => None,
                }
            }
        } else if spells_exec(s, p, c, auto.as_slice()) {
            Some((Token::Auto, c))
        } else {
            None
        }
    } else if b == 43 || b == 45 || b == 42 || b == 47 {
        Some((Token::Delim(b), p + 1))
    } else if b == 41 {
        Some((Token::CloseParen, p + 1))
    } else if b == 44 {
        Some((Token::Comma, p + 1))
    } else {
        None
    }
}

/// Whether only white space is left from `i` on.
pub fn at_end_exec(s: &[u8], i: usize) -> (r: bool)
    requires
        i <= s@.len(),
    ensures
        r == at_end(s@, i as int),
{
    skip_spaces_exec(s, i) >= s.len()
}

} // verus!

verus! {

/// The end of the run of non-space bytes that starts at `i`.
pub open spec fn word_end(s: Seq<u8>, i: int) -> int
    decreases s.len() - i,
{
    if 0 <= i < s.len() && !is_space(s[i]) {
        word_end(s, i + 1)
    } else {
        i
    }
}

/// Finds the end of the run of non-space bytes at `i`.
pub fn word_end_exec(s: &[u8], i: usize) -> (r: usize)
    requires
        i <= s@.len(),
    ensures
        r == word_end(s@, i as int),
        i <= r <= s@.len(),
{
    let mut j = i;
    while j < s.len() && !is_space_byte(s[j])
        invariant
            i <= j <= s@.len(),
            word_end(s@, i as int) == word_end(s@, j as int),
        decreases s@.len() - j,
    {
        j = j + 1;
    }
    j
}

} // verus!
