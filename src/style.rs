use vstd::prelude::*;
use vstd::string::StringSliceAdditionalSpecFns;

use crate::calc::ParseError;
use crate::length::Length;
use crate::numeric::floor_div;
use crate::token::{
    at_end, at_end_exec, next_token, skip_spaces, skip_spaces_exec, spells, spells_exec, token_at, word_end,
    word_end_exec, Token,
};

verus! {

/// An RGBA colour.
#[derive(Debug, Clone, Copy, PartialEq, Eq, Structural)]
pub struct Color {
    /// Red channel.
    pub r: u8,
    /// Green channel.
    pub g: u8,
    /// Blue channel.
    pub b: u8,
    /// Alpha channel.
    pub a: u8,
}

impl Color {
    /// Opaque black.
    pub fn black() -> (r: Self)
        ensures
            r == (Color { r: 0, g: 0, b: 0, a: 255 }),
    {
        Color { r: 0, g: 0, b: 0, a: 255 }
    }
}

/// The outer display type of a box.
#[derive(Debug, Clone, Copy, PartialEq, Eq, Structural)]
pub enum Display {
    /// The box is not rendered.
    Hidden,
    /// A flex container.
    Flex,
    /// A grid container.
    Grid,
    /// A block-level box.
    Block,
    /// An inline-level box.
    Inline,
}

impl Display {
    /// The display type after blockification: inline becomes block, the rest stays.
    pub open spec fn blockified(self) -> Display {
        if self == Display::Inline {
            Display::Block
        } else {
            self
        }
    }

    /// Returns the blockified display type.
    pub fn as_block(self) -> (r: Display)
        ensures
            r == self.blockified(),
    {
        if self == Display::Inline {
            Display::Block
        } else {
            self
        }
    }

    /// Blockifies the display type in place.
    pub fn to_block(&mut self)
        ensures
            *final(self) == old(self).blockified(),
    {
        *self = self.as_block();
    }

    /// Whether a container of this type blockifies its children (flex and grid do).
    pub open spec fn blockifies_children(self) -> bool {
        self == Display::Flex || self == Display::Grid
    }

    /// Whether a container of this type blockifies its children.
    pub fn should_blockify_children(self) -> (r: bool)
        ensures
            r == self.blockifies_children(),
    {
        self == Display::Flex || self == Display::Grid
    }
}

} // verus!

verus! {

/// Per-axis repeat style of a background image.
#[derive(Debug, Clone, Copy, PartialEq, Eq, Structural)]
pub enum BackgroundRepeatStyle {
    /// Tile as many times as needed with no extra spacing.
    Repeat,
    /// Do not tile on this axis.
    NoRepeat,
    /// Distribute leftover space evenly between tiles; edges flush with sides.
    Space,
    /// Scale the tile so that a whole number of tiles fits.
    Round,
}

impl Default for BackgroundRepeatStyle {
    fn default() -> (r: Self)
        ensures
            r == BackgroundRepeatStyle::Repeat,
    {
        BackgroundRepeatStyle::Repeat
    }
}

/// The repeat style that the keyword `s[i..j]` names, in any case.
pub open spec fn repeat_style_named(s: Seq<u8>, i: int, j: int) -> Option<BackgroundRepeatStyle> {
    if spells(s, i, j, seq![114u8, 101, 112, 101, 97, 116]) {
        Some(BackgroundRepeatStyle::Repeat)
    } else if spells(s, i, j, seq![110u8, 111, 45, 114, 101, 112, 101, 97, 116]) {
        Some(BackgroundRepeatStyle::NoRepeat)
    } else if spells(s, i, j, seq![115u8, 112, 97, 99, 101]) {
        Some(BackgroundRepeatStyle::Space)
    } else if spells(s, i, j, seq![114u8, 111, 117, 110, 100]) {
        Some(BackgroundRepeatStyle::Round)
    } else {
        None
    }
}

impl BackgroundRepeatStyle {
    /// The repeat style that the keyword `s[i..j]` names.
    pub fn from_keyword(s: &[u8], i: usize, j: usize) -> (r: Option<BackgroundRepeatStyle>)
        requires
            i <= j <= s@.len(),
        ensures
            r == repeat_style_named(s@, i as int, j as int),
    {
        let repeat: [u8; 6] = [114, 101, 112, 101, 97, 116];
        let no_repeat: [u8; 9] = [110, 111, 45, 114, 101, 112, 101, 97, 116];
        let space: [u8; 5] = [115, 112, 97, 99, 101];
        let round: [u8; 5] = [114, 111, 117, 110, 100];
        proof {
            assert(repeat@ =~= seq![114u8, 101, 112, 101, 97, 116]);
            assert(no_repeat@ =~= seq![110u8, 111, 45, 114, 101, 112, 101, 97, 116]);
            assert(space@ =~= seq![115u8, 112, 97, 99, 101]);
            assert(round@ =~= seq![114u8, 111, 117, 110, 100]);
        }
        if spells_exec(s, i, j, repeat.as_slice()) {
            Some(BackgroundRepeatStyle::Repeat)
        } else if spells_exec(s, i, j, no_repeat.as_slice()) {
            Some(BackgroundRepeatStyle::NoRepeat)
        } else if spells_exec(s, i, j, space.as_slice()) {
            Some(BackgroundRepeatStyle::Space)
        } else if spells_exec(s, i, j, round.as_slice()) {
            Some(BackgroundRepeatStyle::Round)
        } else {
            None
        }
    }
}

/// The repeat styles of a background image along the X and Y axes.
#[derive(Debug, Clone, Copy, PartialEq, Eq, Structural)]
pub struct BackgroundRepeat(pub BackgroundRepeatStyle, pub BackgroundRepeatStyle);

impl Default for BackgroundRepeat {
    fn default() -> (r: Self)
        ensures
            r == BackgroundRepeat(BackgroundRepeatStyle::Repeat, BackgroundRepeatStyle::Repeat),
    {
        BackgroundRepeat(BackgroundRepeatStyle::Repeat, BackgroundRepeatStyle::Repeat)
    }
}

/// The `background-repeat` value that the text `s` spells: `repeat-x`, `repeat-y`, or one
/// or two repeat styles (one style applies to both axes).
pub open spec fn background_repeat_of(s: Seq<u8>) -> Option<BackgroundRepeat> {
    let p = skip_spaces(s, 0);
    let e = word_end(s, p);
    let q = skip_spaces(s, e);
    let f = word_end(s, q);
    if p >= s.len() {
        None
    } else if q >= s.len() {
        if spells(s, p, e, seq![114u8, 101, 112, 101, 97, 116, 45, 120]) {
            Some(BackgroundRepeat(BackgroundRepeatStyle::Repeat, BackgroundRepeatStyle::NoRepeat))
        } else if spells(s, p, e, seq![114u8, 101, 112, 101, 97, 116, 45, 121]) {
            Some(BackgroundRepeat(BackgroundRepeatStyle::NoRepeat, BackgroundRepeatStyle::Repeat))
        } else {
            match repeat_style_named(s, p, e) {
                Some(x) => Some(BackgroundRepeat(x, x)),
                None => None,
            }
        }
    } else if at_end(s, f) {
        match (repeat_style_named(s, p, e), repeat_style_named(s, q, f)) {
            (Some(x), Some(y)) => Some(BackgroundRepeat(x, y)),
            _ => None,
        }
    } else {
        None
    }
}

impl BackgroundRepeat {
    /// Tiles on both axes.
    pub fn repeat() -> (r: Self)
        ensures
            r == BackgroundRepeat(BackgroundRepeatStyle::Repeat, BackgroundRepeatStyle::Repeat),
    {
        BackgroundRepeat(BackgroundRepeatStyle::Repeat, BackgroundRepeatStyle::Repeat)
    }

    /// Tiles on neither axis.
    pub fn no_repeat() -> (r: Self)
        ensures
            r == BackgroundRepeat(BackgroundRepeatStyle::NoRepeat, BackgroundRepeatStyle::NoRepeat),
    {
        BackgroundRepeat(BackgroundRepeatStyle::NoRepeat, BackgroundRepeatStyle::NoRepeat)
    }

    /// Spaces tiles evenly on both axes.
    pub fn space() -> (r: Self)
        ensures
            r == BackgroundRepeat(BackgroundRepeatStyle::Space, BackgroundRepeatStyle::Space),
    {
        BackgroundRepeat(BackgroundRepeatStyle::Space, BackgroundRepeatStyle::Space)
    }

    /// Scales tiles to fit a whole number on both axes.
    pub fn round() -> (r: Self)
        ensures
            r == BackgroundRepeat(BackgroundRepeatStyle::Round, BackgroundRepeatStyle::Round),
    {
        BackgroundRepeat(BackgroundRepeatStyle::Round, BackgroundRepeatStyle::Round)
    }

    /// Parses a `background-repeat` value.
    pub fn from_css(text: &str) -> (r: Option<BackgroundRepeat>)
        ensures
            r == background_repeat_of(text.spec_bytes()),
    {
        let s = text.as_bytes();
        let p = skip_spaces_exec(s, 0);
        let e = word_end_exec(s, p);
        let q = skip_spaces_exec(s, e);
        let f = word_end_exec(s, q);
        if p >= s.len() {
            return None;
        }
        if q >= s.len() {
            let repeat_x: [u8; 8] = [114, 101, 112, 101, 97, 116, 45, 120];
            let repeat_y: [u8; 8] = [114, 101, 112, 101, 97, 116, 45, 121];
            proof {
                assert(repeat_x@ =~= seq![114u8, 101, 112, 101, 97, 116, 45, 120]);
                assert(repeat_y@ =~= seq![114u8, 101, 112, 101, 97, 116, 45, 121]);
            }
            if spells_exec(s, p, e, repeat_x.as_slice()) {
                return Some(BackgroundRepeat(BackgroundRepeatStyle::Repeat, BackgroundRepeatStyle::NoRepeat));
            }
            if spells_exec(s, p, e, repeat_y.as_slice()) {
                return Some(BackgroundRepeat(BackgroundRepeatStyle::NoRepeat, BackgroundRepeatStyle::Repeat));
            }
            return match BackgroundRepeatStyle::from_keyword(s, p, e) {
                Some(x) => Some(BackgroundRepeat(x, x)),
                None => None,
            };
        }
        if at_end_exec(s, f) {
            match (BackgroundRepeatStyle::from_keyword(s, p, e), BackgroundRepeatStyle::from_keyword(s, q, f)) {
                (Some(x), Some(y)) => Some(BackgroundRepeat(x, y)),
                _ => None,
            }
        } else {
            None
        }
    }
}

/// How children overflowing their container affect layout.
#[derive(Debug, Clone, Copy, PartialEq, Eq, Structural)]
pub enum Overflow {
    /// Overflowing content is visible and counts towards the container's minimum size.
    Visible,
    /// Overflowing content is clipped and does not count.
    Hidden,
}

impl Overflow {
    /// Parses the keywords `visible` and `hidden`, in any case.
    pub fn parse_tw(token: &str) -> (r: Option<Overflow>)
        ensures
            r == (if spells(token.spec_bytes(), 0, token.spec_bytes().len() as int, seq![118u8, 105, 115, 105, 98, 108, 101]) {
                Some(Overflow::Visible)
            } else if spells(token.spec_bytes(), 0, token.spec_bytes().len() as int, seq![104u8, 105, 100, 100, 101, 110]) {
                Some(Overflow::Hidden)
            } else {
                None
            }),
    {
        let s = token.as_bytes();
        let visible: [u8; 7] = [118, 105, 115, 105, 98, 108, 101];
        let hidden: [u8; 6] = [104, 105, 100, 100, 101, 110];
        proof {
            assert(visible@ =~= seq![118u8, 105, 115, 105, 98, 108, 101]);
            assert(hidden@ =~= seq![104u8, 105, 100, 100, 101, 110]);
        }
        if spells_exec(s, 0, s.len(), visible.as_slice()) {
            Some(Overflow::Visible)
        } else if spells_exec(s, 0, s.len(), hidden.as_slice()) {
            Some(Overflow::Hidden)
        } else {
            None
        }
    }
}

/// How text may break at word boundaries.
#[derive(Debug, Clone, Copy, PartialEq, Eq, Structural)]
pub enum WordBreak {
    /// Lines break according to language rules.
    Normal,
    /// Words may break at any character.
    BreakAll,
    /// Words never break inside.
    KeepAll,
    /// Long words may break where they would overflow.
    BreakWord,
}

/// How strictly a line breaker keeps words together.
#[derive(Debug, Clone, Copy, PartialEq, Eq, Structural)]
pub enum WordBreakStrength {
    /// Break at language-defined opportunities.
    Normal,
    /// Break between any two characters.
    BreakAll,
    /// Do not break inside words.
    KeepAll,
}

impl WordBreak {
    /// The line-breaker strength this value asks for; `break-word` breaks like `normal`.
    pub fn strength(self) -> (r: WordBreakStrength)
        ensures
            r == match self {
                WordBreak::Normal | WordBreak::BreakWord => WordBreakStrength::Normal,
                WordBreak::BreakAll => WordBreakStrength::BreakAll,
                WordBreak::KeepAll => WordBreakStrength::KeepAll,
            },
    {
        match self {
            WordBreak::Normal | WordBreak::BreakWord => WordBreakStrength::Normal,
            WordBreak::BreakAll => WordBreakStrength::BreakAll,
            WordBreak::KeepAll => WordBreakStrength::KeepAll,
        }
    }
}

/// Border style options; only solid borders are drawn.
#[derive(Debug, Clone, Copy, PartialEq, Eq, Structural)]
pub enum BorderStyle {
    /// A solid border.
    Solid,
}

/// A parsed `border` value: width, style and colour, each optional.
#[derive(Debug, Clone, Copy, PartialEq, Eq, Structural)]
pub struct Border {
    /// The border width.
    pub width: Option<Length>,
    /// The border style.
    pub style: Option<BorderStyle>,
    /// The border colour.
    pub color: Option<Color>,
}

/// What a node contributes to an inline flow.
#[derive(Debug, PartialEq, Eq)]
pub enum InlineContentKind {
    /// A run of text.
    Text(String),
    /// An atomic inline box.
    Box,
}

/// The colours an inline run is drawn with.
#[derive(Debug, Clone, Copy, PartialEq, Eq, Structural)]
pub struct InlineBrush {
    /// The text colour.
    pub color: Color,
    /// The colour of decorations.
    pub decoration_color: Color,
    /// The colour of strokes.
    pub stroke_color: Color,
}

impl Default for InlineBrush {
    fn default() -> (r: Self)
        ensures
            r.color == (Color { r: 0, g: 0, b: 0, a: 255 }),
            r.decoration_color == r.color,
            r.stroke_color == r.color,
    {
        InlineBrush { color: Color::black(), decoration_color: Color::black(), stroke_color: Color::black() }
    }
}

/// Case mapping applied to text before shaping.
#[derive(Debug, Clone, Copy, PartialEq, Eq, Structural)]
pub enum TextTransform {
    /// Text is shaped as written.
    Original,
    /// Text is shaped in upper case.
    Uppercase,
    /// Text is shaped in lower case.
    Lowercase,
}

/// The upper-case mapping of `s`, as `str::to_uppercase` gives it.
pub uninterp spec fn upper_of(s: Seq<char>) -> Seq<char>;

/// The lower-case mapping of `s`, as `str::to_lowercase` gives it.
pub uninterp spec fn lower_of(s: Seq<char>) -> Seq<char>;

/// Relies on `str::to_uppercase`: the result depends on the characters alone.
#[verifier::external_body]
fn to_upper(s: &str) -> (r: String)
    ensures
        r@ == upper_of(s@),
{
    s.to_uppercase()
}

/// Relies on `str::to_lowercase`: the result depends on the characters alone.
#[verifier::external_body]
fn to_lower(s: &str) -> (r: String)
    ensures
        r@ == lower_of(s@),
{
    s.to_lowercase()
}

/// The text that `text` is shaped as under `transform`.
pub open spec fn transformed(text: Seq<char>, transform: TextTransform) -> Seq<char> {
    match transform {
        TextTransform::Original => text,
        TextTransform::Uppercase => upper_of(text),
        TextTransform::Lowercase => lower_of(text),
    }
}

/// Applies a text transform.
pub fn apply_text_transform(text: &str, transform: TextTransform) -> (r: String)
    ensures
        r@ == transformed(text@, transform),
{
    match transform {
        TextTransform::Original => text.to_string(),
        TextTransform::Uppercase => to_upper(text),
        TextTransform::Lowercase => to_lower(text),
    }
}

/// A node that renders text.
pub struct TextNode {
    /// The declared style of the node.
    pub style: Option<crate::tree::NodeStyle>,
    /// The text content.
    pub text: String,
}

impl TextNode {
    /// Takes the declared style out of the node, leaving none.
    pub fn take_style(&mut self) -> (r: Option<crate::tree::NodeStyle>)
        ensures
            r == old(self).style,
            final(self).style is None,
            final(self).text == old(self).text,
    {
        let r = self.style;
        self.style = None;
        r
    }

    /// What the node contributes to an inline flow: its text, under the text transform in
    /// effect.
    pub fn inline_content(&self, transform: TextTransform) -> (r: InlineContentKind)
        ensures
            r matches InlineContentKind::Text(t) && t@ == transformed(self.text@, transform),
    {
        InlineContentKind::Text(apply_text_transform(self.text.as_str(), transform))
    }
}

} // verus!

verus! {

/// The bounds of the single word that the text `s` holds, white space around it aside.
pub open spec fn single_word(s: Seq<u8>) -> Option<(int, int)> {
    let p = skip_spaces(s, 0);
    let e = word_end(s, p);
    if p < s.len() && at_end(s, e) {
        Some((p, e))
    } else {
        None
    }
}

/// Finds the single word of `s`.
fn single_word_exec(s: &[u8]) -> (r: Option<(usize, usize)>)
    ensures
        match r {
            Some((p, e)) => single_word(s@) == Some((p as int, e as int)) && p <= e <= s@.len(),
            None => single_word(s@) is None,
        },
{
    let p = skip_spaces_exec(s, 0);
    let e = word_end_exec(s, p);
    if p < s.len() && at_end_exec(s, e) {
        Some((p, e))
    } else {
        None
    }
}

/// The `word-break` value that the text `s` spells, in any case.
pub open spec fn word_break_of(s: Seq<u8>) -> Option<WordBreak> {
    match single_word(s) {
        Some((p, e)) => if spells(s, p, e, seq![110u8, 111, 114, 109, 97, 108]) {
            Some(WordBreak::Normal)
        } else if spells(s, p, e, seq![98u8, 114, 101, 97, 107, 45, 97, 108, 108]) {
            Some(WordBreak::BreakAll)
        } else if spells(s, p, e, seq![107u8, 101, 101, 112, 45, 97, 108, 108]) {
            Some(WordBreak::KeepAll)
        } else if spells(s, p, e, seq![98u8, 114, 101, 97, 107, 45, 119, 111, 114, 100]) {
            Some(WordBreak::BreakWord)
        } else {
            None
        },
        None => None,
    }
}

impl WordBreak {
    /// Parses a `word-break` keyword.
    pub fn from_css(text: &str) -> (r: Option<WordBreak>)
        ensures
            r == word_break_of(text.spec_bytes()),
    {
        let s = text.as_bytes();
        let (p, e) = match single_word_exec(s) {
            Some(w) => w,
            None => return None,
        };
        let normal: [u8; 6] = [110, 111, 114, 109, 97, 108];
        let break_all: [u8; 9] = [98, 114, 101, 97, 107, 45, 97, 108, 108];
        let keep_all: [u8; 8] = [107, 101, 101, 112, 45, 97, 108, 108];
        let break_word: [u8; 10] = [98, 114, 101, 97, 107, 45, 119, 111, 114, 100];
        proof {
            assert(normal@ =~= seq![110u8, 111, 114, 109, 97, 108]);
            assert(break_all@ =~= seq![98u8, 114, 101, 97, 107, 45, 97, 108, 108]);
            assert(keep_all@ =~= seq![107u8, 101, 101, 112, 45, 97, 108, 108]);
            assert(break_word@ =~= seq![98u8, 114, 101, 97, 107, 45, 119, 111, 114, 100]);
        }
        if spells_exec(s, p, e, normal.as_slice()) {
            Some(WordBreak::Normal)
        } else if spells_exec(s, p, e, break_all.as_slice()) {
            Some(WordBreak::BreakAll)
        } else if spells_exec(s, p, e, keep_all.as_slice()) {
            Some(WordBreak::KeepAll)
        } else if spells_exec(s, p, e, break_word.as_slice()) {
            Some(WordBreak::BreakWord)
        } else {
            None
        }
    }
}

impl BorderStyle {
    /// Parses the border style keyword `solid`, in any case.
    pub fn from_css(text: &str) -> (r: Option<BorderStyle>)
        ensures
            r == match single_word(text.spec_bytes()) {
                Some((p, e)) => if spells(text.spec_bytes(), p, e, seq![115u8, 111, 108, 105, 100]) {
                    Some(BorderStyle::Solid)
                } else {
                    None
                },
                None => None,
            },
    {
        let s = text.as_bytes();
        let (p, e) = match single_word_exec(s) {
            Some(w) => w,
            None => return None,
        };
        let solid: [u8; 5] = [115, 111, 108, 105, 100];
        proof {
            assert(solid@ =~= seq![115u8, 111, 108, 105, 100]);
        }
        if spells_exec(s, p, e, solid.as_slice()) {
            Some(BorderStyle::Solid)
        } else {
            None
        }
    }
}

} // verus!

verus! {

/// The width ratio (millionths of the normal width) that the keyword `s[p..e]` names.
pub open spec fn stretch_keyword(s: Seq<u8>, p: int, e: int) -> Option<int> {
        if spells(s, p, e, seq![110u8, 111, 114, 109, 97, 108]) {
            Some(1000000int)
        } else if spells(s, p, e, seq![117u8, 108, 116, 114, 97, 45, 99, 111, 110, 100, 101, 110, 115, 101, 100]) {
            Some(500000int)
        } else if spells(s, p, e, seq![101u8, 120, 116, 114, 97, 45, 99, 111, 110, 100, 101, 110, 115, 101, 100]) {
            Some(625000int)
        } else if spells(s, p, e, seq![99u8, 111, 110, 100, 101, 110, 115, 101, 100]) {
            Some(750000int)
        } else if spells(s, p, e, seq![115u8, 101, 109, 105, 45, 99, 111, 110, 100, 101, 110, 115, 101, 100]) {
            Some(875000int)
        } else if spells(s, p, e, seq![115u8, 101, 109, 105, 45, 101, 120, 112, 97, 110, 100, 101, 100]) {
            Some(1125000int)
        } else if spells(s, p, e, seq![101u8, 120, 112, 97, 110, 100, 101, 100]) {
            Some(1250000int)
        } else if spells(s, p, e, seq![101u8, 120, 116, 114, 97, 45, 101, 120, 112, 97, 110, 100, 101, 100]) {
            Some(1500000int)
        } else if spells(s, p, e, seq![117u8, 108, 116, 114, 97, 45, 101, 120, 112, 97, 110, 100, 101, 100]) {
            Some(2000000int)
        } else {
            None
        }
}

/// The `font-stretch` value that the text `s` spells: a keyword, or a percentage of the
/// normal width (a negative one counts as zero).
pub open spec fn font_stretch_of(s: Seq<u8>) -> Option<FontStretch> {
    match token_at(s, 0) {
        Some((Token::Percentage(v), j)) => if at_end(s, j) {
            Some(FontStretch((v / 100) as i64))
        } else {
            None
        },
        Some((Token::Delim(45), j)) => match token_at(s, j) {
            Some((Token::Percentage(_), k)) => if at_end(s, k) {
                Some(FontStretch(0))
            } else {
                None
            },
            _ => None,
        },
        _ => match single_word(s) {
            Some((p, e)) => match stretch_keyword(s, p, e) {
                Some(r) => Some(FontStretch(r as i64)),
                None => None,
            },
            None => None,
        },
    }
}

/// The width of a font, as a ratio of its normal width in millionths.
#[derive(Debug, Clone, Copy, PartialEq, Eq, Structural)]
pub struct FontStretch(pub i64);

/// The ratio a `font-stretch` keyword names.
fn stretch_keyword_exec(s: &[u8], p: usize, e: usize) -> (r: Option<i64>)
    requires
        p <= e <= s@.len(),
    ensures
        match r {
            Some(v) => stretch_keyword(s@, p as int, e as int) == Some(v as int),
            None => stretch_keyword(s@, p as int, e as int) is None,
        },
{
        let w0: [u8; 6] = [110, 111, 114, 109, 97, 108];
        let w1: [u8; 15] = [117, 108, 116, 114, 97, 45, 99, 111, 110, 100, 101, 110, 115, 101, 100];
        let w2: [u8; 15] = [101, 120, 116, 114, 97, 45, 99, 111, 110, 100, 101, 110, 115, 101, 100];
        let w3: [u8; 9] = [99, 111, 110, 100, 101, 110, 115, 101, 100];
        let w4: [u8; 14] = [115, 101, 109, 105, 45, 99, 111, 110, 100, 101, 110, 115, 101, 100];
        let w5: [u8; 13] = [115, 101, 109, 105, 45, 101, 120, 112, 97, 110, 100, 101, 100];
        let w6: [u8; 8] = [101, 120, 112, 97, 110, 100, 101, 100];
        let w7: [u8; 14] = [101, 120, 116, 114, 97, 45, 101, 120, 112, 97, 110, 100, 101, 100];
        let w8: [u8; 14] = [117, 108, 116, 114, 97, 45, 101, 120, 112, 97, 110, 100, 101, 100];
        proof {
            assert(w0@ =~= seq![110u8, 111, 114, 109, 97, 108]);
            assert(w1@ =~= seq![117u8, 108, 116, 114, 97, 45, 99, 111, 110, 100, 101, 110, 115, 101, 100]);
            assert(w2@ =~= seq![101u8, 120, 116, 114, 97, 45, 99, 111, 110, 100, 101, 110, 115, 101, 100]);
            assert(w3@ =~= seq![99u8, 111, 110, 100, 101, 110, 115, 101, 100]);
            assert(w4@ =~= seq![115u8, 101, 109, 105, 45, 99, 111, 110, 100, 101, 110, 115, 101, 100]);
            assert(w5@ =~= seq![115u8, 101, 109, 105, 45, 101, 120, 112, 97, 110, 100, 101, 100]);
            assert(w6@ =~= seq![101u8, 120, 112, 97, 110, 100, 101, 100]);
            assert(w7@ =~= seq![101u8, 120, 116, 114, 97, 45, 101, 120, 112, 97, 110, 100, 101, 100]);
            assert(w8@ =~= seq![117u8, 108, 116, 114, 97, 45, 101, 120, 112, 97, 110, 100, 101, 100]);
        }
        if spells_exec(s, p, e, w0.as_slice()) {
            Some(1000000)
        } else if spells_exec(s, p, e, w1.as_slice()) {
            Some(500000)
        } else if spells_exec(s, p, e, w2.as_slice()) {
            Some(625000)
        } else if spells_exec(s, p, e, w3.as_slice()) {
            Some(750000)
        } else if spells_exec(s, p, e, w4.as_slice()) {
            Some(875000)
        } else if spells_exec(s, p, e, w5.as_slice()) {
            Some(1125000)
        } else if spells_exec(s, p, e, w6.as_slice()) {
            Some(1250000)
        } else if spells_exec(s, p, e, w7.as_slice()) {
            Some(1500000)
        } else if spells_exec(s, p, e, w8.as_slice()) {
            Some(2000000)
        } else {
            None
        }
}

impl FontStretch {
    /// Parses a `font-stretch` value.
    pub fn from_str(text: &str) -> (r: Result<FontStretch, ParseError>)
        ensures
            r == match font_stretch_of(text.spec_bytes()) {
                Some(f) => Ok(f),
                None => Err(ParseError::InvalidValue),
            },
    {
        let s = text.as_bytes();
        match next_token(s, 0) {
            Some((Token::Percentage(v), j)) => {
                if at_end_exec(s, j) {
                    return Ok(FontStretch(floor_div(v as i128, 100) as i64));
                }
                return Err(ParseError::InvalidValue);
            },
            Some((Token::Delim(45), j)) => {
                return match next_token(s, j) {
                    Some((Token::Percentage(_), k)) => {
                        if at_end_exec(s, k) {
                            Ok(FontStretch(0))
                        } else {
                            Err(ParseError::InvalidValue)
                        }
                    },
                    _ => Err(ParseError::InvalidValue),
                };
            },
            _ => {},
        }
        match single_word_exec(s) {
            Some((p, e)) => match stretch_keyword_exec(s, p, e) {
                Some(r) => Ok(FontStretch(r)),
                None => Err(ParseError::InvalidValue),
            },
            None => Err(ParseError::InvalidValue),
        }
    }

    /// Parses a `font-stretch` value given as a utility-class token.
    pub fn parse_tw(token: &str) -> (r: Option<FontStretch>)
        ensures
            r == font_stretch_of(token.spec_bytes()),
    {
        match FontStretch::from_str(token) {
            Ok(f) => Some(f),
            Err(_) => None,
        }
    }
}

/// How overflowing text may break.
#[derive(Debug, Clone, Copy, PartialEq, Eq, Structural)]
pub enum OverflowWrap {
    /// Lines break only at word-break opportunities.
    Normal,
    /// Words may break anywhere when needed.
    Anywhere,
    /// Like `Anywhere`, but not counted for min-content sizing.
    BreakWord,
}

/// The `overflow-wrap` value that the text `s` spells, in any case.
pub open spec fn overflow_wrap_of(s: Seq<u8>) -> Option<OverflowWrap> {
    match single_word(s) {
        Some((p, e)) => if spells(s, p, e, seq![110u8, 111, 114, 109, 97, 108]) {
                Some(OverflowWrap::Normal)
            } else if spells(s, p, e, seq![97u8, 110, 121, 119, 104, 101, 114, 101]) {
                Some(OverflowWrap::Anywhere)
            } else if spells(s, p, e, seq![98u8, 114, 101, 97, 107, 45, 119, 111, 114, 100]) {
                Some(OverflowWrap::BreakWord)
            } else {
                None
            },
        None => None,
    }
}

impl OverflowWrap {
    /// Parses an `overflow-wrap` keyword.
    pub fn from_css(text: &str) -> (r: Option<OverflowWrap>)
        ensures
            r == overflow_wrap_of(text.spec_bytes()),
    {
        let s = text.as_bytes();
        let (p, e) = match single_word_exec(s) {
            Some(w) => w,
            None => return None,
        };
        let o0: [u8; 6] = [110, 111, 114, 109, 97, 108];
        let o1: [u8; 8] = [97, 110, 121, 119, 104, 101, 114, 101];
        let o2: [u8; 10] = [98, 114, 101, 97, 107, 45, 119, 111, 114, 100];
        proof {
            assert(o0@ =~= seq![110u8, 111, 114, 109, 97, 108]);
            assert(o1@ =~= seq![97u8, 110, 121, 119, 104, 101, 114, 101]);
            assert(o2@ =~= seq![98u8, 114, 101, 97, 107, 45, 119, 111, 114, 100]);
        }
        if spells_exec(s, p, e, o0.as_slice()) {
            Some(OverflowWrap::Normal)
        } else if spells_exec(s, p, e, o1.as_slice()) {
            Some(OverflowWrap::Anywhere)
        } else if spells_exec(s, p, e, o2.as_slice()) {
            Some(OverflowWrap::BreakWord)
        } else {
            None
        }
    }
}

} // verus!

verus! {

/// Line height as a multiple of the font size when a bare number is given: 1.2.
pub const DEFAULT_LINE_HEIGHT_SCALER: i64 = 1_200_000;

/// A line height: a length, where a bare number stands for that many `em`.
#[derive(Debug, Clone, Copy, PartialEq, Eq, Structural)]
pub struct LineHeight(pub Length);

impl Default for LineHeight {
    fn default() -> (r: Self)
        ensures
            r == LineHeight(Length::Em(DEFAULT_LINE_HEIGHT_SCALER)),
    {
        LineHeight(Length::Em(DEFAULT_LINE_HEIGHT_SCALER))
    }
}

/// The line height that the text `s` spells: a signed bare number in `em`, else a length.
pub open spec fn line_height_of(s: Seq<u8>) -> Option<LineHeight> {
    match token_at(s, 0) {
        Some((Token::Number(v), j)) => if at_end(s, j) {
            Some(LineHeight(Length::Em(v)))
        } else {
            None
        },
        Some((Token::Delim(d), j)) => if (d == 43 || d == 45) && (token_at(s, j) matches Some(
            (Token::Number(v), k),
        ) && at_end(s, k)) {
            match token_at(s, j) {
                Some((Token::Number(v), _)) => Some(
                    LineHeight(
                        Length::Em(
                            (if d == 45 {
                                -v
                            } else {
                                v as int
                            }) as i64,
                        ),
                    ),
                ),
                _ => None,
            }
        } else {
            line_height_length(s)
        },
        _ => line_height_length(s),
    }
}

/// The line height that the text `s` spells as a length.
pub open spec fn line_height_length(s: Seq<u8>) -> Option<LineHeight> {
    match crate::calc::length_of(s) {
        Some(l) => Some(LineHeight(l)),
        None => None,
    }
}

impl LineHeight {
    /// Parses a line height.
    pub fn from_str(text: &str) -> (r: Option<LineHeight>)
        ensures
            r == line_height_of(text.spec_bytes()),
    {
        let s = text.as_bytes();
        match next_token(s, 0) {
            Some((Token::Number(v), j)) => {
                return if at_end_exec(s, j) {
                    Some(LineHeight(Length::Em(v)))
                } else {
                    None
                };
            },
            Some((Token::Delim(d), j)) => {
                if d == 43 || d == 45 {
                    if let Some((Token::Number(v), k)) = next_token(s, j) {
                        if at_end_exec(s, k) {
                            return Some(LineHeight(Length::Em(if d == 45 { -v } else { v })));
                        }
                    }
                }
            },
            _ => {},
        }
        match Length::from_str(text) {
            Ok(l) => Some(LineHeight(l)),
            Err(_) => None,
        }
    }
}

/// The slant of text.
#[derive(Debug, Clone, Copy, PartialEq, Eq, Structural)]
pub enum FontStyle {
    /// Upright text.
    Normal,
    /// Italic text.
    Italic,
    /// Oblique text, at an angle if one is given.
    Oblique(Option<crate::transform::Angle>),
}

/// The font style that the text `s` spells: `normal`, `italic`, or `oblique` with an
/// optional angle after it.
pub open spec fn font_style_of(s: Seq<u8>) -> Option<FontStyle> {
    let p = skip_spaces(s, 0);
    let e = word_end(s, p);
    if p >= s.len() {
        None
    } else if at_end(s, e) && spells(s, p, e, seq![110u8, 111, 114, 109, 97, 108]) {
        Some(FontStyle::Normal)
    } else if at_end(s, e) && spells(s, p, e, seq![105u8, 116, 97, 108, 105, 99]) {
        Some(FontStyle::Italic)
    } else if spells(s, p, e, seq![111u8, 98, 108, 105, 113, 117, 101]) {
        if at_end(s, e) {
            Some(FontStyle::Oblique(None))
        } else {
            match crate::transform::angle_arg_at(s, e) {
                Some((a, k)) => if at_end(s, k) {
                    Some(FontStyle::Oblique(Some(a)))
                } else {
                    None
                },
                None => None,
            }
        }
    } else {
        None
    }
}

impl FontStyle {
    /// Upright text.
    pub fn normal() -> (r: Self)
        ensures
            r == FontStyle::Normal,
    {
        FontStyle::Normal
    }

    /// Italic text.
    pub fn italic() -> (r: Self)
        ensures
            r == FontStyle::Italic,
    {
        FontStyle::Italic
    }

    /// Oblique text at the given angle.
    pub fn oblique(angle: crate::transform::Angle) -> (r: Self)
        ensures
            r == FontStyle::Oblique(Some(angle)),
    {
        FontStyle::Oblique(Some(angle))
    }

    /// Parses a `font-style` value.
    pub fn from_css(text: &str) -> (r: Option<FontStyle>)
        ensures
            r == font_style_of(text.spec_bytes()),
    {
        let s = text.as_bytes();
        let p = skip_spaces_exec(s, 0);
        let e = word_end_exec(s, p);
        if p >= s.len() {
            return None;
        }
        let normal: [u8; 6] = [110, 111, 114, 109, 97, 108];
        let italic: [u8; 6] = [105, 116, 97, 108, 105, 99];
        let oblique: [u8; 7] = [111, 98, 108, 105, 113, 117, 101];
        proof {
            assert(normal@ =~= seq![110u8, 111, 114, 109, 97, 108]);
            assert(italic@ =~= seq![105u8, 116, 97, 108, 105, 99]);
            assert(oblique@ =~= seq![111u8, 98, 108, 105, 113, 117, 101]);
        }
        let done = at_end_exec(s, e);
        if done && spells_exec(s, p, e, normal.as_slice()) {
            Some(FontStyle::Normal)
        } else if done && spells_exec(s, p, e, italic.as_slice()) {
            Some(FontStyle::Italic)
        } else if spells_exec(s, p, e, oblique.as_slice()) {
            if done {
                Some(FontStyle::Oblique(None))
            } else {
                match crate::transform::parse_angle_arg(s, e) {
                    Some((a, k)) => {
                        if at_end_exec(s, k) {
                            Some(FontStyle::Oblique(Some(a)))
                        } else {
                            None
                        }
                    },
                    None => None,
                }
            }
        } else {
            None
        }
    }
}

} // verus!
