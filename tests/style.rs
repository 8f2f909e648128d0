use takumi::style::{
    FontStyle, LineHeight,    FontStretch, OverflowWrap,    apply_text_transform, InlineContentKind, TextNode, TextTransform,
    BackgroundRepeat, BackgroundRepeatStyle, BorderStyle, Color, Display, InlineBrush, Overflow, WordBreak,
    WordBreakStrength,
};
use takumi::length::Length;
use takumi::numeric::UNIT;
use takumi::task::FetchTaskCollection;
use takumi::token::AngleUnit;
use takumi::transform::{Angle, MatrixValues, Transform, Transforms};

#[test]
fn background_repeat_presets() {
    assert_eq!(BackgroundRepeat::repeat(), BackgroundRepeat(BackgroundRepeatStyle::Repeat, BackgroundRepeatStyle::Repeat));
    assert_eq!(BackgroundRepeat::no_repeat(), BackgroundRepeat(BackgroundRepeatStyle::NoRepeat, BackgroundRepeatStyle::NoRepeat));
    assert_eq!(BackgroundRepeat::space(), BackgroundRepeat(BackgroundRepeatStyle::Space, BackgroundRepeatStyle::Space));
    assert_eq!(BackgroundRepeat::round(), BackgroundRepeat(BackgroundRepeatStyle::Round, BackgroundRepeatStyle::Round));
}

#[test]
fn background_repeat_parses_keywords() {
    assert_eq!(BackgroundRepeat::from_css("repeat-x"), Some(BackgroundRepeat(BackgroundRepeatStyle::Repeat, BackgroundRepeatStyle::NoRepeat)));
    assert_eq!(BackgroundRepeat::from_css("Repeat-Y"), Some(BackgroundRepeat(BackgroundRepeatStyle::NoRepeat, BackgroundRepeatStyle::Repeat)));
    assert_eq!(BackgroundRepeat::from_css("space"), Some(BackgroundRepeat::space()));
    assert_eq!(BackgroundRepeat::from_css(" round no-repeat "), Some(BackgroundRepeat(BackgroundRepeatStyle::Round, BackgroundRepeatStyle::NoRepeat)));
    assert_eq!(BackgroundRepeat::from_css("round sideways"), None);
    assert_eq!(BackgroundRepeat::from_css(""), None);
}

#[test]
fn overflow_keywords() {
    assert_eq!(Overflow::parse_tw("hidden"), Some(Overflow::Hidden));
    assert_eq!(Overflow::parse_tw("VISIBLE"), Some(Overflow::Visible));
    assert_eq!(Overflow::parse_tw("scroll"), None);
}

#[test]
fn word_break_strengths() {
    assert_eq!(WordBreak::BreakWord.strength(), WordBreakStrength::Normal);
    assert_eq!(WordBreak::KeepAll.strength(), WordBreakStrength::KeepAll);
    assert_eq!(WordBreak::BreakAll.strength(), WordBreakStrength::BreakAll);
}

#[test]
fn display_blockification() {
    assert_eq!(Display::Inline.as_block(), Display::Block);
    assert_eq!(Display::Flex.as_block(), Display::Flex);
    assert!(Display::Grid.should_blockify_children());
    assert!(!Display::Block.should_blockify_children());
}

#[test]
fn inline_brush_defaults_to_black() {
    let brush = InlineBrush::default();
    assert_eq!(brush.color, Color::black());
    assert_eq!(brush.stroke_color, Color { r: 0, g: 0, b: 0, a: 255 });
}

#[test]
fn fetch_tasks_are_unique_and_ordered() {
    let mut tasks = FetchTaskCollection::new();
    tasks.insert("https://a/1.png".to_string());
    tasks.insert("https://a/2.png".to_string());
    tasks.insert("https://a/1.png".to_string());
    tasks.insert_many(vec!["https://a/3.png".to_string(), "https://a/2.png".to_string()]);
    assert_eq!(
        tasks.into_inner(),
        vec!["https://a/1.png".to_string(), "https://a/2.png".to_string(), "https://a/3.png".to_string()]
    );
}

#[test]
fn test_transform_from_str() {
    let transform = Transform::from_str("translate(10, 20px)").unwrap();
    assert_eq!(transform, Transform::Translate(Length::Px(10 * UNIT), Length::Px(20 * UNIT)));
}

#[test]
fn test_transform_scale_from_str() {
    let transform = Transform::from_str("scale(10)").unwrap();
    assert_eq!(transform, Transform::Scale(10 * UNIT, 10 * UNIT));
}

#[test]
fn transform_lists_parse_in_order() {
    let list = Transforms::from_css("rotate(-45deg) scaleX(50%) skew(0, 1turn) matrix(1 0 0 1 5 -6)").unwrap();
    assert_eq!(
        list.to_vec(),
        vec![
            Transform::Rotate(Angle { value: -45 * UNIT, unit: AngleUnit::Deg }),
            Transform::Scale(UNIT / 2, UNIT),
            Transform::Skew(Angle { value: 0, unit: AngleUnit::Deg }, Angle { value: UNIT, unit: AngleUnit::Turn }),
            Transform::Matrix(MatrixValues { a: UNIT, b: 0, c: 0, d: UNIT, x: 5 * UNIT, y: -6 * UNIT }),
        ]
    );
    assert!(Transforms::from_css("rotate(45px)").is_none());
    assert!(Transforms::from_css("translate(1px 2px)").is_none());
    assert_eq!(Transforms::from_css("  ").unwrap().len(), 0);
}

#[test]
fn word_break_and_border_style_keywords() {
    assert_eq!(WordBreak::from_css(" Break-All "), Some(WordBreak::BreakAll));
    assert_eq!(WordBreak::from_css("keep-all"), Some(WordBreak::KeepAll));
    assert_eq!(WordBreak::from_css("break-word"), Some(WordBreak::BreakWord));
    assert_eq!(WordBreak::from_css("normal"), Some(WordBreak::Normal));
    assert_eq!(WordBreak::from_css("normal keep-all"), None);
    assert_eq!(BorderStyle::from_css("SOLID"), Some(BorderStyle::Solid));
    assert_eq!(BorderStyle::from_css("dashed"), None);
}

#[test]
fn text_transforms_map_case() {
    assert_eq!(apply_text_transform("Hello Straße", TextTransform::Uppercase), "HELLO STRASSE");
    assert_eq!(apply_text_transform("Hello", TextTransform::Lowercase), "hello");
    assert_eq!(apply_text_transform("Hello", TextTransform::Original), "Hello");
    let node = TextNode { style: None, text: "ab".to_string() };
    assert_eq!(node.inline_content(TextTransform::Uppercase), InlineContentKind::Text("AB".to_string()));
}

#[test]
fn test_parse_font_stretch_keywords() {
    assert_eq!(FontStretch::from_str("condensed"), Ok(FontStretch(750_000)));
    assert_eq!(FontStretch::from_str("expanded"), Ok(FontStretch(1_250_000)));
    assert_eq!(FontStretch::from_str("normal"), Ok(FontStretch(1_000_000)));
}

#[test]
fn test_parse_font_stretch_percentage() {
    assert_eq!(FontStretch::from_str("75%"), Ok(FontStretch(750_000)));
}

#[test]
fn test_tailwind_parser() {
    assert_eq!(FontStretch::parse_tw("condensed"), Some(FontStretch(750_000)));
    assert_eq!(FontStretch::parse_tw("ultra-expanded"), Some(FontStretch(2_000_000)));
    assert_eq!(FontStretch::parse_tw("invalid"), None);
}

#[test]
fn test_tailwind_parser_percentage() {
    assert_eq!(FontStretch::parse_tw("75%"), Some(FontStretch(750_000)));
    assert_eq!(FontStretch::parse_tw("150%"), Some(FontStretch(1_500_000)));
}

#[test]
fn overflow_wrap_keywords() {
    assert_eq!(OverflowWrap::from_css("anywhere"), Some(OverflowWrap::Anywhere));
    assert_eq!(OverflowWrap::from_css("Break-Word"), Some(OverflowWrap::BreakWord));
    assert_eq!(OverflowWrap::from_css("wrap"), None);
    assert_eq!(FontStretch::from_str("-5%"), Ok(FontStretch(0)));
}

#[test]
fn line_heights_and_font_styles() {
    assert_eq!(LineHeight::from_str("1.5"), Some(LineHeight(Length::Em(1_500_000))));
    assert_eq!(LineHeight::from_str("24px"), Some(LineHeight(Length::Px(24 * UNIT))));
    assert_eq!(LineHeight::default(), LineHeight(Length::Em(1_200_000)));
    assert_eq!(LineHeight::from_str("tall"), None);
    assert_eq!(FontStyle::from_css("Italic"), Some(FontStyle::italic()));
    assert_eq!(FontStyle::from_css("normal"), Some(FontStyle::normal()));
    assert_eq!(FontStyle::from_css("oblique"), Some(FontStyle::Oblique(None)));
    assert_eq!(
        FontStyle::from_css("oblique 10deg"),
        Some(FontStyle::oblique(Angle { value: 10 * UNIT, unit: AngleUnit::Deg }))
    );
    assert_eq!(FontStyle::from_css("italic 10deg"), None);
}
