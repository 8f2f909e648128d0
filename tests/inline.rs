use takumi::inline::{
    break_lines, create_inline_constraint, draw_max_height, inline_pieces, measure_lines, rejustify_pass,
    AvailableSpace, BreakAction, InlinePiece, LineBreaker, MaxHeight, TextWrapStyle,
};
use takumi::length::Viewport;
use takumi::style::InlineContentKind;
use takumi::tree::{InlineEntry, RenderContext};
use takumi::numeric::UNIT;

fn five_lines() -> Vec<i64> {
    vec![20 * UNIT; 5]
}

#[test]
fn line_limit_keeps_exactly_that_many_lines() {
    assert_eq!(break_lines(&five_lines(), Some(MaxHeight::Lines(2))), (2, 40 * UNIT));
}

#[test]
fn height_limit_reverts_the_line_that_overflows() {
    assert_eq!(break_lines(&five_lines(), Some(MaxHeight::Absolute(50 * UNIT))), (2, 40 * UNIT));
    assert_eq!(break_lines(&five_lines(), Some(MaxHeight::Absolute(60 * UNIT))), (3, 60 * UNIT));
}

#[test]
fn both_limits_apply_together() {
    assert_eq!(
        break_lines(&five_lines(), Some(MaxHeight::HeightAndLines(1000 * UNIT, 3))),
        (3, 60 * UNIT)
    );
    assert_eq!(
        break_lines(&five_lines(), Some(MaxHeight::HeightAndLines(30 * UNIT, 3))),
        (1, 20 * UNIT)
    );
}

#[test]
fn no_limit_breaks_every_line() {
    assert_eq!(break_lines(&five_lines(), None), (5, 100 * UNIT));
    assert_eq!(break_lines(&five_lines(), Some(MaxHeight::Lines(9))), (5, 100 * UNIT));
}

#[test]
fn breaker_stops_after_line_limit() {
    let mut breaker = LineBreaker::new(Some(MaxHeight::Lines(2)));
    assert_eq!(breaker.action(), BreakAction::BreakNext);
    breaker.on_line(Some(10 * UNIT));
    assert_eq!(breaker.action(), BreakAction::BreakNext);
    breaker.on_line(Some(10 * UNIT));
    assert_eq!(breaker.action(), BreakAction::Finish);
    assert_eq!(breaker.committed(), (2, 20 * UNIT));
}

#[test]
fn breaker_reverts_after_overflowing_line() {
    let mut breaker = LineBreaker::new(Some(MaxHeight::Absolute(25 * UNIT)));
    breaker.on_line(Some(20 * UNIT));
    assert_eq!(breaker.action(), BreakAction::BreakNext);
    breaker.on_line(Some(20 * UNIT));
    assert_eq!(breaker.action(), BreakAction::RevertAndFinish);
    assert_eq!(breaker.committed(), (1, 20 * UNIT));
}

#[test]
fn measured_lines_round_up_to_whole_pixels() {
    let lines = vec![(10_200_000, 18_500_000), (12_000_001, 18_500_000)];
    assert_eq!(measure_lines(&lines, 100 * UNIT), (13 * UNIT, 37 * UNIT));
    assert_eq!(measure_lines(&lines, 12 * UNIT), (12 * UNIT, 37 * UNIT));
    assert_eq!(measure_lines(&Vec::new(), 100 * UNIT), (0, 0));
}

#[test]
fn inline_constraint_prefers_known_width() {
    assert_eq!(
        create_inline_constraint(Some(50 * UNIT), AvailableSpace::MinContent, Some(600), Some(3)),
        (50 * UNIT, Some(MaxHeight::HeightAndLines(600 * UNIT, 3)))
    );
    assert_eq!(
        create_inline_constraint(None, AvailableSpace::MinContent, Some(600), None),
        (0, Some(MaxHeight::Absolute(600 * UNIT)))
    );
    assert_eq!(
        create_inline_constraint(None, AvailableSpace::MaxContent, None, Some(2)),
        (i64::MAX, Some(MaxHeight::Lines(2)))
    );
    assert_eq!(create_inline_constraint(None, AvailableSpace::Definite(7 * UNIT), None, None), (7 * UNIT, None));
}

#[test]
fn inline_pieces_place_boxes_after_preceding_text() {
    let ctx = RenderContext::new(Viewport::new(Some(100), Some(100)));
    let items = vec![
        InlineEntry { item: InlineContentKind::Text("héllo".to_string()), context: ctx },
        InlineEntry { item: InlineContentKind::Box, context: ctx },
        InlineEntry { item: InlineContentKind::Text("ab".to_string()), context: ctx },
        InlineEntry { item: InlineContentKind::Box, context: ctx },
    ];
    let sizes = vec![(3 * UNIT, 4 * UNIT), (5 * UNIT, 6 * UNIT)];
    assert_eq!(
        inline_pieces(&items, &sizes),
        vec![
            InlinePiece::Text("héllo".to_string()),
            InlinePiece::Box { index: 6, id: 0, width: 3 * UNIT, height: 4 * UNIT },
            InlinePiece::Text("ab".to_string()),
            InlinePiece::Box { index: 8, id: 1, width: 5 * UNIT, height: 6 * UNIT },
        ]
    );
}

#[test]
fn measuring_skips_rejustification() {
    assert_eq!(rejustify_pass(true, Some(TextWrapStyle::Balance), TextWrapStyle::Pretty), None);
    assert_eq!(rejustify_pass(false, Some(TextWrapStyle::Balance), TextWrapStyle::Pretty), Some(TextWrapStyle::Balance));
    assert_eq!(rejustify_pass(false, None, TextWrapStyle::Pretty), Some(TextWrapStyle::Pretty));
}

#[test]
fn drawing_bound_follows_line_clamp() {
    assert_eq!(draw_max_height(40 * UNIT, Some(2)), MaxHeight::HeightAndLines(40 * UNIT, 2));
    assert_eq!(draw_max_height(40 * UNIT, None), MaxHeight::Absolute(40 * UNIT));
}
