use takumi::calc::ParseError;
use takumi::length::{
    decode_linear_id, encode_linear_id, CalcArena, CalcFormula, CalcHandle, CalcLinear,
    CompactLength, Length, Sizing, Viewport, DEFAULT_FONT_SIZE,
};
use takumi::numeric::UNIT;

fn sizing() -> Sizing {
    Sizing {
        viewport: Viewport {
            width: Some(200),
            height: Some(100),
            font_size: 16 * UNIT,
            device_pixel_ratio: 2 * UNIT,
        },
        font_size: 10 * UNIT,
    }
}

fn assert_near(lhs: i64, rhs: f64) {
    let value = lhs as f64 / UNIT as f64;
    let diff = (value - rhs).abs();
    assert!(diff < 0.0001, "lhs={value}, rhs={rhs}, diff={diff}");
}

#[test]
fn parse_calc_mixed_returns_formula_handle() {
    assert_eq!(
        Length::from_str("calc(100% - 12px)"),
        Ok(Length::Calc(CalcHandle::Formula(CalcFormula {
            percent: UNIT,
            px: -12 * UNIT,
            ..Default::default()
        })))
    );
}

#[test]
fn parse_calc_number_expression_becomes_px() {
    let parsed = Length::from_str("calc(1 + 2)");
    assert_eq!(parsed, Ok(Length::Px(3 * UNIT)));
}

#[test]
fn parse_calc_rejects_number_plus_length() {
    let parsed = Length::from_str("calc(1 + 2px)");
    assert!(parsed.is_err());
}

#[test]
fn parse_calc_rejects_division_by_zero() {
    let parsed = Length::from_str("calc(10px / 0)");
    assert!(parsed.is_err());
}

#[test]
fn negative_calc_keeps_value_sign_consistent() {
    let value = Length::Calc(CalcHandle::Formula(CalcFormula {
        percent: UNIT / 2,
        px: 10 * UNIT,
        ..Default::default()
    }));
    let negated = value.negative();
    let sizing = sizing();
    assert_near(value.to_px(&sizing, 200 * UNIT), 120.0);
    assert_near(negated.to_px(&sizing, 200 * UNIT), -120.0);
}

#[test]
fn make_computed_collapses_formula_without_percent_to_px() {
    let mut value = Length::Calc(CalcHandle::Formula(CalcFormula {
        rem: UNIT,
        px: 5 * UNIT,
        ..Default::default()
    }));
    value.make_computed(&sizing());
    assert_eq!(value, Length::Px(21 * UNIT));
}

#[test]
fn make_computed_collapsed_px_applies_dpr_only_once_in_to_px() {
    let mut value = Length::Calc(CalcHandle::Formula(CalcFormula {
        rem: UNIT,
        px: 5 * UNIT,
        ..Default::default()
    }));
    let sizing = sizing();
    value.make_computed(&sizing);

    assert_eq!(value, Length::Px(21 * UNIT));
    assert_eq!(value.to_px(&sizing, 0), 42 * UNIT);
}

#[test]
fn make_computed_collapses_formula_with_only_percent_to_percentage() {
    let mut value = Length::Calc(CalcHandle::Formula(CalcFormula {
        percent: UNIT / 2,
        ..Default::default()
    }));
    value.make_computed(&sizing());
    assert_eq!(value, Length::Percentage(50 * UNIT));
}

#[test]
fn make_computed_keeps_mixed_formula_as_linear_calc() {
    let mut value = Length::Calc(CalcHandle::Formula(CalcFormula {
        percent: UNIT / 2,
        px: 10 * UNIT,
        ..Default::default()
    }));
    value.make_computed(&sizing());
    assert_eq!(
        value,
        Length::Calc(CalcHandle::Linear(CalcLinear {
            px: 20 * UNIT,
            percent: UNIT / 2,
        }))
    );
}

#[test]
fn compact_length_calc_pointer_resolves_through_callback() {
    let value = Length::Calc(CalcHandle::Formula(CalcFormula {
        percent: UNIT / 2,
        px: 10 * UNIT,
        ..Default::default()
    }));
    let sizing = sizing();
    let mut arena = CalcArena::new(0);
    let compact = value.to_compact_length(&sizing, &mut arena);
    let handle = match compact {
        CompactLength::Calc(handle) => handle,
        other => panic!("expected a calc handle, got {other:?}"),
    };
    let resolved = arena.resolve_calc_value(handle, 200 * UNIT);
    assert_near(resolved, 120.0);
}

#[test]
fn compact_length_percent_does_not_use_calc_pointer() {
    let sizing = sizing();
    let mut arena = CalcArena::new(0);
    let compact = Length::Percentage(50 * UNIT).to_compact_length(&sizing, &mut arena);
    assert!(!matches!(compact, CompactLength::Calc(_)));
    match compact {
        CompactLength::Percent(v) => assert_near(v, 0.5),
        other => panic!("expected a percentage, got {other:?}"),
    }
    assert_eq!(arena.len(), 0);
}

#[test]
fn to_px_applies_device_pixel_ratio_for_absolute_units() {
    let px = Length::Rem(2 * UNIT).to_px(&sizing(), 100 * UNIT);
    assert_near(px, 64.0);
}

#[test]
fn test_viewport_new_defaults() {
    let v = Viewport::new(Some(800), Some(600));
    assert_eq!(v.width, Some(800));
    assert_eq!(v.height, Some(600));
    assert_eq!(v.font_size, DEFAULT_FONT_SIZE);
}

#[test]
fn test_viewport_new_with_font_size() {
    let v = Viewport::new_with_font_size(Some(1024), Some(768), 14 * UNIT);
    assert_eq!(v.width, Some(1024));
    assert_eq!(v.height, Some(768));
    assert_eq!(v.font_size, 14 * UNIT);
}

#[test]
fn negated_percentage_formula_resolves_to_opposite_value() {
    let parsed = Length::from_str("calc(100% - 12px)").unwrap();
    let negated = parsed.negative();
    assert_eq!(
        negated,
        Length::Calc(CalcHandle::Formula(CalcFormula {
            percent: -UNIT,
            px: 12 * UNIT,
            ..Default::default()
        }))
    );
    let sizing = sizing();
    let value = parsed.to_px(&sizing, 200 * UNIT);
    assert_eq!(value, -negated.to_px(&sizing, 200 * UNIT));
    assert_near(value, 176.0);
}

#[test]
fn expanded_expression_resolves_like_factored_one() {
    let sizing = sizing();
    let factored = Length::from_str("calc(2 * calc(10px + 5%))").unwrap();
    let expanded = Length::from_str("calc(20px + 10%)").unwrap();
    let distributed = Length::from_str("calc(2 * 10px + 5% * 2)").unwrap();
    assert_eq!(factored, expanded);
    assert_eq!(distributed, expanded);
    assert_eq!(factored.to_px(&sizing, 300 * UNIT), expanded.to_px(&sizing, 300 * UNIT));
    let difference = Length::from_str("calc(3em - 1rem)").unwrap();
    let sum = Length::from_str("calc(3em + -1rem)").unwrap();
    assert_eq!(difference.to_px(&sizing, 0), sum.to_px(&sizing, 0));
    assert_near(difference.to_px(&sizing, 0), 30.0 - 32.0);
}

#[test]
fn parses_plain_lengths_and_keywords() {
    assert_eq!(Length::from_str("auto"), Ok(Length::Auto));
    assert_eq!(Length::from_str("  AUTO "), Ok(Length::Auto));
    assert_eq!(Length::from_str("12.5px"), Ok(Length::Px(12_500_000)));
    assert_eq!(Length::from_str("-3em"), Ok(Length::Em(-3 * UNIT)));
    assert_eq!(Length::from_str("50%"), Ok(Length::Percentage(50 * UNIT)));
    assert_eq!(Length::from_str("7"), Ok(Length::Px(7 * UNIT)));
    assert_eq!(Length::from_str(".25in"), Ok(Length::In(250_000)));
    assert_eq!(Length::from_str("2Q"), Ok(Length::Q(2 * UNIT)));
    assert_eq!(Length::from_str("3furlongs"), Err(ParseError::InvalidLength));
    assert_eq!(Length::from_str("3px 4px"), Err(ParseError::InvalidLength));
    assert_eq!(Length::from_str(""), Err(ParseError::InvalidLength));
}

#[test]
fn calc_rejects_unit_products_and_unit_divisors() {
    assert!(Length::from_str("calc(2px * 3px)").is_err());
    assert!(Length::from_str("calc(10px / 2px)").is_err());
    assert!(Length::from_str("calc(1px + 2").is_err());
    assert_eq!(Length::from_str("calc(10px / 4)"), Ok(Length::Calc(CalcHandle::Formula(CalcFormula {
        px: 2_500_000,
        ..Default::default()
    }))));
    assert_eq!(Length::from_str("calc(6 / 4)"), Ok(Length::Px(1_500_000)));
}

#[test]
fn physical_units_convert_at_css_ratios() {
    let sizing = sizing();
    assert_near(Length::In(UNIT).to_px(&sizing, 0), 192.0);
    assert_near(Length::Pc(UNIT).to_px(&sizing, 0), 32.0);
    assert_near(Length::Pt(3 * UNIT).to_px(&sizing, 0), 8.0);
    assert_near(Length::Cm(127 * UNIT).to_px(&sizing, 0), 9600.0);
    assert_near(Length::Vw(50 * UNIT).to_px(&sizing, 0), 100.0);
    assert_near(Length::Vh(50 * UNIT).to_px(&sizing, 0), 50.0);
    assert_near(Length::Em(2 * UNIT).to_px(&sizing, 0), 20.0);
    assert_eq!(Length::Auto.to_px(&sizing, 500), 0);
}

#[test]
fn linear_handles_encode_and_decode() {
    assert_eq!(encode_linear_id(3), 24);
    assert_eq!(decode_linear_id(24), Some(3));
    assert_eq!(decode_linear_id(0), None);
    let arena = CalcArena::new(0);
    assert_eq!(arena.resolve_calc_value(8, 100 * UNIT), 0);
}

#[test]
fn compact_length_collapses_near_zero_terms() {
    let sizing = sizing();
    let mut arena = CalcArena::new(0);
    let px_only = Length::Calc(CalcHandle::Formula(CalcFormula { px: 3 * UNIT, ..Default::default() }));
    assert_eq!(px_only.to_compact_length(&sizing, &mut arena), CompactLength::Length(6 * UNIT));
    let percent_only = Length::Calc(CalcHandle::Formula(CalcFormula { percent: UNIT / 4, ..Default::default() }));
    assert_eq!(percent_only.to_compact_length(&sizing, &mut arena), CompactLength::Percent(UNIT / 4));
    assert_eq!(Length::Auto.to_compact_length(&sizing, &mut arena), CompactLength::Auto);
    assert_eq!(arena.len(), 0);
}

#[test]
fn make_computed_keeps_em_resolution() {
    let sizing = sizing();
    let mut value = Length::Em(UNIT);
    assert_eq!(value.to_px(&sizing, 0), 10 * UNIT);
    value.make_computed(&sizing);
    assert_eq!(value, Length::Px(5 * UNIT));
    assert_eq!(value.to_px(&sizing, 0), 10 * UNIT);
}

#[test]
fn sizing_validity_and_large_ids() {
    assert!(sizing().is_wf());
    let mut bad = sizing();
    bad.viewport.device_pixel_ratio = 0;
    assert!(!bad.is_wf());
    let id = 1usize << 40;
    assert_eq!(decode_linear_id(encode_linear_id(id)), Some(id));
}

#[test]
fn handles_only_resolve_against_their_own_arena() {
    let sizing = sizing();
    let value = Length::Calc(CalcHandle::Formula(CalcFormula {
        percent: UNIT / 2,
        px: 10 * UNIT,
        ..Default::default()
    }));
    let mut mine = CalcArena::new(3);
    let mut other = CalcArena::new(4);
    other.register_linear(CalcLinear { px: UNIT, percent: UNIT });
    let handle = match value.to_compact_length(&sizing, &mut mine) {
        CompactLength::Calc(handle) => handle,
        other => panic!("expected a calc handle, got {other:?}"),
    };
    assert_eq!(handle, encode_linear_id(256 + 3));
    assert_near(mine.resolve_calc_value(handle, 200 * UNIT), 120.0);
    assert_eq!(other.resolve_calc_value(handle, 200 * UNIT), 0);
}
