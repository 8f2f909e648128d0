//! Style-to-geometry core of a renderer that turns a styled document tree into an image:
//! CSS length and `calc()` resolution in fixed-point millionths, box-tree construction with
//! anonymous block boxes, line-breaking decisions and inline-item traversal, transform
//! parsing, and the integer parts of blurring.

/// Alpha premultiplication and the blur decision.
pub mod blur;
/// The `calc()` grammar and the length parser.
pub mod calc;
/// Line breaking under height and line bounds, and inline measurement.
pub mod inline;
/// Lengths, `calc()` formulas and their resolution against a sizing context.
pub mod length;
/// Fixed-point helpers: floor division, clamping and bounds.
pub mod numeric;
/// Colours, display types and other style properties.
pub mod style;
/// The de-duplicated list of resources to fetch.
pub mod task;
/// The tokens of CSS values.
pub mod token;
/// Transform functions and their parser.
pub mod transform;
/// The box tree: construction, anonymous boxes and inline items.
pub mod tree;
