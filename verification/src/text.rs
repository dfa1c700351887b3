//! The sizing decisions behind text widgets.
//!
//! Shaping the text — laying out glyphs within bounds — is the text engine's
//! business; what belongs to the solver is the pure decision that turns the
//! shaped text's required size plus the theme's metrics into a [`SizeRules`]
//! value. That decision lives here, on plain integers.

use vstd::prelude::*;
use crate::size_rules::{int_max, int_min, SizeRules, StretchPolicy};

verus! {

/// `x * k` on `u32`, clamped to `u32::MAX` instead of wrapping.
pub open spec fn sat_mul32(x: int, k: int) -> int {
    if x * k > u32::MAX {
        u32::MAX as int
    } else {
        x * k
    }
}

/// The classes of text a theme sizes differently.
#[derive(Clone, Copy, Debug, PartialEq, Eq, Structural)]
pub enum TextClass {
    /// Plain display text.
    Label,
    /// A button's caption.
    Button,
    /// A single-line editable field.
    Edit,
    /// A multi-line editable field.
    EditMulti,
}

/// The minimum and ideal line lengths a theme derives from its line height:
/// six and fifteen line heights respectively (about two characters per line
/// height), clamped rather than wrapped on overflow.
pub fn line_lengths(line_height: u32) -> (r: (u32, u32))
    ensures
        r.0 as int == sat_mul32(line_height as int, 6),
        r.1 as int == sat_mul32(line_height as int, 15),
        r.0 <= r.1,
{
    let min_len: u32 = if line_height > u32::MAX / 6 {
        u32::MAX
    } else {
        line_height * 6
    };
    let ideal_len: u32 = if line_height > u32::MAX / 15 {
        u32::MAX
    } else {
        line_height * 15
    };
    (min_len, ideal_len)
}

/// What [`text_bound_rules`] reports. Horizontally, editable text insists on
/// the theme's line lengths while other classes never ask for more than the
/// shaped text's width; the text stretches reluctantly. Vertically, the
/// minimum is one line height (three for multi-line editors), the ideal
/// covers the shaped text's height, and only buttons and single-line editors
/// refuse to stretch.
pub open spec fn spec_text_bound_rules(
    bound_w: u32,
    bound_h: u32,
    line_height: u32,
    min_line: u32,
    ideal_line: u32,
    margin: u16,
    class: TextClass,
    vertical: bool,
) -> SizeRules {
    if !vertical {
        let lo = if class is Edit || class is EditMulti {
            min_line as int
        } else {
            int_min(bound_w as int, min_line as int)
        };
        let hi = if class is Edit || class is EditMulti {
            ideal_line as int
        } else {
            int_min(bound_w as int, ideal_line as int)
        };
        SizeRules {
            min: lo as u32,
            ideal: hi as u32,
            margins: (margin, margin),
            stretch: StretchPolicy::LowUtility,
        }
    } else {
        let lo = if class is EditMulti {
            sat_mul32(line_height as int, 3)
        } else {
            line_height as int
        };
        SizeRules {
            min: lo as u32,
            ideal: int_max(bound_h as int, lo) as u32,
            margins: (margin, margin),
            stretch: if class is Button || class is Edit {
                StretchPolicy::Fixed
            } else {
                StretchPolicy::Filler
            },
        }
    }
}

/// The rule a theme reports for a text widget, given the theme's metrics
/// (`line_height`, the line lengths from [`line_lengths`], the margin) and
/// the extent the shaped text asked for (`bound_w`, `bound_h`, as reported
/// by the text engine for the measured context).
pub fn text_bound_rules(
    bound_w: u32,
    bound_h: u32,
    line_height: u32,
    min_line: u32,
    ideal_line: u32,
    margin: u16,
    class: TextClass,
    vertical: bool,
) -> (r: SizeRules)
    requires
        min_line <= ideal_line,
    ensures
        r == spec_text_bound_rules(
            bound_w,
            bound_h,
            line_height,
            min_line,
            ideal_line,
            margin,
            class,
            vertical,
        ),
        r.valid(),
{
    let margins = (margin, margin);
    if !vertical {
        let (lo, hi) = match class {
            TextClass::Edit | TextClass::EditMulti => (min_line, ideal_line),
            _ => (
                if bound_w <= min_line {
                    bound_w
                } else {
                    min_line
                },
                if bound_w <= ideal_line {
                    bound_w
                } else {
                    ideal_line
                },
            ),
        };
        SizeRules { min: lo, ideal: hi, margins, stretch: StretchPolicy::LowUtility }
    } else {
        let lo = match class {
            TextClass::EditMulti => {
                if line_height > u32::MAX / 3 {
                    u32::MAX
                } else {
                    line_height * 3
                }
            },
            _ => line_height,
        };
        let hi = if bound_h >= lo {
            bound_h
        } else {
            lo
        };
        let stretch = match class {
            TextClass::Button | TextClass::Edit => StretchPolicy::Fixed,
            _ => StretchPolicy::Filler,
        };
        SizeRules { min: lo, ideal: hi, margins, stretch }
    }
}

} // verus!
