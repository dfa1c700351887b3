//! Tests of the size-rule algebra, the axis context and the text metrics.

use layout_solver::axis::AxisInfo;
use layout_solver::size_rules::{Margins, SizeRules, StretchPolicy};
use layout_solver::geom::Size;
use layout_solver::text::{line_lengths, text_bound_rules, TextClass};

fn rules(min: u32, ideal: u32, margins: (u16, u16), stretch: StretchPolicy) -> SizeRules {
    SizeRules::new(min, ideal, margins, stretch)
}

#[test]
fn sequential_sum_adds_extents() {
    let a = rules(10, 20, (1, 4), StretchPolicy::Fixed);
    let b = rules(5, 7, (6, 2), StretchPolicy::LowUtility);
    let c = a.sequential_sum(b);
    assert_eq!(c.min, 15);
    assert_eq!(c.ideal, 27);
    assert_eq!(c.margins, (1, 2));
    assert_eq!(c.stretch, StretchPolicy::LowUtility);
}

#[test]
fn touching_margins_merge_by_maximum() {
    // child A with trailing margin 4, child B with leading margin 6: the
    // shared gap is max(4, 6) = 6, not 10
    let a = rules(10, 10, (0, 4), StretchPolicy::Fixed);
    let b = rules(10, 10, (6, 0), StretchPolicy::Fixed);
    assert_eq!(a.merged_margin(b), 6);
    // and the composed rule keeps only the pair's outer margins
    let c = a.sequential_sum(b);
    assert_eq!(c.margins, (0, 0));
}

#[test]
fn parallel_max_takes_maxima() {
    let a = rules(10, 20, (1, 4), StretchPolicy::Fixed);
    let b = rules(15, 18, (3, 2), StretchPolicy::Filler);
    let c = a.parallel_max(b);
    assert_eq!(c.min, 15);
    assert_eq!(c.ideal, 20);
    assert_eq!(c.margins, (3, 4));
    assert_eq!(c.stretch, StretchPolicy::Filler);
}

#[test]
fn parallel_max_is_commutative_and_associative() {
    let a = rules(10, 20, (1, 4), StretchPolicy::Fixed);
    let b = rules(15, 18, (3, 2), StretchPolicy::Filler);
    let c = rules(2, 30, (5, 0), StretchPolicy::LowUtility);
    assert_eq!(a.parallel_max(b), b.parallel_max(a));
    assert_eq!(a.parallel_max(b).parallel_max(c), a.parallel_max(b.parallel_max(c)));
}

#[test]
fn sequential_sum_is_associative() {
    let a = rules(10, 20, (1, 4), StretchPolicy::Fixed);
    let b = rules(15, 18, (3, 2), StretchPolicy::Filler);
    let c = rules(2, 30, (5, 0), StretchPolicy::LowUtility);
    assert_eq!(a.sequential_sum(b).sequential_sum(c), a.sequential_sum(b.sequential_sum(c)));
}

#[test]
fn empty_rule_is_the_identity() {
    let a = rules(10, 20, (0, 0), StretchPolicy::HighUtility);
    let e = SizeRules::empty();
    assert_eq!(a.sequential_sum(e), a);
    assert_eq!(e.sequential_sum(a), a);
    assert_eq!(a.parallel_max(e), a);
}

#[test]
fn arithmetic_saturates_instead_of_wrapping() {
    let a = rules(u32::MAX - 5, u32::MAX, (0, 0), StretchPolicy::Fixed);
    let b = rules(10, 10, (0, 0), StretchPolicy::Fixed);
    let c = a.sequential_sum(b);
    assert_eq!(c.min, u32::MAX);
    assert_eq!(c.ideal, u32::MAX);
}

#[test]
fn stretch_priority_ordering() {
    assert_eq!(
        StretchPolicy::Fixed.priority_max(StretchPolicy::LowUtility),
        StretchPolicy::LowUtility
    );
    assert_eq!(
        StretchPolicy::LowUtility.priority_max(StretchPolicy::HighUtility),
        StretchPolicy::HighUtility
    );
    assert_eq!(
        StretchPolicy::HighUtility.priority_max(StretchPolicy::Filler),
        StretchPolicy::Filler
    );
    assert_eq!(StretchPolicy::Filler.priority_max(StretchPolicy::Fixed), StretchPolicy::Filler);
}

#[test]
fn extract_fixed_pins_the_axis_extent() {
    let m = Margins::uniform(3);
    let h = SizeRules::extract_fixed(false, Size(8, 12), m);
    assert_eq!(h.min, 8);
    assert_eq!(h.ideal, 8);
    assert_eq!(h.margins, (3, 3));
    assert_eq!(h.stretch, StretchPolicy::Fixed);
    let v = SizeRules::extract_fixed(true, Size(8, 12), m);
    assert_eq!(v.min, 12);
    assert_eq!(v.ideal, 12);
}

#[test]
fn surround_folds_inner_margins_when_frame_owns_edge() {
    let inner = rules(10, 20, (2, 3), StretchPolicy::LowUtility);
    let frame = SizeRules::extract_fixed(false, Size(10, 10), Margins::zero());
    let r = inner.surrounded_by(frame, true);
    assert_eq!(r.min, 10 + 10 + 5);
    assert_eq!(r.ideal, 20 + 10 + 5);
    assert_eq!(r.margins, (0, 0));
    assert_eq!(r.stretch, StretchPolicy::LowUtility);
}

#[test]
fn surround_merges_margins_when_frame_does_not_own_edge() {
    let inner = rules(10, 20, (2, 9), StretchPolicy::Fixed);
    let frame = SizeRules::new(6, 6, (4, 1), StretchPolicy::Fixed);
    let r = inner.surrounded_by(frame, false);
    assert_eq!(r.min, 16);
    assert_eq!(r.ideal, 26);
    assert_eq!(r.margins, (4, 9));
}

#[test]
fn axis_reports_fixed_extent_only_for_its_direction() {
    let first_pass = AxisInfo::new(false);
    assert_eq!(first_pass.size_other_if_fixed(false), None);
    assert_eq!(first_pass.size_other_if_fixed(true), None);
    assert!(first_pass.is_horizontal());

    let second_pass = AxisInfo::new_fixed(true, 320);
    assert_eq!(second_pass.size_other_if_fixed(true), Some(320));
    assert_eq!(second_pass.size_other_if_fixed(false), None);
    assert!(second_pass.is_vertical());
}

#[test]
fn line_lengths_derive_from_line_height() {
    assert_eq!(line_lengths(10), (60, 150));
    assert_eq!(line_lengths(0), (0, 0));
    assert_eq!(line_lengths(u32::MAX), (u32::MAX, u32::MAX));
}

#[test]
fn text_bounds_horizontal_label_caps_at_content() {
    let r = text_bound_rules(100, 0, 10, 60, 150, 2, TextClass::Label, false);
    assert_eq!(r.min, 60);
    assert_eq!(r.ideal, 100);
    assert_eq!(r.margins, (2, 2));
    assert_eq!(r.stretch, StretchPolicy::LowUtility);
    // very short content caps the minimum too
    let s = text_bound_rules(40, 0, 10, 60, 150, 2, TextClass::Label, false);
    assert_eq!(s.min, 40);
    assert_eq!(s.ideal, 40);
}

#[test]
fn text_bounds_horizontal_edit_insists_on_line_lengths() {
    let r = text_bound_rules(10, 0, 10, 60, 150, 2, TextClass::Edit, false);
    assert_eq!(r.min, 60);
    assert_eq!(r.ideal, 150);
}

#[test]
fn text_bounds_vertical_by_class() {
    let button = text_bound_rules(0, 25, 10, 60, 150, 2, TextClass::Button, true);
    assert_eq!(button.min, 10);
    assert_eq!(button.ideal, 25);
    assert_eq!(button.stretch, StretchPolicy::Fixed);

    let label = text_bound_rules(0, 5, 10, 60, 150, 2, TextClass::Label, true);
    assert_eq!(label.min, 10);
    assert_eq!(label.ideal, 10);
    assert_eq!(label.stretch, StretchPolicy::Filler);

    let multi = text_bound_rules(0, 55, 10, 60, 150, 2, TextClass::EditMulti, true);
    assert_eq!(multi.min, 30);
    assert_eq!(multi.ideal, 55);
    assert_eq!(multi.stretch, StretchPolicy::Filler);
}
