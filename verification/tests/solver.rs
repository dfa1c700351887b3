//! Tests of space distribution, the row solver protocol and the frame.

use layout_solver::axis::AxisInfo;
use layout_solver::frame::Frame;
use layout_solver::geom::{Coord, Rect, Size};
use layout_solver::layout::{measure_unchanged_twice, Layout, Spacer};
use layout_solver::row_solver::FixedRowSolver;
use layout_solver::size_rules::{SizeRules, StretchPolicy};
use layout_solver::solve::solve_seq;

fn rules(min: u32, ideal: u32, stretch: StretchPolicy) -> SizeRules {
    SizeRules::new(min, ideal, (0, 0), stretch)
}

/// Run the solver over `children` (appending the trailing aggregate slot the
/// storage contract asks for) and return the assigned extents.
fn solve(children: &[SizeRules], total: u32) -> Vec<u32> {
    let mut all: Vec<SizeRules> = children.to_vec();
    all.push(SizeRules::empty());
    let mut out: Vec<u32> = vec![0; children.len()];
    solve_seq(&mut out, &all, total);
    out
}

#[test]
fn fixed_children_stop_at_ideal() {
    // three fixed children can use 60 of the 100 units; the rest is left to
    // the container, not distributed
    let children = [
        rules(10, 20, StretchPolicy::Fixed),
        rules(10, 20, StretchPolicy::Fixed),
        rules(10, 20, StretchPolicy::Fixed),
    ];
    assert_eq!(solve(&children, 100), vec![20, 20, 20]);
}

#[test]
fn filler_absorbs_all_surplus() {
    let children = [rules(0, 50, StretchPolicy::Fixed), rules(0, 50, StretchPolicy::Filler)];
    assert_eq!(solve(&children, 200), vec![50, 150]);
}

#[test]
fn deficit_keeps_minimums() {
    let children = [rules(10, 10, StretchPolicy::Fixed), rules(10, 10, StretchPolicy::Fixed)];
    // the outputs intentionally exceed the 5 available units
    assert_eq!(solve(&children, 5), vec![10, 10]);
}

#[test]
fn growth_is_proportional_to_headroom() {
    let children = [
        rules(0, 10, StretchPolicy::LowUtility),
        rules(0, 30, StretchPolicy::LowUtility),
    ];
    assert_eq!(solve(&children, 20), vec![5, 15]);
}

#[test]
fn rounding_units_go_to_earliest_children() {
    let children = [
        rules(0, 1, StretchPolicy::LowUtility),
        rules(0, 1, StretchPolicy::LowUtility),
        rules(0, 1, StretchPolicy::LowUtility),
    ];
    assert_eq!(solve(&children, 2), vec![1, 1, 0]);
}

#[test]
fn higher_tiers_are_served_first() {
    // the filler reaches its ideal before the low-utility child sees a unit
    let children = [
        rules(0, 10, StretchPolicy::LowUtility),
        rules(0, 10, StretchPolicy::Filler),
    ];
    assert_eq!(solve(&children, 10), vec![0, 10]);
    // with more space the lower tier catches up too
    assert_eq!(solve(&children, 15), vec![5, 10]);
}

#[test]
fn high_utility_grows_beyond_ideal() {
    let children = [rules(0, 10, StretchPolicy::HighUtility)];
    assert_eq!(solve(&children, 25), vec![25]);
}

#[test]
fn beyond_ideal_remainder_goes_to_earliest() {
    let children = [
        rules(0, 0, StretchPolicy::Filler),
        rules(0, 0, StretchPolicy::Filler),
    ];
    assert_eq!(solve(&children, 5), vec![3, 2]);
}

#[test]
fn minimums_are_always_honoured() {
    let children = [
        rules(7, 12, StretchPolicy::Fixed),
        rules(3, 40, StretchPolicy::LowUtility),
        rules(9, 9, StretchPolicy::Filler),
    ];
    for total in 0..80u32 {
        let out = solve(&children, total);
        for (extent, rule) in out.iter().zip(children.iter()) {
            assert!(*extent >= rule.min);
        }
    }
}

#[test]
fn assigned_extents_sum_exactly() {
    // no growth-eligible child: the sum is the smaller of the total and the
    // ideals' sum
    let fixed = [
        rules(5, 20, StretchPolicy::Fixed),
        rules(5, 25, StretchPolicy::LowUtility),
    ];
    let total_min = 10u32;
    let total_ideal = 45u32;
    for total in total_min..60u32 {
        let out = solve(&fixed, total);
        let sum: u32 = out.iter().sum();
        assert_eq!(sum, total.min(total_ideal));
    }
    // a growth-eligible child absorbs everything
    let stretchy = [
        rules(5, 20, StretchPolicy::Fixed),
        rules(5, 25, StretchPolicy::HighUtility),
    ];
    for total in total_min..60u32 {
        let out = solve(&stretchy, total);
        let sum: u32 = out.iter().sum();
        assert_eq!(sum, total);
    }
}

#[test]
fn solver_output_is_deterministic() {
    let children = [
        rules(1, 13, StretchPolicy::LowUtility),
        rules(2, 9, StretchPolicy::Filler),
        rules(0, 31, StretchPolicy::LowUtility),
    ];
    assert_eq!(solve(&children, 37), solve(&children, 37));
}

fn spacer(min: u32, ideal: u32, margins: (u16, u16), stretch: StretchPolicy) -> Spacer {
    let r = SizeRules::new(min, ideal, margins, stretch);
    Spacer::new(r, r)
}

#[test]
fn row_accumulates_sequentially_and_records_rules() {
    let mut a = spacer(10, 20, (0, 4), StretchPolicy::Fixed);
    let mut b = spacer(5, 7, (6, 2), StretchPolicy::LowUtility);
    let axis = AxisInfo::new(false);
    let mut solver = FixedRowSolver::new(false, axis, vec![0; 2], vec![SizeRules::empty(); 3]);
    solver.for_child(0, &mut a);
    solver.for_child(1, &mut b);
    let (total, storage) = solver.finish();
    assert_eq!(total.min, 15);
    assert_eq!(total.ideal, 27);
    assert_eq!(total.margins, (0, 2));
    assert_eq!(storage[0], SizeRules::new(10, 20, (0, 4), StretchPolicy::Fixed));
    assert_eq!(storage[1], SizeRules::new(5, 7, (6, 2), StretchPolicy::LowUtility));
    // the trailing slot holds the whole row's rule
    assert_eq!(storage[2], total);
}

#[test]
fn cross_axis_accumulates_in_parallel() {
    let mut a = spacer(10, 20, (1, 1), StretchPolicy::Fixed);
    let mut b = spacer(15, 18, (2, 0), StretchPolicy::Filler);
    // vertical measurement of a (horizontal) row: the cross axis
    let axis = AxisInfo::new(true);
    let mut solver = FixedRowSolver::new(false, axis, vec![0; 2], vec![SizeRules::empty(); 3]);
    solver.for_child(0, &mut a);
    solver.for_child(1, &mut b);
    let (total, storage) = solver.finish();
    assert_eq!(total.min, 15);
    assert_eq!(total.ideal, 20);
    assert_eq!(total.stretch, StretchPolicy::Filler);
    // cross-axis passes leave the recorded rules untouched
    assert_eq!(storage[0], SizeRules::empty());
}

#[test]
fn cross_axis_total_ignores_child_order() {
    let r = [
        SizeRules::new(10, 20, (1, 1), StretchPolicy::Fixed),
        SizeRules::new(15, 18, (2, 0), StretchPolicy::Filler),
        SizeRules::new(3, 40, (0, 5), StretchPolicy::LowUtility),
    ];
    let axis = AxisInfo::new(true);
    let mut forward = FixedRowSolver::new(false, axis, vec![0; 3], vec![SizeRules::empty(); 4]);
    let mut backward = FixedRowSolver::new(false, axis, vec![0; 3], vec![SizeRules::empty(); 4]);
    for i in 0..3 {
        forward.for_child(i, &mut Spacer::new(r[i], r[i]));
        backward.for_child(i, &mut Spacer::new(r[2 - i], r[2 - i]));
    }
    assert_eq!(forward.finish().0, backward.finish().0);
}

#[test]
fn primary_axis_total_ignores_fold_grouping() {
    let a = SizeRules::new(10, 20, (1, 4), StretchPolicy::Fixed);
    let b = SizeRules::new(15, 18, (3, 2), StretchPolicy::Filler);
    let c = SizeRules::new(2, 30, (5, 0), StretchPolicy::LowUtility);
    let axis = AxisInfo::new(false);
    let mut row = FixedRowSolver::new(false, axis, vec![0; 3], vec![SizeRules::empty(); 4]);
    row.for_child(0, &mut Spacer::new(a, a));
    row.for_child(1, &mut Spacer::new(b, b));
    row.for_child(2, &mut Spacer::new(c, c));
    let (total, _) = row.finish();
    // the fold runs left to right from the empty rule; associativity makes
    // any other grouping of the in-order children bit-identical
    let left = SizeRules::empty().sequential_sum(a).sequential_sum(b).sequential_sum(c);
    let right = SizeRules::empty().sequential_sum(a).sequential_sum(b.sequential_sum(c));
    assert_eq!(total, left);
    assert_eq!(total, right);
}

#[test]
fn zero_children_yield_the_empty_rule() {
    let axis = AxisInfo::new(false);
    let solver = FixedRowSolver::new(false, axis, Vec::new(), vec![SizeRules::empty(); 1]);
    let (total, _) = solver.finish();
    assert_eq!(total, SizeRules::empty());
}

#[test]
fn second_pass_feeds_solved_extents_to_children() {
    // primary pass recorded two children (headroom 10 and 30) plus a total
    let recorded = vec![
        rules(0, 10, StretchPolicy::LowUtility),
        rules(0, 30, StretchPolicy::LowUtility),
        rules(0, 40, StretchPolicy::LowUtility),
    ];
    // cross-axis pass of a row measured vertically, with 20 horizontal units
    let axis = AxisInfo::new_fixed(true, 20);
    let solver = FixedRowSolver::new(false, axis, vec![0; 2], recorded);
    assert_eq!(solver.widths, vec![5, 15]);
}

#[test]
fn remeasuring_is_bit_identical() {
    let mut a = spacer(10, 20, (1, 2), StretchPolicy::LowUtility);
    let axis = AxisInfo::new(false);
    let (first, second) = measure_unchanged_twice(&mut a, axis);
    assert_eq!(first, second);

    let mut f = Frame::new(spacer(10, 20, (2, 3), StretchPolicy::LowUtility));
    let r1 = f.size_rules(Size::uniform(5), axis);
    let r2 = f.size_rules(Size::uniform(5), axis);
    assert_eq!(r1, r2);
}

#[test]
fn frame_surrounds_its_child() {
    let mut f = Frame::new(spacer(10, 20, (2, 3), StretchPolicy::LowUtility));
    let r = f.size_rules(Size::uniform(5), AxisInfo::new(false));
    // child extent + twice the thickness + the child's folded-in margins
    assert_eq!(r.min, 10 + 10 + 5);
    assert_eq!(r.ideal, 20 + 10 + 5);
    assert_eq!(r.margins, (0, 0));
    // the child sits thickness + margin inside the frame
    assert_eq!(f.m0, Size(7, 0));
    assert_eq!(f.m1, Size(8, 0));
}

#[test]
fn frame_passes_the_inside_to_its_child() {
    let mut f = Frame::new(spacer(10, 20, (2, 3), StretchPolicy::LowUtility));
    f.size_rules(Size::uniform(5), AxisInfo::new(false));
    f.size_rules(Size::uniform(5), AxisInfo::new(true));
    let outer = Rect { pos: Coord(100, 200), size: Size(50, 40) };
    f.set_rect(outer);
    assert_eq!(f.rect, outer);
    assert_eq!(f.inner.rect.pos, Coord(107, 207));
    assert_eq!(f.inner.rect.size, Size(50 - 15, 40 - 15));
}

#[test]
fn frame_shrinks_to_nothing_without_panicking() {
    let mut f = Frame::new(spacer(10, 20, (2, 3), StretchPolicy::LowUtility));
    f.size_rules(Size::uniform(5), AxisInfo::new(false));
    f.set_rect(Rect { pos: Coord(0, 0), size: Size(1, 1) });
    assert_eq!(f.inner.rect.size, Size(0, 1));
}
