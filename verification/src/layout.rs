//! The solver's interface to widget subtrees.

use vstd::prelude::*;
use crate::axis::AxisInfo;
use crate::geom::Rect;
use crate::size_rules::SizeRules;

verus! {

/// A widget subtree as the solver sees it: it reports sizing constraints
/// bottom-up and accepts an assigned rectangle top-down.
///
/// The contract makes measurement reproducible: what a widget reports is a
/// function of its state and the axis context alone, measuring does not
/// change what later measurements report, and neither does assigning a
/// rectangle. Re-measuring an unchanged subtree under an identical context
/// therefore yields bit-identical rules (see [`measure_unchanged_twice`]).
pub trait Layout {
    /// Implementation-defined well-formedness of the widget's state.
    spec fn wf(&self) -> bool;

    /// The rules this widget reports under the given axis context.
    spec fn rules_spec(&self, axis: AxisInfo) -> SizeRules;

    /// The rectangle this widget was last assigned.
    spec fn assigned_rect(&self) -> Rect;

    /// Measure the widget on one axis.
    fn size_rules(&mut self, axis: AxisInfo) -> (r: SizeRules)
        requires
            old(self).wf(),
        ensures
            final(self).wf(),
            r == old(self).rules_spec(axis),
            r.valid(),
            forall|a: AxisInfo| final(self).rules_spec(a) == old(self).rules_spec(a),
    ;

    /// Accept the rectangle assigned to this widget.
    fn set_rect(&mut self, rect: Rect)
        requires
            old(self).wf(),
        ensures
            final(self).wf(),
            final(self).assigned_rect() == rect,
            forall|a: AxisInfo| final(self).rules_spec(a) == old(self).rules_spec(a),
    ;
}

/// Re-measuring an unchanged subtree under an identical axis context yields
/// bit-identical rules.
pub fn measure_unchanged_twice<C: Layout>(child: &mut C, axis: AxisInfo) -> (pair: (
    SizeRules,
    SizeRules,
))
    requires
        old(child).wf(),
    ensures
        pair.0 == pair.1,
        pair.0 == old(child).rules_spec(axis),
{
    let first = child.size_rules(axis);
    let second = child.size_rules(axis);
    (first, second)
}

/// A leaf widget with fixed sizing rules on each axis: the simplest
/// [`Layout`].
#[derive(Clone, Copy, Debug)]
pub struct Spacer {
    /// The rules reported on the horizontal axis.
    pub horiz: SizeRules,
    /// The rules reported on the vertical axis.
    pub vert: SizeRules,
    /// The rectangle last assigned.
    pub rect: Rect,
}

impl Spacer {
    /// A leaf that reports `horiz` across and `vert` down.
    pub fn new(horiz: SizeRules, vert: SizeRules) -> (s: Spacer)
        requires
            horiz.valid(),
            vert.valid(),
        ensures
            s.horiz == horiz,
            s.vert == vert,
            s.wf(),
    {
        Spacer { horiz, vert, rect: Rect::zero() }
    }
}

impl Layout for Spacer {
    open spec fn wf(&self) -> bool {
        self.horiz.valid() && self.vert.valid()
    }

    open spec fn rules_spec(&self, axis: AxisInfo) -> SizeRules {
        if axis.vertical {
            self.vert
        } else {
            self.horiz
        }
    }

    open spec fn assigned_rect(&self) -> Rect {
        self.rect
    }

    fn size_rules(&mut self, axis: AxisInfo) -> (r: SizeRules) {
        if axis.is_vertical() {
            self.vert
        } else {
            self.horiz
        }
    }

    fn set_rect(&mut self, rect: Rect) {
        self.rect = rect;
    }
}

} // verus!
