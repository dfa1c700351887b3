//! Row / column solver.

use vstd::prelude::*;
use crate::axis::AxisInfo;
use crate::layout::Layout;
use crate::size_rules::SizeRules;
use crate::solve::{all_valid, alloc_of, solve_seq};

verus! {

/// A sizer for rows (and, by flipping the axis, for columns).
///
/// The caller supplies the solver's storage and drives the protocol:
/// construct with [`FixedRowSolver::new`], measure every child in index
/// order with [`FixedRowSolver::for_child`], and take the aggregate rule and
/// the storage back with [`FixedRowSolver::finish`].
///
/// On the row's primary axis the children's rules are recorded per child and
/// accumulated sequentially; on the cross axis they are accumulated in
/// parallel, and when the primary axis was already resolved each child is
/// measured against the concrete primary extent it will actually receive.
///
/// The fold starts from the empty rule, so the aggregate's outer margins on
/// the primary axis are the empty rule's zero leading margin and the last
/// child's trailing margin: sequential composition keeps only the pair's
/// outer edges (see `lemma_empty_identity` in [`crate::size_rules`] for
/// exactly how far the empty rule is an identity).
pub struct FixedRowSolver {
    /// The axis context the children are measured under.
    pub axis: AxisInfo,
    /// The measured axis is the row's cross axis.
    pub axis_is_vertical: bool,
    /// The aggregate rule accumulated so far.
    pub rules: SizeRules,
    /// Solved per-child extents of the primary axis, one per child; used on
    /// the cross-axis pass when the primary extent is already fixed.
    pub widths: Vec<u32>,
    /// Per-child rules of the primary axis, plus one trailing slot for the
    /// whole row's rule.
    pub width_rules: Vec<SizeRules>,
}

impl FixedRowSolver {
    /// The solver's storage is consistent and its accumulator well-formed.
    pub open spec fn wf(&self) -> bool {
        self.rules.valid() && self.widths.len() + 1 == self.width_rules.len()
            && self.widths.len() < 0x1_0000_0000
    }

    /// The axis context child `child_info` is measured under: on the
    /// cross-axis pass with the primary extents already solved, the child
    /// sees its own solved extent as the fixed other-axis size.
    pub open spec fn spec_child_axis(self, child_info: int) -> AxisInfo {
        if self.axis.has_fixed && self.axis_is_vertical {
            AxisInfo { other_axis: self.widths[child_info], ..self.axis }
        } else {
            self.axis
        }
    }

    /// Construct a row (or, with `vertical`, column) solver.
    ///
    /// - `vertical`: this instance represents a column, not a row
    /// - `axis`: the context the whole row is being measured under
    /// - `widths`: temporary storage, one slot per child, all zero
    /// - `width_rules`: persistent storage, one slot per child plus one for
    ///   the whole row
    ///
    /// When this is the cross-axis pass and the primary axis is already
    /// fixed, the primary axis's recorded rules are solved immediately so
    /// that each child can be measured against its concrete primary extent.
    pub fn new(vertical: bool, axis: AxisInfo, widths: Vec<u32>, width_rules: Vec<SizeRules>)
        -> (s: FixedRowSolver)
        requires
            widths.len() + 1 == width_rules.len(),
            widths.len() < 0x1_0000_0000,
            forall|i: int| 0 <= i < widths.len() ==> widths[i] == 0,
            axis.has_fixed && (axis.vertical != vertical) ==> all_valid(
                width_rules@,
                widths.len() as int,
            ),
        ensures
            s.wf(),
            s.axis == axis,
            s.axis_is_vertical == (axis.vertical != vertical),
            s.rules == SizeRules::spec_empty(),
            s.width_rules == width_rules,
            s.widths.len() == widths.len(),
            axis.has_fixed && (axis.vertical != vertical) ==> forall|i: int|
                0 <= i < widths.len() ==> #[trigger] s.widths@[i] as int == alloc_of(
                    axis.other_axis as int,
                    width_rules@,
                    widths.len() as int,
                    i,
                ),
            !(axis.has_fixed && (axis.vertical != vertical)) ==> s.widths == widths,
    {
        let axis_is_vertical = axis.vertical != vertical;

        let mut widths = widths;
        if axis.has_fixed && axis_is_vertical {
            solve_seq(&mut widths, &width_rules, axis.other_axis);
        }

        FixedRowSolver { axis, axis_is_vertical, rules: SizeRules::empty(), widths, width_rules }
    }

    /// Measure child `child_info` (children must be visited in index order)
    /// and fold its rules into the aggregate: sequentially on the row's
    /// primary axis — recording the child's rule — and in parallel on the
    /// cross axis.
    pub fn for_child<C: Layout>(&mut self, child_info: usize, child: &mut C)
        requires
            old(self).wf(),
            old(child).wf(),
            child_info < old(self).widths.len(),
        ensures
            final(self).wf(),
            final(child).wf(),
            forall|a: AxisInfo| final(child).rules_spec(a) == old(child).rules_spec(a),
            final(self).axis == old(self).spec_child_axis(child_info as int),
            final(self).axis_is_vertical == old(self).axis_is_vertical,
            final(self).widths == old(self).widths,
            !old(self).axis_is_vertical ==> final(self).width_rules@ == old(
                self,
            ).width_rules@.update(
                child_info as int,
                old(child).rules_spec(old(self).spec_child_axis(child_info as int)),
            ),
            !old(self).axis_is_vertical ==> final(self).rules == SizeRules::spec_sequential_sum(
                old(self).rules,
                old(child).rules_spec(old(self).spec_child_axis(child_info as int)),
            ),
            old(self).axis_is_vertical ==> final(self).width_rules == old(self).width_rules,
            old(self).axis_is_vertical ==> final(self).rules == SizeRules::spec_parallel_max(
                old(self).rules,
                old(child).rules_spec(old(self).spec_child_axis(child_info as int)),
            ),
    {
        if self.axis.has_fixed && self.axis_is_vertical {
            self.axis.other_axis = self.widths[child_info];
        }
        let child_rules = child.size_rules(self.axis);
        if !self.axis_is_vertical {
            let combined = self.rules.sequential_sum(child_rules);
            self.width_rules.set(child_info, child_rules);
            self.rules = combined;
        } else {
            self.rules = self.rules.parallel_max(child_rules);
        }
    }

    /// Complete the pass: on the primary axis the aggregate rule is written
    /// into the trailing storage slot, and the aggregate plus the storage are
    /// handed back to the caller.
    pub fn finish(self) -> (r: (SizeRules, Vec<SizeRules>))
        requires
            self.wf(),
        ensures
            r.0 == self.rules,
            r.1.len() == self.width_rules.len(),
            !self.axis_is_vertical ==> r.1@ == self.width_rules@.update(
                self.width_rules.len() - 1,
                self.rules,
            ),
            self.axis_is_vertical ==> r.1 == self.width_rules,
    {
        let rules = self.rules;
        let mut width_rules = self.width_rules;
        let cols = width_rules.len() - 1;
        if !self.axis_is_vertical {
            width_rules.set(cols, rules);
        }
        (rules, width_rules)
    }
}

} // verus!
