//! The per-call context of one measurement pass.

use vstd::prelude::*;

verus! {

/// Which axis a widget is being measured on and, on a second pass, the
/// already-resolved extent of the other axis.
///
/// Measurement is two-pass and one-directional: the horizontal pass carries
/// no fixed other-axis value, while the vertical pass may carry the resolved
/// horizontal extent so that wrapped content can report a height consistent
/// with the width it will actually receive.
#[derive(Clone, Copy, Debug, PartialEq, Eq, Structural)]
pub struct AxisInfo {
    /// The measured axis runs vertically.
    pub vertical: bool,
    /// The other axis's extent has already been resolved.
    pub has_fixed: bool,
    /// The resolved extent of the other axis; meaningful only when
    /// `has_fixed` is set.
    pub other_axis: u32,
}

impl AxisInfo {
    /// A first-pass context for the given axis, with the other axis still
    /// free.
    pub fn new(vertical: bool) -> (r: AxisInfo)
        ensures
            r == (AxisInfo { vertical, has_fixed: false, other_axis: 0 }),
    {
        AxisInfo { vertical, has_fixed: false, other_axis: 0 }
    }

    /// A second-pass context for the given axis, with the other axis pinned
    /// to `other_axis`.
    pub fn new_fixed(vertical: bool, other_axis: u32) -> (r: AxisInfo)
        ensures
            r == (AxisInfo { vertical, has_fixed: true, other_axis }),
    {
        AxisInfo { vertical, has_fixed: true, other_axis }
    }

    /// The measured axis runs vertically.
    pub fn is_vertical(&self) -> (r: bool)
        ensures
            r == self.vertical,
    {
        self.vertical
    }

    /// The measured axis runs horizontally.
    pub fn is_horizontal(&self) -> (r: bool)
        ensures
            r == !self.vertical,
    {
        !self.vertical
    }

    /// What [`AxisInfo::size_other_if_fixed`] returns: the fixed extent of
    /// the other axis, provided the measured axis runs in the asked-about
    /// direction.
    pub open spec fn spec_size_other_if_fixed(self, vertical: bool) -> Option<u32> {
        if self.has_fixed && self.vertical == vertical {
            Some(self.other_axis)
        } else {
            None
        }
    }

    /// The fixed extent of the other axis, when measuring along the given
    /// direction and a fixed extent is available; `None` otherwise.
    pub fn size_other_if_fixed(&self, vertical: bool) -> (r: Option<u32>)
        ensures
            r == self.spec_size_other_if_fixed(vertical),
    {
        if self.has_fixed && self.vertical == vertical {
            Some(self.other_axis)
        } else {
            None
        }
    }
}

} // verus!
