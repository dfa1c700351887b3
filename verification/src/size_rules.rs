//! Size rules for one axis of one widget, and their composition algebra.

use vstd::prelude::*;

verus! {

/// Policies governing how eagerly a widget absorbs surplus space beyond its
/// ideal size.
///
/// The variants form a priority ordering, lowest first: when surplus space is
/// distributed, higher-priority classes are served before lower ones.
#[derive(Clone, Copy, Debug, PartialEq, Eq, Structural)]
pub enum StretchPolicy {
    /// Do not stretch beyond the ideal size.
    Fixed,
    /// Stretch reluctantly: absorb surplus only after higher classes.
    LowUtility,
    /// Stretch willingly, including beyond the ideal size.
    HighUtility,
    /// Absorb as much space as possible.
    Filler,
}

impl StretchPolicy {
    /// Numeric priority of the class; higher values are served first.
    pub open spec fn rank(self) -> int {
        match self {
            StretchPolicy::Fixed => 0,
            StretchPolicy::LowUtility => 1,
            StretchPolicy::HighUtility => 2,
            StretchPolicy::Filler => 3,
        }
    }

    /// Whether this class keeps absorbing space once its ideal size is reached.
    pub open spec fn grows_beyond_ideal(self) -> bool {
        self.rank() >= 2
    }

    /// The higher-priority of two policies.
    pub open spec fn spec_priority_max(self, other: Self) -> Self {
        if self.rank() >= other.rank() {
            self
        } else {
            other
        }
    }

    /// Numeric priority of the class; higher values are served first.
    pub fn priority(self) -> (r: u8)
        ensures
            r as int == self.rank(),
    {
        match self {
            StretchPolicy::Fixed => 0,
            StretchPolicy::LowUtility => 1,
            StretchPolicy::HighUtility => 2,
            StretchPolicy::Filler => 3,
        }
    }

    /// The higher-priority of two policies.
    pub fn priority_max(self, other: Self) -> (r: Self)
        ensures
            r == self.spec_priority_max(other),
    {
        if self.priority() >= other.priority() {
            self
        } else {
            other
        }
    }
}

/// `x + y` on `u32`, clamped to `u32::MAX` instead of wrapping.
pub open spec fn sat_add32(x: int, y: int) -> int {
    if x + y > u32::MAX {
        u32::MAX as int
    } else {
        x + y
    }
}

/// The larger of two integers.
pub open spec fn int_max(x: int, y: int) -> int {
    if x >= y {
        x
    } else {
        y
    }
}

/// The smaller of two integers.
pub open spec fn int_min(x: int, y: int) -> int {
    if x <= y {
        x
    } else {
        y
    }
}

/// Margins on both axes: space reserved around a widget, not counted in its
/// own extent.
#[derive(Clone, Copy, Debug, PartialEq, Eq, Structural)]
pub struct Margins {
    /// Space reserved left of the widget.
    pub left: u16,
    /// Space reserved right of the widget.
    pub right: u16,
    /// Space reserved above the widget.
    pub top: u16,
    /// Space reserved below the widget.
    pub bottom: u16,
}

impl Margins {
    /// No reserved space on any side.
    pub fn zero() -> (r: Margins)
        ensures
            r == (Margins { left: 0u16, right: 0u16, top: 0u16, bottom: 0u16 }),
    {
        Margins { left: 0, right: 0, top: 0, bottom: 0 }
    }

    /// The same reserved space on every side.
    pub fn uniform(m: u16) -> (r: Margins)
        ensures
            r == (Margins { left: m, right: m, top: m, bottom: m }),
    {
        Margins { left: m, right: m, top: m, bottom: m }
    }

    /// The before/after pair along one axis.
    pub open spec fn spec_axis_pair(self, vertical: bool) -> (u16, u16) {
        if vertical {
            (self.top, self.bottom)
        } else {
            (self.left, self.right)
        }
    }

    /// The before/after pair along one axis.
    pub fn axis_pair(self, vertical: bool) -> (r: (u16, u16))
        ensures
            r == self.spec_axis_pair(vertical),
    {
        if vertical {
            (self.top, self.bottom)
        } else {
            (self.left, self.right)
        }
    }
}

/// One axis's sizing constraint for one widget subtree.
///
/// `margins` is space reserved before and after the widget; it is not counted
/// in `min` or `ideal`. A value is well-formed when `min <= ideal`
/// ([`SizeRules::valid`]); every constructor establishes this and every
/// composition operation preserves it.
#[derive(Clone, Copy, Debug)]
pub struct SizeRules {
    /// Minimum acceptable extent; the solver never violates it.
    pub min: u32,
    /// Preferred extent when space allows; at least `min`.
    pub ideal: u32,
    /// Space reserved before / after the widget on this axis.
    pub margins: (u16, u16),
    /// How eagerly surplus space beyond `ideal` is absorbed.
    pub stretch: StretchPolicy,
}

impl PartialEq for SizeRules {
    fn eq(&self, other: &SizeRules) -> (r: bool) {
        self.min == other.min && self.ideal == other.ideal && self.margins.0 == other.margins.0
            && self.margins.1 == other.margins.1 && self.stretch == other.stretch
    }
}

impl vstd::std_specs::cmp::PartialEqSpecImpl for SizeRules {
    open spec fn obeys_eq_spec() -> bool {
        true
    }

    open spec fn eq_spec(&self, other: &SizeRules) -> bool {
        self.min == other.min && self.ideal == other.ideal && self.margins == other.margins
            && self.stretch == other.stretch
    }
}

impl Eq for SizeRules {

}

impl SizeRules {
    /// Well-formedness: the preferred extent is never below the minimum.
    pub open spec fn valid(self) -> bool {
        self.min <= self.ideal
    }

    /// The rule that an empty collection of children composes to.
    pub open spec fn spec_empty() -> SizeRules {
        SizeRules { min: 0, ideal: 0, margins: (0, 0), stretch: StretchPolicy::Fixed }
    }

    /// The identity of both composition operations: no size, no margin, no
    /// stretch.
    pub fn empty() -> (r: SizeRules)
        ensures
            r == SizeRules::spec_empty(),
            r.valid(),
    {
        SizeRules { min: 0, ideal: 0, margins: (0, 0), stretch: StretchPolicy::Fixed }
    }

    /// Construct a rule from its parts.
    ///
    /// Callers must supply `min <= ideal`; anything else is a programming
    /// error.
    pub fn new(min: u32, ideal: u32, margins: (u16, u16), stretch: StretchPolicy) -> (r:
        SizeRules)
        requires
            min <= ideal,
        ensures
            r == (SizeRules { min, ideal, margins, stretch }),
            r.valid(),
    {
        SizeRules { min, ideal, margins, stretch }
    }

    /// The composition of two rules for children laid out one after another
    /// along the measured axis: extents add (saturating), the outer margins
    /// are kept, and the stretch policies take their maximum priority.
    pub open spec fn spec_sequential_sum(a: SizeRules, b: SizeRules) -> SizeRules {
        SizeRules {
            min: sat_add32(a.min as int, b.min as int) as u32,
            ideal: sat_add32(a.ideal as int, b.ideal as int) as u32,
            margins: (a.margins.0, b.margins.1),
            stretch: a.stretch.spec_priority_max(b.stretch),
        }
    }

    /// Compose `self` before `b` along the measured axis.
    ///
    /// The touching margins (`self`'s trailing, `b`'s leading) overlap rather
    /// than stack; [`SizeRules::merged_margin`] gives the width of the shared
    /// gap. The composed rule keeps only the pair's outer margins.
    pub fn sequential_sum(self, b: SizeRules) -> (r: SizeRules)
        requires
            self.valid(),
            b.valid(),
        ensures
            r == SizeRules::spec_sequential_sum(self, b),
            r.valid(),
    {
        SizeRules {
            min: self.min.saturating_add(b.min),
            ideal: self.ideal.saturating_add(b.ideal),
            margins: (self.margins.0, b.margins.1),
            stretch: self.stretch.priority_max(b.stretch),
        }
    }

    /// The gap reserved between two sequentially composed neighbours: the
    /// touching margins overlap, so the larger of the two wins.
    pub fn merged_margin(self, b: SizeRules) -> (m: u16)
        ensures
            m as int == int_max(self.margins.1 as int, b.margins.0 as int),
    {
        if self.margins.1 >= b.margins.0 {
            self.margins.1
        } else {
            b.margins.0
        }
    }

    /// The composition of two rules competing for the same extent (the cross
    /// axis of a row): componentwise maximum throughout.
    pub open spec fn spec_parallel_max(a: SizeRules, b: SizeRules) -> SizeRules {
        SizeRules {
            min: int_max(a.min as int, b.min as int) as u32,
            ideal: int_max(a.ideal as int, b.ideal as int) as u32,
            margins: (
                int_max(a.margins.0 as int, b.margins.0 as int) as u16,
                int_max(a.margins.1 as int, b.margins.1 as int) as u16,
            ),
            stretch: a.stretch.spec_priority_max(b.stretch),
        }
    }

    /// Compose `self` with `b` when both span the same extent.
    pub fn parallel_max(self, b: SizeRules) -> (r: SizeRules)
        requires
            self.valid(),
            b.valid(),
        ensures
            r == SizeRules::spec_parallel_max(self, b),
            r.valid(),
    {
        SizeRules {
            min: if self.min >= b.min {
                self.min
            } else {
                b.min
            },
            ideal: if self.ideal >= b.ideal {
                self.ideal
            } else {
                b.ideal
            },
            margins: (
                if self.margins.0 >= b.margins.0 {
                    self.margins.0
                } else {
                    b.margins.0
                },
                if self.margins.1 >= b.margins.1 {
                    self.margins.1
                } else {
                    b.margins.1
                },
            ),
            stretch: self.stretch.priority_max(b.stretch),
        }
    }
}

impl SizeRules {
    /// What [`SizeRules::extract_fixed`] builds: a rule pinned to `size`'s
    /// extent along the chosen axis, with that axis's margins and no
    /// stretch.
    pub open spec fn spec_extract_fixed(vertical: bool, size: crate::geom::Size, margins: Margins)
        -> SizeRules {
        SizeRules {
            min: if vertical {
                size.1
            } else {
                size.0
            },
            ideal: if vertical {
                size.1
            } else {
                size.0
            },
            margins: margins.spec_axis_pair(vertical),
            stretch: StretchPolicy::Fixed,
        }
    }

    /// A rule for a fixed-size decoration: minimum and ideal both equal the
    /// given size along the relevant axis, and nothing stretches.
    pub fn extract_fixed(vertical: bool, size: crate::geom::Size, margins: Margins) -> (r:
        SizeRules)
        ensures
            r == SizeRules::spec_extract_fixed(vertical, size, margins),
            r.valid(),
    {
        let extent = if vertical {
            size.1
        } else {
            size.0
        };
        SizeRules {
            min: extent,
            ideal: extent,
            margins: margins.axis_pair(vertical),
            stretch: StretchPolicy::Fixed,
        }
    }

    /// What [`SizeRules::surrounded_by`] builds. When the frame owns the
    /// boundary (`touches_edge`), the inner widget's margins move inside the
    /// frame — they are added to the extents — and the frame's own margins
    /// replace them; otherwise the extents merely add and the margins merge
    /// componentwise.
    pub open spec fn spec_surrounded_by(inner: SizeRules, frame: SizeRules, touches_edge: bool)
        -> SizeRules {
        if touches_edge {
            let inner_m = inner.margins.0 + inner.margins.1;
            SizeRules {
                min: sat_add32(sat_add32(inner.min as int, frame.min as int), inner_m) as u32,
                ideal: sat_add32(sat_add32(inner.ideal as int, frame.ideal as int), inner_m)
                    as u32,
                margins: frame.margins,
                stretch: inner.stretch.spec_priority_max(frame.stretch),
            }
        } else {
            SizeRules {
                min: sat_add32(inner.min as int, frame.min as int) as u32,
                ideal: sat_add32(inner.ideal as int, frame.ideal as int) as u32,
                margins: (
                    int_max(inner.margins.0 as int, frame.margins.0 as int) as u16,
                    int_max(inner.margins.1 as int, frame.margins.1 as int) as u16,
                ),
                stretch: inner.stretch.spec_priority_max(frame.stretch),
            }
        }
    }

    /// Surround `self` with a frame's fixed rule (built so that its extent
    /// already covers both sides, once per side).
    pub fn surrounded_by(self, frame: SizeRules, touches_edge: bool) -> (r: SizeRules)
        requires
            self.valid(),
            frame.valid(),
        ensures
            r == SizeRules::spec_surrounded_by(self, frame, touches_edge),
            r.valid(),
    {
        if touches_edge {
            let inner_m: u32 = self.margins.0 as u32 + self.margins.1 as u32;
            SizeRules {
                min: self.min.saturating_add(frame.min).saturating_add(inner_m),
                ideal: self.ideal.saturating_add(frame.ideal).saturating_add(inner_m),
                margins: frame.margins,
                stretch: self.stretch.priority_max(frame.stretch),
            }
        } else {
            SizeRules {
                min: self.min.saturating_add(frame.min),
                ideal: self.ideal.saturating_add(frame.ideal),
                margins: (
                    if self.margins.0 >= frame.margins.0 {
                        self.margins.0
                    } else {
                        frame.margins.0
                    },
                    if self.margins.1 >= frame.margins.1 {
                        self.margins.1
                    } else {
                        frame.margins.1
                    },
                ),
                stretch: self.stretch.priority_max(frame.stretch),
            }
        }
    }
}

/// Sequential composition adds minimum and ideal extents exactly whenever the
/// sums fit in `u32` (they saturate otherwise), keeps the pair's outer
/// margins, and takes the higher-priority stretch policy.
pub proof fn lemma_sequential_sum_dimensions(a: SizeRules, b: SizeRules)
    requires
        a.min + b.min <= u32::MAX,
        a.ideal + b.ideal <= u32::MAX,
    ensures
        SizeRules::spec_sequential_sum(a, b).min == a.min + b.min,
        SizeRules::spec_sequential_sum(a, b).ideal == a.ideal + b.ideal,
        SizeRules::spec_sequential_sum(a, b).margins == (a.margins.0, b.margins.1),
        SizeRules::spec_sequential_sum(a, b).stretch == a.stretch.spec_priority_max(b.stretch),
{
}

/// Parallel composition takes componentwise maxima, with no overflow cases.
pub proof fn lemma_parallel_max_dimensions(a: SizeRules, b: SizeRules)
    ensures
        SizeRules::spec_parallel_max(a, b).min == int_max(a.min as int, b.min as int),
        SizeRules::spec_parallel_max(a, b).ideal == int_max(a.ideal as int, b.ideal as int),
{
}

/// Parallel composition does not care about the order of its arguments.
pub proof fn lemma_parallel_max_commutative(a: SizeRules, b: SizeRules)
    ensures
        SizeRules::spec_parallel_max(a, b) == SizeRules::spec_parallel_max(b, a),
{
}

/// Parallel composition does not care how a group of rules is bracketed.
pub proof fn lemma_parallel_max_associative(a: SizeRules, b: SizeRules, c: SizeRules)
    ensures
        SizeRules::spec_parallel_max(SizeRules::spec_parallel_max(a, b), c)
            == SizeRules::spec_parallel_max(a, SizeRules::spec_parallel_max(b, c)),
{
}

/// Sequential composition does not care how a run of children is bracketed,
/// as long as their order is preserved.
pub proof fn lemma_sequential_sum_associative(a: SizeRules, b: SizeRules, c: SizeRules)
    ensures
        SizeRules::spec_sequential_sum(SizeRules::spec_sequential_sum(a, b), c)
            == SizeRules::spec_sequential_sum(a, SizeRules::spec_sequential_sum(b, c)),
{
}

/// Composing with the empty rule changes no extent and no stretch policy:
/// parallel composition is a true identity, while sequential composition
/// keeps everything but the outer margin on the empty side, which the empty
/// rule (margin-less as it is) sets to zero.
pub proof fn lemma_empty_identity(a: SizeRules)
    requires
        a.valid(),
    ensures
        SizeRules::spec_sequential_sum(a, SizeRules::spec_empty())
            == (SizeRules { margins: (a.margins.0, 0), ..a }),
        SizeRules::spec_sequential_sum(SizeRules::spec_empty(), a)
            == (SizeRules { margins: (0, a.margins.1), ..a }),
        SizeRules::spec_parallel_max(a, SizeRules::spec_empty()) == a,
{
}

} // verus!
