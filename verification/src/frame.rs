//! A frame around a single child widget.

use vstd::prelude::*;
use crate::axis::AxisInfo;
use crate::geom::{clamp_add_i32, sat_sub32, Rect, Size};
use crate::layout::Layout;
use crate::size_rules::{sat_add32, Margins, SizeRules};

verus! {

/// A frame drawn around one child widget: sizing-wise, the child's rules
/// surrounded by a fixed rule of twice the theme's frame thickness, with the
/// child's margins folded inside the frame.
pub struct Frame<W> {
    /// The framed widget.
    pub inner: W,
    /// Offset of the child's top-left corner from the frame's: thickness
    /// plus the child's leading margins, per axis.
    pub m0: Size,
    /// Matching offset of the child's bottom-right corner.
    pub m1: Size,
    /// The rectangle last assigned to the whole frame.
    pub rect: Rect,
}

impl<W: Layout> Frame<W> {
    /// Wrap `inner` in a frame. The offsets start at zero and are filled in
    /// by measurement.
    pub fn new(inner: W) -> (f: Frame<W>)
        ensures
            f.inner == inner,
            f.m0 == Size(0u32, 0u32),
            f.m1 == Size(0u32, 0u32),
            f.rect == (Rect { pos: crate::geom::Coord(0i32, 0i32), size: Size(0u32, 0u32) }),
    {
        Frame { inner, m0: Size::zero(), m1: Size::zero(), rect: Rect::zero() }
    }

    /// The rule a frame of thickness `frame_size` reports around this
    /// child's rules: the child surrounded by a fixed rule covering the
    /// thickness once per side, the frame owning the boundary.
    pub open spec fn spec_size_rules(self, frame_size: Size, axis: AxisInfo) -> SizeRules {
        let doubled = Size(
            sat_add32(frame_size.0 as int, frame_size.0 as int) as u32,
            sat_add32(frame_size.1 as int, frame_size.1 as int) as u32,
        );
        SizeRules::spec_surrounded_by(
            self.inner.rules_spec(axis),
            SizeRules::spec_extract_fixed(
                axis.vertical,
                doubled,
                Margins { left: 0u16, right: 0u16, top: 0u16, bottom: 0u16 },
            ),
            true,
        )
    }

    /// Measure the frame on one axis: measure the child, record on the
    /// measured axis how far the child sits from the frame's edges
    /// (thickness plus the child's own margins), and report the child's
    /// rules surrounded by the frame's fixed extent.
    pub fn size_rules(&mut self, frame_size: Size, axis: AxisInfo) -> (r: SizeRules)
        requires
            old(self).inner.wf(),
        ensures
            final(self).inner.wf(),
            forall|a: AxisInfo|
                final(self).inner.rules_spec(a) == old(self).inner.rules_spec(a),
            r == old(self).spec_size_rules(frame_size, axis),
            r.valid(),
            final(self).rect == old(self).rect,
            ({
                let m = old(self).inner.rules_spec(axis).margins;
                if !axis.vertical {
                    final(self).m0 == Size(
                        sat_add32(frame_size.0 as int, m.0 as int) as u32,
                        old(self).m0.1,
                    ) && final(self).m1 == Size(
                        sat_add32(frame_size.0 as int, m.1 as int) as u32,
                        old(self).m1.1,
                    )
                } else {
                    final(self).m0 == Size(
                        old(self).m0.0,
                        sat_add32(frame_size.1 as int, m.0 as int) as u32,
                    ) && final(self).m1 == Size(
                        old(self).m1.0,
                        sat_add32(frame_size.1 as int, m.1 as int) as u32,
                    )
                }
            }),
    {
        let size = frame_size;
        let frame_rules = SizeRules::extract_fixed(
            axis.is_vertical(),
            size.saturating_add(size),
            Margins::zero(),
        );

        let inner_rules = self.inner.size_rules(axis);
        let m = inner_rules.margins;

        if axis.is_horizontal() {
            self.m0 = Size(size.0.saturating_add(m.0 as u32), self.m0.1);
            self.m1 = Size(size.0.saturating_add(m.1 as u32), self.m1.1);
        } else {
            self.m0 = Size(self.m0.0, size.1.saturating_add(m.0 as u32));
            self.m1 = Size(self.m1.0, size.1.saturating_add(m.1 as u32));
        }

        inner_rules.surrounded_by(frame_rules, true)
    }

    /// The rectangle the child receives inside an assigned rectangle: moved
    /// in by the leading offsets and shrunk by both, clamping instead of
    /// wrapping when the space runs out.
    pub open spec fn spec_inner_rect(self, rect: Rect) -> Rect {
        Rect {
            pos: crate::geom::Coord(
                clamp_add_i32(rect.pos.0 as int, self.m0.0 as int) as i32,
                clamp_add_i32(rect.pos.1 as int, self.m0.1 as int) as i32,
            ),
            size: Size(
                sat_sub32(
                    rect.size.0 as int,
                    sat_add32(self.m0.0 as int, self.m1.0 as int),
                ) as u32,
                sat_sub32(
                    rect.size.1 as int,
                    sat_add32(self.m0.1 as int, self.m1.1 as int),
                ) as u32,
            ),
        }
    }

    /// Accept an assigned rectangle: keep it, and pass the child what is
    /// left inside the frame and the margins — its corner moved in by the
    /// leading offsets, its extent shrunk by both (see
    /// [`Frame::spec_inner_rect`]).
    pub fn set_rect(&mut self, rect: Rect)
        requires
            old(self).inner.wf(),
        ensures
            final(self).inner.wf(),
            forall|a: AxisInfo|
                final(self).inner.rules_spec(a) == old(self).inner.rules_spec(a),
            final(self).rect == rect,
            final(self).m0 == old(self).m0,
            final(self).m1 == old(self).m1,
            final(self).inner.assigned_rect() == old(self).spec_inner_rect(rect),
    {
        self.rect = rect;
        let pos = rect.pos.saturating_add_size(self.m0);
        let size = rect.size.saturating_sub(self.m0.saturating_add(self.m1));
        self.inner.set_rect(Rect { pos, size });
    }
}

} // verus!
