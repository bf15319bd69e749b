//! The nine fixed anchors and the arithmetic that places a target of a
//! given size on a canvas along one axis.

use vstd::prelude::*;

verus! {

/// Where a target sits along one axis of the canvas.
#[derive(Clone, Copy, Debug, PartialEq, Eq, Structural)]
pub enum Align {
    /// Against the left or top edge.
    Start,
    /// Centred.
    Middle,
    /// Against the right or bottom edge.
    End,
}

/// A named position on the canvas.
#[derive(Clone, Copy, Debug, PartialEq, Eq, Structural)]
pub enum Anchor {
    Center,
    TopLeft,
    TopCenter,
    TopRight,
    MiddleLeft,
    MiddleRight,
    BottomLeft,
    BottomCenter,
    BottomRight,
}

impl Align {
    /// The alignment mirrored about the centre of the canvas.
    pub open spec fn opposite(self) -> Align {
        match self {
            Align::Start => Align::End,
            Align::Middle => Align::Middle,
            Align::End => Align::Start,
        }
    }

    /// Whether a target of extent `target` lies within a canvas of extent
    /// `canvas` when aligned so. The margin separates the target from the
    /// edge it is aligned against; a centred target has none.
    pub open spec fn fits(self, canvas: int, target: int, margin: int) -> bool {
        match self {
            Align::Middle => target <= canvas,
            _ => target + margin <= canvas,
        }
    }

    /// The coordinate at which the target starts.
    pub open spec fn offset(self, canvas: int, target: int, margin: int) -> int {
        match self {
            Align::Start => margin,
            Align::Middle => (canvas - target) / 2,
            Align::End => canvas - target - margin,
        }
    }

    /// The coordinate at which the target starts, or `None` where it does
    /// not fit. A target that is placed ends within the canvas.
    pub fn place(self, canvas: u32, target: u32, margin: u32) -> (r: Option<u32>)
        ensures
            r == if self.fits(canvas as int, target as int, margin as int) {
                Some(self.offset(canvas as int, target as int, margin as int) as u32)
            } else {
                None
            },
            r matches Some(x) ==> x + target <= canvas,
    {
        match self {
            Align::Start => {
                if target as u64 + margin as u64 <= canvas as u64 {
                    Some(margin)
                } else {
                    None
                }
            },
            Align::Middle => {
                if target <= canvas {
                    Some((canvas - target) / 2)
                } else {
                    None
                }
            },
            Align::End => {
                if target as u64 + margin as u64 <= canvas as u64 {
                    Some(canvas - target - margin)
                } else {
                    None
                }
            },
        }
    }
}

impl Anchor {
    /// The alignment along the horizontal axis.
    pub open spec fn horizontal(self) -> Align {
        match self {
            Anchor::TopLeft | Anchor::MiddleLeft | Anchor::BottomLeft => Align::Start,
            Anchor::Center | Anchor::TopCenter | Anchor::BottomCenter => Align::Middle,
            Anchor::TopRight | Anchor::MiddleRight | Anchor::BottomRight => Align::End,
        }
    }

    /// The alignment along the vertical axis.
    pub open spec fn vertical(self) -> Align {
        match self {
            Anchor::TopLeft | Anchor::TopCenter | Anchor::TopRight => Align::Start,
            Anchor::Center | Anchor::MiddleLeft | Anchor::MiddleRight => Align::Middle,
            Anchor::BottomLeft | Anchor::BottomCenter | Anchor::BottomRight => Align::End,
        }
    }

    /// The anchor mirrored about the centre of the canvas.
    pub open spec fn opposite(self) -> Anchor {
        match self {
            Anchor::Center => Anchor::Center,
            Anchor::TopLeft => Anchor::BottomRight,
            Anchor::TopCenter => Anchor::BottomCenter,
            Anchor::TopRight => Anchor::BottomLeft,
            Anchor::MiddleLeft => Anchor::MiddleRight,
            Anchor::MiddleRight => Anchor::MiddleLeft,
            Anchor::BottomLeft => Anchor::TopRight,
            Anchor::BottomCenter => Anchor::TopCenter,
            Anchor::BottomRight => Anchor::TopLeft,
        }
    }

    /// The horizontal and the vertical alignment.
    pub fn axes(self) -> (r: (Align, Align))
        ensures
            r == (self.horizontal(), self.vertical()),
    {
        match self {
            Anchor::Center => (Align::Middle, Align::Middle),
            Anchor::TopLeft => (Align::Start, Align::Start),
            Anchor::TopCenter => (Align::Middle, Align::Start),
            Anchor::TopRight => (Align::End, Align::Start),
            Anchor::MiddleLeft => (Align::Start, Align::Middle),
            Anchor::MiddleRight => (Align::End, Align::Middle),
            Anchor::BottomLeft => (Align::Start, Align::End),
            Anchor::BottomCenter => (Align::Middle, Align::End),
            Anchor::BottomRight => (Align::End, Align::End),
        }
    }
}

/// Mirroring an anchor mirrors its alignment on both axes.
pub proof fn lemma_opposite_anchor(anchor: Anchor)
    ensures
        anchor.opposite().horizontal() == anchor.horizontal().opposite(),
        anchor.opposite().vertical() == anchor.vertical().opposite(),
        anchor.opposite().opposite() == anchor,
{
}

/// A target that fits under one alignment fits under the opposite one, and
/// the two placements mirror each other about the centre of the canvas: the
/// gap before the one equals the gap after the other. For centred targets
/// the two gaps differ by at most one pixel of rounding.
pub proof fn lemma_opposite_offsets_mirror(align: Align, canvas: int, target: int, margin: int)
    requires
        0 <= target,
        0 <= margin,
        align.fits(canvas, target, margin),
    ensures
        align.opposite().fits(canvas, target, margin),
        0 <= align.offset(canvas, target, margin),
        align.offset(canvas, target, margin) + target <= canvas,
        canvas - 1 <= align.offset(canvas, target, margin) + align.opposite().offset(
            canvas,
            target,
            margin,
        ) + target <= canvas,
        align != Align::Middle ==> align.offset(canvas, target, margin) + align.opposite().offset(
            canvas,
            target,
            margin,
        ) + target == canvas,
{
}

} // verus!
