use vstd::prelude::*;

use crate::input::InputBehaviour;
use crate::layout::{Align, Axis, LayoutConstraints, SizingBehaviour};

verus! {

/// The size policies defaulted to `h` and `v`.
pub open spec fn with_policies(c: LayoutConstraints, h: SizingBehaviour, v: SizingBehaviour) -> LayoutConstraints {
    LayoutConstraints {
        horizontal_size_policy: c.horizontal_size_policy.with_default(h),
        vertical_size_policy: c.vertical_size_policy.with_default(v),
        ..c
    }
}

/// Margin and padding edges defaulted to `margin` and `padding`.
pub open spec fn with_box_defaults(c: LayoutConstraints, margin: u32, padding: u32) -> LayoutConstraints {
    LayoutConstraints {
        margin: crate::layout::BoxLengths {
            left: c.margin.left.with_default(margin),
            right: c.margin.right.with_default(margin),
            top: c.margin.top.with_default(margin),
            bottom: c.margin.bottom.with_default(margin),
        },
        padding: crate::layout::BoxLengths {
            left: c.padding.left.with_default(padding),
            right: c.padding.right.with_default(padding),
            top: c.padding.top.with_default(padding),
            bottom: c.padding.bottom.with_default(padding),
        },
        ..c
    }
}

fn set_box_defaults(c: &mut LayoutConstraints, margin: u32, padding: u32)
    ensures
        *final(c) == with_box_defaults(*old(c), margin, padding),
{
    c.margin.set_default(margin);
    c.padding.set_default(padding);
}

/// A container laying out its children along one axis.
#[derive(Debug, Clone, Copy, PartialEq, Eq, Structural)]
pub struct BoxLayout {
    pub axis: Axis,
}

impl BoxLayout {
    pub fn horizontal() -> (r: Self)
        ensures
            r.axis == Axis::Horizontal,
    {
        BoxLayout { axis: Axis::Horizontal }
    }

    pub fn vertical() -> (r: Self)
        ensures
            r.axis == Axis::Vertical,
    {
        BoxLayout { axis: Axis::Vertical }
    }

    /// Lays children out along its axis, with padding 8, fixed on both axes.
    pub fn configure(&self, c: &mut LayoutConstraints)
        ensures
            *final(c) == with_policies(
                LayoutConstraints {
                    layout_axis: old(c).layout_axis.with_default(self.axis),
                    padding: with_box_defaults(*old(c), 0, 8).padding,
                    ..*old(c)
                },
                SizingBehaviour::Fixed,
                SizingBehaviour::Fixed,
            ),
    {
        c.layout_axis.set_default(self.axis);
        c.padding.set_default(8);
        c.horizontal_size_policy.set_default(SizingBehaviour::Fixed);
        c.vertical_size_policy.set_default(SizingBehaviour::Fixed);
    }
}

/// Empty space that absorbs the slack along its axis.
#[derive(Debug, Clone, Copy, PartialEq, Eq, Structural)]
pub struct Spring(pub Axis);

impl Spring {
    /// Flexible along its axis, fixed across, centred, and transparent to input.
    pub fn configure(&self, c: &mut LayoutConstraints, input: &mut InputBehaviour)
        ensures
            *final(c) == spring_defaults(*old(c), self.0),
            *final(input) == (InputBehaviour { transparent: true, ..*old(input) }),
    {
        match self.0 {
            Axis::Horizontal => {
                c.horizontal_size_policy.set_default(SizingBehaviour::Flexible);
                c.vertical_size_policy.set_default(SizingBehaviour::Fixed);
            },
            Axis::Vertical => {
                c.horizontal_size_policy.set_default(SizingBehaviour::Fixed);
                c.vertical_size_policy.set_default(SizingBehaviour::Flexible);
            },
        }
        c.self_alignment.set_default(Align::Middle);
        input.transparent = true;
    }
}

/// Flexible along `axis`, fixed across it, centred in the parent's cross axis.
pub open spec fn spring_defaults(c: LayoutConstraints, axis: Axis) -> LayoutConstraints {
    let p = with_policies(
        c,
        if axis == Axis::Horizontal { SizingBehaviour::Flexible } else { SizingBehaviour::Fixed },
        if axis == Axis::Vertical { SizingBehaviour::Flexible } else { SizingBehaviour::Fixed },
    );
    LayoutConstraints { self_alignment: p.self_alignment.with_default(Align::Middle), ..p }
}

/// A clickable container.
#[derive(Debug, Clone, Copy, PartialEq, Eq, Structural)]
pub struct Button {}

impl Button {
    /// Fixed, centring its content, padding 8, margin 4, opaque to input.
    pub fn configure(&self, c: &mut LayoutConstraints, input: &mut InputBehaviour)
        ensures
            *final(c) == with_box_defaults(
                LayoutConstraints {
                    content_alignment: old(c).content_alignment.with_default(Align::Middle),
                    ..with_policies(*old(c), SizingBehaviour::Fixed, SizingBehaviour::Fixed)
                },
                4,
                8,
            ),
            *final(input) == (InputBehaviour { opaque: true, ..*old(input) }),
    {
        c.horizontal_size_policy.set_default(SizingBehaviour::Fixed);
        c.vertical_size_policy.set_default(SizingBehaviour::Fixed);
        c.content_alignment.set_default(Align::Middle);
        set_box_defaults(c, 4, 8);
        input.opaque = true;
    }
}

/// A check box showing `value`.
#[derive(Debug, Clone, Copy, PartialEq, Eq, Structural)]
pub struct Checkbox {
    pub value: bool,
}

impl Checkbox {
    /// Fixed 18 by 18, padding 4, margin 4, opaque to input.
    pub fn configure(&self, c: &mut LayoutConstraints, input: &mut InputBehaviour)
        ensures
            *final(c) == with_box_defaults(
                LayoutConstraints {
                    preferred_width: old(c).preferred_width.with_default(18),
                    preferred_height: old(c).preferred_height.with_default(18),
                    ..with_policies(*old(c), SizingBehaviour::Fixed, SizingBehaviour::Fixed)
                },
                4,
                4,
            ),
            *final(input) == (InputBehaviour { opaque: true, ..*old(input) }),
    {
        c.horizontal_size_policy.set_default(SizingBehaviour::Fixed);
        c.vertical_size_policy.set_default(SizingBehaviour::Fixed);
        c.preferred_width.set_default(18);
        c.preferred_height.set_default(18);
        set_box_defaults(c, 4, 4);
        input.opaque = true;
    }
}

/// An on/off switch showing `value`.
#[derive(Debug, Clone, Copy, PartialEq, Eq, Structural)]
pub struct Toggle {
    pub value: bool,
}

impl Toggle {
    /// Fixed 40 by 24, padding 2, margin 4, opaque to input.
    pub fn configure(&self, c: &mut LayoutConstraints, input: &mut InputBehaviour)
        ensures
            *final(c) == with_box_defaults(
                LayoutConstraints {
                    preferred_width: old(c).preferred_width.with_default(40),
                    preferred_height: old(c).preferred_height.with_default(24),
                    ..with_policies(*old(c), SizingBehaviour::Fixed, SizingBehaviour::Fixed)
                },
                4,
                2,
            ),
            *final(input) == (InputBehaviour { opaque: true, ..*old(input) }),
    {
        c.horizontal_size_policy.set_default(SizingBehaviour::Fixed);
        c.vertical_size_policy.set_default(SizingBehaviour::Fixed);
        c.preferred_width.set_default(40);
        c.preferred_height.set_default(24);
        set_box_defaults(c, 4, 2);
        input.opaque = true;
    }
}

/// A run of text; its size comes from the text collaborator's measurement.
#[derive(Debug, Clone, Copy, PartialEq, Eq, Structural)]
pub struct Text {}

impl Text {
    /// Minimum size from the measured text (`width` by `height`) plus padding
    /// where not set explicitly, fixed on both axes, transparent to input.
    pub fn configure(&self, c: &mut LayoutConstraints, input: &mut InputBehaviour, width: u32, height: u32)
        ensures
            *final(c) == with_policies(
                LayoutConstraints {
                    min_width: old(c).min_width.with_default(
                        crate::layout::saturate(width + old(c).padding.spec_axis_sum(Axis::Horizontal)),
                    ),
                    min_height: old(c).min_height.with_default(
                        crate::layout::saturate(height + old(c).padding.spec_axis_sum(Axis::Vertical)),
                    ),
                    ..*old(c)
                },
                SizingBehaviour::Fixed,
                SizingBehaviour::Fixed,
            ),
            *final(input) == (InputBehaviour { transparent: true, ..*old(input) }),
    {
        let w = width as i64 + c.padding.axis_sum(Axis::Horizontal);
        let h = height as i64 + c.padding.axis_sum(Axis::Vertical);
        c.min_width.set_default(if w >= crate::layout::UNBOUNDED as i64 { crate::layout::UNBOUNDED } else { w as u32 });
        c.min_height.set_default(if h >= crate::layout::UNBOUNDED as i64 { crate::layout::UNBOUNDED } else { h as u32 });
        c.horizontal_size_policy.set_default(SizingBehaviour::Fixed);
        c.vertical_size_policy.set_default(SizingBehaviour::Fixed);
        input.transparent = true;
    }
}

/// Margin 4, padding 8, flexible horizontally.
pub open spec fn dummy_defaults(c: LayoutConstraints) -> LayoutConstraints {
    let b = with_box_defaults(c, 4, 8);
    LayoutConstraints { horizontal_size_policy: b.horizontal_size_policy.with_default(SizingBehaviour::Flexible), ..b }
}

/// A placeholder widget drawn as a crossed box.
#[derive(Debug, Clone, Copy, PartialEq, Eq, Structural)]
pub struct Dummy {}

impl Dummy {
    /// Margin 4, padding 8, flexible horizontally.
    pub fn configure(&self, c: &mut LayoutConstraints)
        ensures
            *final(c) == dummy_defaults(*old(c)),
    {
        set_box_defaults(c, 4, 8);
        c.horizontal_size_policy.set_default(SizingBehaviour::Flexible);
    }
}

} // verus!
