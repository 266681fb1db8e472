use vstd::prelude::*;

use crate::widget_config::WidgetParameter;

verus! {

/// Largest coordinate magnitude the solver accepts for an available rectangle.
pub const MAX_COORD: i64 = 0x100_0000_0000;

/// Largest number of siblings the solver lays out in one group.
pub const MAX_CHILDREN: usize = 0x10_0000;

/// The length used for "no upper bound".
pub const UNBOUNDED: u32 = 0xffff_ffff;

/// A layout axis.
#[derive(Debug, Clone, Copy, PartialEq, Eq, Structural)]
pub enum Axis {
    Horizontal,
    Vertical,
}

impl Axis {
    pub open spec fn spec_opposite(self) -> Axis {
        match self {
            Axis::Horizontal => Axis::Vertical,
            Axis::Vertical => Axis::Horizontal,
        }
    }

    /// The perpendicular axis.
    pub fn opposite(&self) -> (r: Axis)
        ensures
            r == self.spec_opposite(),
    {
        match self {
            Axis::Horizontal => Axis::Vertical,
            Axis::Vertical => Axis::Horizontal,
        }
    }
}

/// Alignment in the cross axis of a layout.
#[derive(Debug, Clone, Copy, PartialEq, Eq, Structural)]
pub enum Align {
    Start,
    Middle,
    End,
}

/// Whether a length may leave its preferred value.
#[derive(Debug, Clone, Copy, PartialEq, Eq, Structural)]
pub enum SizingBehaviour {
    /// Min == max == preferred.
    Fixed,
    /// May exceed preferred if there is spare space.
    CanGrow,
    /// May fall below preferred if space is short.
    CanShrink,
    /// Grows and shrinks to fill the space between min and max.
    Flexible,
}

impl SizingBehaviour {
    pub open spec fn spec_can_grow(self) -> bool {
        self is CanGrow || self is Flexible
    }

    pub open spec fn spec_can_shrink(self) -> bool {
        self is CanShrink || self is Flexible
    }

    pub fn can_grow(&self) -> (r: bool)
        ensures
            r == self.spec_can_grow(),
    {
        matches!(self, SizingBehaviour::CanGrow | SizingBehaviour::Flexible)
    }

    pub fn can_shrink(&self) -> (r: bool)
        ensures
            r == self.spec_can_shrink(),
    {
        matches!(self, SizingBehaviour::CanShrink | SizingBehaviour::Flexible)
    }
}

/// A point, or a size, in whole pixels.
#[derive(Debug, Clone, Copy, PartialEq, Eq, Structural)]
pub struct Vec2 {
    pub x: i64,
    pub y: i64,
}

impl Vec2 {
    pub open spec fn spec_along(self, axis: Axis) -> i64 {
        match axis {
            Axis::Horizontal => self.x,
            Axis::Vertical => self.y,
        }
    }

    pub fn along(&self, axis: Axis) -> (r: i64)
        ensures
            r == self.spec_along(axis),
    {
        match axis {
            Axis::Horizontal => self.x,
            Axis::Vertical => self.y,
        }
    }

    /// The vector whose component along `axis` is `main` and across it `cross`.
    pub open spec fn spec_from_axes(axis: Axis, main: i64, cross: i64) -> Vec2 {
        match axis {
            Axis::Horizontal => Vec2 { x: main, y: cross },
            Axis::Vertical => Vec2 { x: cross, y: main },
        }
    }

    pub fn from_axes(axis: Axis, main: i64, cross: i64) -> (r: Vec2)
        ensures
            r == Vec2::spec_from_axes(axis, main, cross),
    {
        match axis {
            Axis::Horizontal => Vec2 { x: main, y: cross },
            Axis::Vertical => Vec2 { x: cross, y: main },
        }
    }
}

/// An axis-aligned rectangle; `min` is the top-left corner.
#[derive(Debug, Clone, Copy, PartialEq, Eq, Structural)]
pub struct Rect {
    pub min: Vec2,
    pub max: Vec2,
}

impl Rect {
    /// Ordered corners, inside the coordinate range the solver accepts.
    pub open spec fn in_range(self) -> bool {
        &&& -MAX_COORD <= self.min.x <= self.max.x <= MAX_COORD
        &&& -MAX_COORD <= self.min.y <= self.max.y <= MAX_COORD
    }

    pub open spec fn spec_extent(self, axis: Axis) -> int {
        self.max.spec_along(axis) - self.min.spec_along(axis)
    }

    pub open spec fn spec_contains_point(self, p: Vec2) -> bool {
        self.min.x <= p.x <= self.max.x && self.min.y <= p.y <= self.max.y
    }

    /// Whether `p` lies inside the rectangle, edges included.
    pub fn contains_point(&self, p: Vec2) -> (r: bool)
        ensures
            r == self.spec_contains_point(p),
    {
        self.min.x <= p.x && p.x <= self.max.x && self.min.y <= p.y && p.y <= self.max.y
    }
}

} // verus!

verus! {

pub open spec fn max_int(a: int, b: int) -> int {
    if a >= b { a } else { b }
}

pub open spec fn min_int(a: int, b: int) -> int {
    if a <= b { a } else { b }
}

/// `v` clamped into `[lo, hi]`; `lo` wins when the bounds cross.
pub open spec fn clamp_int(v: int, lo: int, hi: int) -> int {
    max_int(min_int(v, hi), lo)
}

/// Four edge lengths: margin or padding.
#[derive(Debug, Clone, Copy, PartialEq, Eq, Structural)]
pub struct BoxLengths {
    pub left: WidgetParameter<u32>,
    pub right: WidgetParameter<u32>,
    pub top: WidgetParameter<u32>,
    pub bottom: WidgetParameter<u32>,
}

impl BoxLengths {
    pub open spec fn spec_leading(self, axis: Axis) -> int {
        match axis {
            Axis::Horizontal => self.left.spec_value() as int,
            Axis::Vertical => self.top.spec_value() as int,
        }
    }

    pub open spec fn spec_trailing(self, axis: Axis) -> int {
        match axis {
            Axis::Horizontal => self.right.spec_value() as int,
            Axis::Vertical => self.bottom.spec_value() as int,
        }
    }

    pub open spec fn spec_axis_sum(self, axis: Axis) -> int {
        self.spec_leading(axis) + self.spec_trailing(axis)
    }

    pub fn new(left: u32, right: u32, top: u32, bottom: u32) -> (r: BoxLengths)
        ensures
            r.left == WidgetParameter::new_spec(left),
            r.right == WidgetParameter::new_spec(right),
            r.top == WidgetParameter::new_spec(top),
            r.bottom == WidgetParameter::new_spec(bottom),
    {
        BoxLengths {
            left: WidgetParameter::new(left),
            right: WidgetParameter::new(right),
            top: WidgetParameter::new(top),
            bottom: WidgetParameter::new(bottom),
        }
    }

    pub fn zero() -> (r: BoxLengths)
        ensures
            r == BoxLengths::spec_uniform(0),
    {
        BoxLengths::uniform(0)
    }

    pub open spec fn spec_uniform(v: u32) -> BoxLengths {
        BoxLengths {
            left: WidgetParameter::new_spec(v),
            right: WidgetParameter::new_spec(v),
            top: WidgetParameter::new_spec(v),
            bottom: WidgetParameter::new_spec(v),
        }
    }

    pub fn uniform(v: u32) -> (r: BoxLengths)
        ensures
            r == BoxLengths::spec_uniform(v),
    {
        BoxLengths::new(v, v, v, v)
    }

    pub fn from_axes(h: u32, v: u32) -> (r: BoxLengths)
        ensures
            r.left == WidgetParameter::new_spec(h),
            r.right == WidgetParameter::new_spec(h),
            r.top == WidgetParameter::new_spec(v),
            r.bottom == WidgetParameter::new_spec(v),
    {
        BoxLengths::new(h, h, v, v)
    }

    /// Explicitly writes the left and right edges (first explicit write wins).
    pub fn set_horizontal(&mut self, value: u32)
        ensures
            final(self).left == old(self).left.with_explicit(value),
            final(self).right == old(self).right.with_explicit(value),
            final(self).top == old(self).top,
            final(self).bottom == old(self).bottom,
    {
        self.left.set(value);
        self.right.set(value);
    }

    /// Explicitly writes the top and bottom edges (first explicit write wins).
    pub fn set_vertical(&mut self, value: u32)
        ensures
            final(self).top == old(self).top.with_explicit(value),
            final(self).bottom == old(self).bottom.with_explicit(value),
            final(self).left == old(self).left,
            final(self).right == old(self).right,
    {
        self.top.set(value);
        self.bottom.set(value);
    }

    /// Explicitly writes all four edges (first explicit write wins).
    pub fn set_uniform(&mut self, value: u32)
        ensures
            final(self).left == old(self).left.with_explicit(value),
            final(self).right == old(self).right.with_explicit(value),
            final(self).top == old(self).top.with_explicit(value),
            final(self).bottom == old(self).bottom.with_explicit(value),
    {
        self.set_horizontal(value);
        self.set_vertical(value);
    }

    /// Gives every edge that was not set explicitly the value `value`.
    pub fn set_default(&mut self, value: u32)
        ensures
            final(self).left == old(self).left.with_default(value),
            final(self).right == old(self).right.with_default(value),
            final(self).top == old(self).top.with_default(value),
            final(self).bottom == old(self).bottom.with_default(value),
    {
        self.left.set_default(value);
        self.right.set_default(value);
        self.top.set_default(value);
        self.bottom.set_default(value);
    }

    /// Sum of the two edges across `axis` (left + right, or top + bottom).
    pub fn axis_sum(&self, axis: Axis) -> (r: i64)
        ensures
            r == self.spec_axis_sum(axis),
    {
        match axis {
            Axis::Horizontal => self.left.get() as i64 + self.right.get() as i64,
            Axis::Vertical => self.top.get() as i64 + self.bottom.get() as i64,
        }
    }

    pub fn leading(&self, axis: Axis) -> (r: i64)
        ensures
            r == self.spec_leading(axis),
    {
        match axis {
            Axis::Horizontal => self.left.get() as i64,
            Axis::Vertical => self.top.get() as i64,
        }
    }

    pub fn trailing(&self, axis: Axis) -> (r: i64)
        ensures
            r == self.spec_trailing(axis),
    {
        match axis {
            Axis::Horizontal => self.right.get() as i64,
            Axis::Vertical => self.bottom.get() as i64,
        }
    }
}

} // verus!

verus! {

/// What a widget asks of its parent's layout, rebuilt every frame.
/// Lengths are in whole pixels; `preferred_*` includes padding.
#[derive(Debug, Clone, Copy, PartialEq, Eq, Structural)]
pub struct LayoutConstraints {
    pub min_width: WidgetParameter<u32>,
    pub min_height: WidgetParameter<u32>,
    pub max_width: WidgetParameter<u32>,
    pub max_height: WidgetParameter<u32>,
    pub preferred_width: WidgetParameter<u32>,
    pub preferred_height: WidgetParameter<u32>,
    pub margin: BoxLengths,
    pub padding: BoxLengths,
    pub horizontal_size_policy: WidgetParameter<SizingBehaviour>,
    pub vertical_size_policy: WidgetParameter<SizingBehaviour>,
    /// Which axis is the main axis when laying out children.
    pub layout_axis: WidgetParameter<Axis>,
    /// Default alignment of children in this layout's cross axis.
    pub content_alignment: WidgetParameter<Align>,
    /// Alignment of this widget in the cross axis of its parent's layout.
    pub self_alignment: WidgetParameter<Align>,
}

impl LayoutConstraints {
    /// Nothing set: no minimum, no maximum, flexible on both axes.
    pub open spec fn spec_new() -> LayoutConstraints {
        LayoutConstraints {
            min_width: WidgetParameter::new_spec(0),
            min_height: WidgetParameter::new_spec(0),
            max_width: WidgetParameter::new_spec(UNBOUNDED),
            max_height: WidgetParameter::new_spec(UNBOUNDED),
            preferred_width: WidgetParameter::new_spec(0),
            preferred_height: WidgetParameter::new_spec(0),
            margin: BoxLengths::spec_uniform(0),
            padding: BoxLengths::spec_uniform(0),
            horizontal_size_policy: WidgetParameter::new_spec(SizingBehaviour::Flexible),
            vertical_size_policy: WidgetParameter::new_spec(SizingBehaviour::Flexible),
            layout_axis: WidgetParameter::new_spec(Axis::Horizontal),
            content_alignment: WidgetParameter::new_spec(Align::Start),
            self_alignment: WidgetParameter::new_spec(Align::Start),
        }
    }

    pub fn new() -> (r: LayoutConstraints)
        ensures
            r == LayoutConstraints::spec_new(),
    {
        LayoutConstraints {
            min_width: WidgetParameter::new(0),
            min_height: WidgetParameter::new(0),
            max_width: WidgetParameter::new(UNBOUNDED),
            max_height: WidgetParameter::new(UNBOUNDED),
            preferred_width: WidgetParameter::new(0),
            preferred_height: WidgetParameter::new(0),
            margin: BoxLengths::zero(),
            padding: BoxLengths::zero(),
            horizontal_size_policy: WidgetParameter::new(SizingBehaviour::Flexible),
            vertical_size_policy: WidgetParameter::new(SizingBehaviour::Flexible),
            layout_axis: WidgetParameter::new(Axis::Horizontal),
            content_alignment: WidgetParameter::new(Align::Start),
            self_alignment: WidgetParameter::new(Align::Start),
        }
    }

    pub open spec fn spec_min_unconstrained(self, axis: Axis) -> int {
        match axis {
            Axis::Horizontal => self.min_width.spec_value() as int,
            Axis::Vertical => self.min_height.spec_value() as int,
        }
    }

    pub open spec fn spec_max_unconstrained(self, axis: Axis) -> int {
        match axis {
            Axis::Horizontal => self.max_width.spec_value() as int,
            Axis::Vertical => self.max_height.spec_value() as int,
        }
    }

    pub open spec fn spec_preferred_unconstrained(self, axis: Axis) -> int {
        match axis {
            Axis::Horizontal => self.preferred_width.spec_value() as int,
            Axis::Vertical => self.preferred_height.spec_value() as int,
        }
    }

    pub open spec fn spec_size_policy(self, axis: Axis) -> SizingBehaviour {
        match axis {
            Axis::Horizontal => self.horizontal_size_policy.spec_value(),
            Axis::Vertical => self.vertical_size_policy.spec_value(),
        }
    }

    /// Preferred length, within the explicit min and max, never below the padding.
    pub open spec fn spec_preferred_length(self, axis: Axis) -> int {
        max_int(
            min_int(
                max_int(self.spec_preferred_unconstrained(axis), self.spec_min_unconstrained(axis)),
                self.spec_max_unconstrained(axis),
            ),
            self.padding.spec_axis_sum(axis),
        )
    }

    /// Smallest length the solver may give: the preferred one unless the widget can shrink.
    pub open spec fn spec_min_length(self, axis: Axis) -> int {
        if self.spec_size_policy(axis).spec_can_shrink() {
            min_int(
                max_int(self.spec_min_unconstrained(axis), self.padding.spec_axis_sum(axis)),
                self.spec_max_unconstrained(axis),
            )
        } else {
            self.spec_preferred_length(axis)
        }
    }

    /// Largest length the solver may give: the preferred one unless the widget can grow.
    pub open spec fn spec_max_length(self, axis: Axis) -> int {
        if self.spec_size_policy(axis).spec_can_grow() {
            max_int(
                max_int(self.spec_max_unconstrained(axis), self.padding.spec_axis_sum(axis)),
                self.spec_min_unconstrained(axis),
            )
        } else {
            self.spec_preferred_length(axis)
        }
    }

    /// The solver's range for a length is never empty, and fits 34 bits.
    pub proof fn lemma_length_bounds(self, axis: Axis)
        ensures
            0 <= self.spec_min_length(axis) <= self.spec_max_length(axis) <= 0x2_0000_0000,
            self.spec_min_length(axis) <= self.spec_preferred_length(axis) <= self.spec_max_length(axis),
    {
    }

    pub fn min_length_unconstrained(&self, axis: Axis) -> (r: i64)
        ensures
            r == self.spec_min_unconstrained(axis),
    {
        match axis {
            Axis::Horizontal => self.min_width.get() as i64,
            Axis::Vertical => self.min_height.get() as i64,
        }
    }

    pub fn max_length_unconstrained(&self, axis: Axis) -> (r: i64)
        ensures
            r == self.spec_max_unconstrained(axis),
    {
        match axis {
            Axis::Horizontal => self.max_width.get() as i64,
            Axis::Vertical => self.max_height.get() as i64,
        }
    }

    pub fn preferred_length_unconstrained(&self, axis: Axis) -> (r: i64)
        ensures
            r == self.spec_preferred_unconstrained(axis),
    {
        match axis {
            Axis::Horizontal => self.preferred_width.get() as i64,
            Axis::Vertical => self.preferred_height.get() as i64,
        }
    }

    pub fn size_policy(&self, axis: Axis) -> (r: SizingBehaviour)
        ensures
            r == self.spec_size_policy(axis),
    {
        match axis {
            Axis::Horizontal => self.horizontal_size_policy.get(),
            Axis::Vertical => self.vertical_size_policy.get(),
        }
    }

    pub fn preferred_length(&self, axis: Axis) -> (r: i64)
        ensures
            r == self.spec_preferred_length(axis),
    {
        let raw = self.preferred_length_unconstrained(axis);
        let lo = self.min_length_unconstrained(axis);
        let hi = self.max_length_unconstrained(axis);
        let pad = self.padding.axis_sum(axis);
        let a = if raw >= lo { raw } else { lo };
        let b = if a <= hi { a } else { hi };
        if b >= pad { b } else { pad }
    }

    pub fn min_length(&self, axis: Axis) -> (r: i64)
        ensures
            r == self.spec_min_length(axis),
    {
        if self.size_policy(axis).can_shrink() {
            let lo = self.min_length_unconstrained(axis);
            let pad = self.padding.axis_sum(axis);
            let hi = self.max_length_unconstrained(axis);
            let a = if lo >= pad { lo } else { pad };
            if a <= hi { a } else { hi }
        } else {
            self.preferred_length(axis)
        }
    }

    pub fn max_length(&self, axis: Axis) -> (r: i64)
        ensures
            r == self.spec_max_length(axis),
    {
        if self.size_policy(axis).can_grow() {
            let hi = self.max_length_unconstrained(axis);
            let pad = self.padding.axis_sum(axis);
            let lo = self.min_length_unconstrained(axis);
            let a = if hi >= pad { hi } else { pad };
            if a >= lo { a } else { lo }
        } else {
            self.preferred_length(axis)
        }
    }

    pub fn min_length_mut(&mut self, axis: Axis) -> (r: &mut WidgetParameter<u32>)
        ensures
            *r == match axis {
                Axis::Horizontal => old(self).min_width,
                Axis::Vertical => old(self).min_height,
            },
            *final(self) == match axis {
                Axis::Horizontal => LayoutConstraints { min_width: *final(r), ..*old(self) },
                Axis::Vertical => LayoutConstraints { min_height: *final(r), ..*old(self) },
            },
    {
        match axis {
            Axis::Horizontal => &mut self.min_width,
            Axis::Vertical => &mut self.min_height,
        }
    }
}

} // verus!

verus! {

/// Space between siblings `i - 1` and `i`: adjacent margins collapse to the larger.
pub open spec fn margin_gap(cs: Seq<LayoutConstraints>, axis: Axis, i: int) -> int {
    max_int(cs[i - 1].margin.spec_trailing(axis), cs[i].margin.spec_leading(axis))
}

/// Sum of the gaps between the first `k` siblings.
pub open spec fn gaps_sum(cs: Seq<LayoutConstraints>, axis: Axis, k: int) -> int
    decreases k,
{
    if k <= 1 {
        0
    } else {
        gaps_sum(cs, axis, k - 1) + margin_gap(cs, axis, k - 1)
    }
}

/// Margin space of a run of siblings along `axis`: the first one's leading margin,
/// the collapsed gaps, and the last one's trailing margin.
pub open spec fn collapsed_margins(cs: Seq<LayoutConstraints>, axis: Axis) -> int {
    if cs.len() == 0 {
        0
    } else {
        cs[0].margin.spec_leading(axis) + gaps_sum(cs, axis, cs.len() as int)
            + cs[cs.len() - 1].margin.spec_trailing(axis)
    }
}

/// Sum of the minimum lengths of the first `k` siblings.
pub open spec fn sum_min_lengths(cs: Seq<LayoutConstraints>, axis: Axis, k: int) -> int
    decreases k,
{
    if k <= 0 {
        0
    } else {
        sum_min_lengths(cs, axis, k - 1) + cs[k - 1].spec_min_length(axis)
    }
}

/// How much sibling `i` may grow beyond its minimum.
pub open spec fn extra_length(cs: Seq<LayoutConstraints>, axis: Axis, i: int) -> int {
    cs[i].spec_max_length(axis) - cs[i].spec_min_length(axis)
}

/// Even share of the spare length among `remaining` siblings; never negative.
pub open spec fn even_share(available: int, remaining: int) -> int {
    if available <= 0 || remaining <= 0 {
        0
    } else {
        available / remaining
    }
}

/// First sibling at or after `i`, not yet finalized, whose room to grow fits in `share`
/// (`cs.len()` if there is none).
pub open spec fn first_fit(cs: Seq<LayoutConstraints>, axis: Axis, fin: Seq<bool>, share: int, i: int) -> int
    decreases cs.len() - i,
{
    if i >= cs.len() {
        cs.len() as int
    } else if !fin[i] && extra_length(cs, axis, i) <= share {
        i
    } else {
        first_fit(cs, axis, fin, share, i + 1)
    }
}

/// `first_fit` finds the first sibling that fits, or none.
pub proof fn lemma_first_fit(cs: Seq<LayoutConstraints>, axis: Axis, fin: Seq<bool>, share: int, i: int)
    requires
        0 <= i <= cs.len(),
    ensures
        i <= first_fit(cs, axis, fin, share, i) <= cs.len(),
        first_fit(cs, axis, fin, share, i) < cs.len() ==> {
            let r = first_fit(cs, axis, fin, share, i);
            !fin[r] && extra_length(cs, axis, r) <= share
        },
    decreases cs.len() - i,
{
    if i < cs.len() {
        lemma_first_fit(cs, axis, fin, share, i + 1);
    }
}

/// Freeze and redistribute: while some sibling's room to grow fits in the even
/// share, finalize the first such at its maximum and take its room out of the
/// spare length. Returns the final flags, the spare length left and the number
/// of siblings not finalized.
pub open spec fn distribute(cs: Seq<LayoutConstraints>, axis: Axis, fin: Seq<bool>, available: int, remaining: int)
    -> (Seq<bool>, int, int)
    decreases remaining,
{
    if remaining <= 0 {
        (fin, available, remaining)
    } else {
        let j = first_fit(cs, axis, fin, even_share(available, remaining), 0);
        if j < cs.len() {
            distribute(cs, axis, fin.update(j, true), available - extra_length(cs, axis, j), remaining - 1)
        } else {
            (fin, available, remaining)
        }
    }
}

/// `n` flags, none set.
pub open spec fn none_finalized(n: int) -> Seq<bool> {
    Seq::new(n as nat, |i: int| false)
}

/// Spare main-axis length: what is left after all margins and minimum lengths.
pub open spec fn main_slack(cs: Seq<LayoutConstraints>, axis: Axis, available_length: int) -> int {
    available_length - collapsed_margins(cs, axis) - sum_min_lengths(cs, axis, cs.len() as int)
}

/// What is left of the spare length after the even share went to each of
/// `remaining` siblings; zero when nothing is spare.
pub open spec fn share_remainder(available: int, remaining: int) -> int {
    if available <= 0 || remaining <= 0 {
        0
    } else {
        available % remaining
    }
}

/// Main-axis lengths of a sibling group: finalized siblings get their maximum,
/// the others their minimum plus the last even share, and the first of them,
/// in order, one more pixel each until the remainder of that share is used up.
pub open spec fn main_lengths(cs: Seq<LayoutConstraints>, axis: Axis, available_length: int) -> Seq<int> {
    let n = cs.len() as int;
    let d = distribute(cs, axis, none_finalized(n), main_slack(cs, axis, available_length), n);
    let share = even_share(d.1, d.2);
    let extra = share_remainder(d.1, d.2);
    Seq::new(
        n as nat,
        |i: int|
            if d.0[i] {
                cs[i].spec_max_length(axis)
            } else {
                cs[i].spec_min_length(axis) + share + if count_open(d.0, i) < extra {
                    1int
                } else {
                    0int
                }
            },
    )
}

/// Cross-axis length: the available length less the margins, clamped to the
/// sibling's range.
pub open spec fn cross_length(c: LayoutConstraints, axis: Axis, available_length: int) -> int {
    clamp_int(available_length - c.margin.spec_axis_sum(axis), c.spec_min_length(axis), c.spec_max_length(axis))
}

/// Main-axis position of sibling `i`, given the lengths of the group.
pub open spec fn main_position(cs: Seq<LayoutConstraints>, axis: Axis, start: int, lengths: Seq<int>, i: int) -> int
    decreases i,
{
    if i <= 0 {
        start + cs[0].margin.spec_leading(axis)
    } else {
        main_position(cs, axis, start, lengths, i - 1) + lengths[i - 1] + margin_gap(cs, axis, i)
    }
}

/// Cross-axis position of a sibling of cross length `length` in `[start, end]`.
pub open spec fn cross_position(c: LayoutConstraints, axis: Axis, default_align: Align, start: int, end: int, length: int) -> int {
    let align = if c.self_alignment.spec_is_set() { c.self_alignment.spec_value() } else { default_align };
    match align {
        Align::Start => start + c.margin.spec_leading(axis),
        Align::Middle => start + max_int((end - start - length) / 2, 0),
        Align::End => end - c.margin.spec_trailing(axis) - length,
    }
}

} // verus!

verus! {

/// Collapsed margins plus minimum lengths of a sibling group along `axis`.
fn margins_and_min_lengths(axis: Axis, cs: &Vec<LayoutConstraints>) -> (r: i64)
    requires
        cs.len() <= MAX_CHILDREN,
    ensures
        r == collapsed_margins(cs@, axis) + sum_min_lengths(cs@, axis, cs.len() as int),
        0 <= r <= cs.len() * 0x4_0000_0000,
        0 <= collapsed_margins(cs@, axis) <= cs.len() * 0x2_0000_0000,
{
    let n = cs.len();
    if n == 0 {
        return 0;
    }
    let mut total: i64 = cs[0].margin.leading(axis) + cs[n - 1].margin.trailing(axis);
    let mut i: usize = 0;
    while i < n
        invariant
            0 <= i <= n <= MAX_CHILDREN,
            n == cs.len(),
            0 <= gaps_sum(cs@, axis, i as int) <= i * 0x1_0000_0000,
            0 <= sum_min_lengths(cs@, axis, i as int) <= i * 0x2_0000_0000,
            total == cs@[0].margin.spec_leading(axis) + cs@[n - 1].margin.spec_trailing(axis)
                + gaps_sum(cs@, axis, i as int) + sum_min_lengths(cs@, axis, i as int),
        decreases n - i,
    {
        proof {
            cs@[i as int].lemma_length_bounds(axis);
        }
        let mut step = cs[i].min_length(axis);
        if i >= 1 {
            let trailing = cs[i - 1].margin.trailing(axis);
            let leading = cs[i].margin.leading(axis);
            step = step + if trailing >= leading { trailing } else { leading };
        }
        total = total + step;
        i = i + 1;
    }
    total
}

/// Main-axis lengths of a sibling group given `available_length`.
fn size_main_axis(available_length: i64, axis: Axis, cs: &Vec<LayoutConstraints>) -> (r: Vec<i64>)
    requires
        cs.len() <= MAX_CHILDREN,
        -4 * MAX_COORD <= available_length <= 4 * MAX_COORD,
    ensures
        r.len() == cs.len(),
        forall|i: int| 0 <= i < cs.len() ==> r[i] == #[trigger] main_lengths(cs@, axis, available_length as int)[i],
{
    let n = cs.len();
    let ghost slack = main_slack(cs@, axis, available_length as int);
    let mut available = available_length - margins_and_min_lengths(axis, cs);
    let mut fin: Vec<bool> = Vec::new();
    let mut k: usize = 0;
    while k < n
        invariant
            k <= n == cs.len(),
            fin@ == Seq::new(k as nat, |i: int| false),
        decreases n - k,
    {
        fin.push(false);
        k = k + 1;
    }
    let ghost fin0 = fin@;
    let ghost lo = min_int(slack, 0);
    let mut remaining: usize = n;
    loop
        invariant
            n == cs.len() <= MAX_CHILDREN,
            fin.len() == n,
            remaining <= n,
            lo <= available <= slack,
            lo == min_int(slack, 0),
            -4 * MAX_COORD - MAX_CHILDREN * 0x4_0000_0000 <= slack <= 4 * MAX_COORD,
            distribute(cs@, axis, fin@, available as int, remaining as int)
                == distribute(cs@, axis, fin0, slack, n as int),
        ensures
            distribute(cs@, axis, fin0, slack, n as int) == (fin@, available as int, remaining as int),
        decreases remaining,
    {
        if remaining == 0 {
            break;
        }
        let share: i64 = if available <= 0 { 0 } else { available / (remaining as i64) };
        assert(share == even_share(available as int, remaining as int));
        assert(0 <= share <= max_int(available as int, 0)) by (nonlinear_arith)
            requires
                share == even_share(available as int, remaining as int),
                remaining >= 1,
        ;
        let mut j: usize = 0;
        while j < n
            invariant
                j <= n == cs.len(),
                fin.len() == n,
                first_fit(cs@, axis, fin@, share as int, 0) == first_fit(cs@, axis, fin@, share as int, j as int),
            ensures
                j == first_fit(cs@, axis, fin@, share as int, 0),
            decreases n - j,
        {
            let extra = cs[j].max_length(axis) - cs[j].min_length(axis);
            if !fin[j] && extra <= share {
                break;
            }
            j = j + 1;
        }
        if j == n {
            break;
        }
        proof {
            cs@[j as int].lemma_length_bounds(axis);
            lemma_first_fit(cs@, axis, fin@, share as int, 0);
        }
        let extra = cs[j].max_length(axis) - cs[j].min_length(axis);
        let ghost before = fin@;
        fin.set(j, true);
        assert(fin@ == before.update(j as int, true));
        available = available - extra;
        remaining = remaining - 1;
    }
    assert(fin0 =~= none_finalized(n as int));
    let share: i64 = if available <= 0 || remaining == 0 { 0 } else { available / (remaining as i64) };
    let extra: i64 = if available <= 0 || remaining == 0 { 0 } else { available % (remaining as i64) };
    assert(0 <= share <= max_int(available as int, 0)) by (nonlinear_arith)
        requires
            share == even_share(available as int, remaining as int),
    ;
    let mut opened: i64 = 0;
    let mut lengths: Vec<i64> = Vec::new();
    let mut i: usize = 0;
    while i < n
        invariant
            i <= n == cs.len() <= MAX_CHILDREN,
            fin.len() == n,
            0 <= share <= 4 * MAX_COORD,
            lengths.len() == i,
            distribute(cs@, axis, none_finalized(n as int), main_slack(cs@, axis, available_length as int), n as int)
                == (fin@, available as int, remaining as int),
            share == even_share(available as int, remaining as int),
            extra == share_remainder(available as int, remaining as int),
            opened == count_open(fin@, i as int),
            0 <= opened <= i,
            forall|m: int| 0 <= m < i ==> lengths[m] == #[trigger] main_lengths(cs@, axis, available_length as int)[m],
        decreases n - i,
    {
        proof {
            cs@[i as int].lemma_length_bounds(axis);
        }
        let len = if fin[i] {
            cs[i].max_length(axis)
        } else {
            cs[i].min_length(axis) + share + if opened < extra { 1 } else { 0 }
        };
        if !fin[i] {
            opened = opened + 1;
        }
        assert(main_lengths(cs@, axis, available_length as int)[i as int] == len);
        lengths.push(len);
        i = i + 1;
    }
    lengths
}

} // verus!

verus! {

/// What `distribute` keeps: flags only get set, the spare length stays between
/// its start and `min(start, 0)`, and when it stops with siblings left, none of
/// them fits in the even share.
pub proof fn lemma_distribute(cs: Seq<LayoutConstraints>, axis: Axis, fin: Seq<bool>, available: int, remaining: int)
    requires
        fin.len() == cs.len(),
    ensures
        ({
            let d = distribute(cs, axis, fin, available, remaining);
            &&& d.0.len() == cs.len()
            &&& min_int(available, 0) <= d.1 <= available
            &&& d.2 <= remaining
            &&& d.2 > 0 ==> forall|i: int|
                0 <= i < cs.len() && !d.0[i] ==> extra_length(cs, axis, i) > even_share(d.1, d.2)
        }),
    decreases remaining,
{
    if remaining > 0 {
        let share = even_share(available, remaining);
        let j = first_fit(cs, axis, fin, share, 0);
        lemma_first_fit(cs, axis, fin, share, 0);
        if j < cs.len() {
            cs[j].lemma_length_bounds(axis);
            assert(share <= max_int(available, 0)) by (nonlinear_arith)
                requires
                    share == even_share(available, remaining),
                    remaining > 0,
            ;
            lemma_distribute(cs, axis, fin.update(j, true), available - extra_length(cs, axis, j), remaining - 1);
        } else {
            assert forall|i: int| 0 <= i < cs.len() && !fin[i] implies extra_length(cs, axis, i) > share by {
                lemma_first_fit_none(cs, axis, fin, share, 0, i);
            }
        }
    }
}

/// When `first_fit` finds nothing from `k` on, no sibling from `k` on fits.
pub proof fn lemma_first_fit_none(cs: Seq<LayoutConstraints>, axis: Axis, fin: Seq<bool>, share: int, k: int, i: int)
    requires
        0 <= k <= i < cs.len(),
        first_fit(cs, axis, fin, share, k) == cs.len(),
    ensures
        !(!fin[i] && extra_length(cs, axis, i) <= share),
    decreases i - k,
{
    if k < i {
        lemma_first_fit_none(cs, axis, fin, share, k + 1, i);
    }
}

/// Every main-axis length lies between the sibling's minimum and maximum,
/// whatever the available length, so growable siblings never pass their
/// maximum and shrinkable ones never drop below their minimum.
pub proof fn lemma_main_lengths_clamped(cs: Seq<LayoutConstraints>, axis: Axis, available_length: int)
    ensures
        main_lengths(cs, axis, available_length).len() == cs.len(),
        forall|i: int|
            0 <= i < cs.len() ==> cs[i].spec_min_length(axis) <= #[trigger] main_lengths(cs, axis, available_length)[i]
                <= cs[i].spec_max_length(axis),
{
    let n = cs.len() as int;
    let d = distribute(cs, axis, none_finalized(n), main_slack(cs, axis, available_length), n);
    lemma_distribute(cs, axis, none_finalized(n), main_slack(cs, axis, available_length), n);
    assert forall|i: int| 0 <= i < cs.len() implies cs[i].spec_min_length(axis) <= #[trigger] main_lengths(
        cs,
        axis,
        available_length,
    )[i] <= cs[i].spec_max_length(axis) by {
        cs[i].lemma_length_bounds(axis);
        let share = even_share(d.1, d.2);
        let extra = share_remainder(d.1, d.2);
        let bonus = if count_open(d.0, i) < extra { 1int } else { 0int };
        lemma_count_open_nonneg(d.0, i);
        assert(main_lengths(cs, axis, available_length)[i] == if d.0[i] {
            cs[i].spec_max_length(axis)
        } else {
            cs[i].spec_min_length(axis) + share + bonus
        });
        if !d.0[i] {
            if d.2 > 0 {
                assert(extra_length(cs, axis, i) > share);
            } else {
                assert(extra == 0 && share == 0);
            }
            assert(0 <= share);
        }
    }
}

} // verus!

verus! {

/// Resolved placement of one widget for one frame.
#[derive(Debug, Clone, Copy, PartialEq, Eq, Structural)]
pub struct Layout {
    pub position: Vec2,
    pub size: Vec2,
    pub box_bounds: Rect,
    pub margin_bounds: Rect,
    pub content_bounds: Rect,
    /// The clip rectangle inherited from the ancestors; `None` means unbounded.
    pub clip_rect: Option<Rect>,
}

/// One axis of an inset or outset: `lo` and `hi` moved, and `lo` pulled back to
/// `hi` where they would cross, so negative space collapses to a zero length.
pub open spec fn collapse_lo(lo: int, hi: int) -> int {
    min_int(lo, hi)
}

/// `bounds` shrunk by `lengths` on each edge.
pub open spec fn spec_inset(bounds: Rect, lengths: BoxLengths) -> Rect {
    let x0 = bounds.min.x + lengths.left.spec_value();
    let x1 = bounds.max.x - lengths.right.spec_value();
    let y0 = bounds.min.y + lengths.top.spec_value();
    let y1 = bounds.max.y - lengths.bottom.spec_value();
    Rect {
        min: Vec2 { x: collapse_lo(x0, x1) as i64, y: collapse_lo(y0, y1) as i64 },
        max: Vec2 { x: x1 as i64, y: y1 as i64 },
    }
}

/// `bounds` grown by `lengths` on each edge.
pub open spec fn spec_outset(bounds: Rect, lengths: BoxLengths) -> Rect {
    let x0 = bounds.min.x - lengths.left.spec_value();
    let x1 = bounds.max.x + lengths.right.spec_value();
    let y0 = bounds.min.y - lengths.top.spec_value();
    let y1 = bounds.max.y + lengths.bottom.spec_value();
    Rect {
        min: Vec2 { x: collapse_lo(x0, x1) as i64, y: collapse_lo(y0, y1) as i64 },
        max: Vec2 { x: x1 as i64, y: y1 as i64 },
    }
}

/// Coordinates small enough to move by a few edge lengths without overflow.
pub open spec fn rect_movable(r: Rect) -> bool {
    &&& -0x1000_0000_0000_0000 <= r.min.x <= 0x1000_0000_0000_0000
    &&& -0x1000_0000_0000_0000 <= r.min.y <= 0x1000_0000_0000_0000
    &&& -0x1000_0000_0000_0000 <= r.max.x <= 0x1000_0000_0000_0000
    &&& -0x1000_0000_0000_0000 <= r.max.y <= 0x1000_0000_0000_0000
}

pub fn inset_lengths(bounds: &Rect, lengths: &BoxLengths) -> (r: Rect)
    requires
        rect_movable(*bounds),
    ensures
        r == spec_inset(*bounds, *lengths),
{
    let x0 = bounds.min.x + lengths.left.get() as i64;
    let x1 = bounds.max.x - lengths.right.get() as i64;
    let y0 = bounds.min.y + lengths.top.get() as i64;
    let y1 = bounds.max.y - lengths.bottom.get() as i64;
    Rect {
        min: Vec2 { x: if x0 <= x1 { x0 } else { x1 }, y: if y0 <= y1 { y0 } else { y1 } },
        max: Vec2 { x: x1, y: y1 },
    }
}

pub fn outset_lengths(bounds: &Rect, lengths: &BoxLengths) -> (r: Rect)
    requires
        rect_movable(*bounds),
    ensures
        r == spec_outset(*bounds, *lengths),
{
    let x0 = bounds.min.x - lengths.left.get() as i64;
    let x1 = bounds.max.x + lengths.right.get() as i64;
    let y0 = bounds.min.y - lengths.top.get() as i64;
    let y1 = bounds.max.y + lengths.bottom.get() as i64;
    Rect {
        min: Vec2 { x: if x0 <= x1 { x0 } else { x1 }, y: if y0 <= y1 { y0 } else { y1 } },
        max: Vec2 { x: x1, y: y1 },
    }
}

/// The layout of a widget placed at `position` with `size`: its box, its content
/// box inside the padding and its margin box; no clip yet.
pub open spec fn layout_of(position: Vec2, size: Vec2, c: LayoutConstraints) -> Layout {
    let b = Rect { min: position, max: Vec2 { x: (position.x + size.x) as i64, y: (position.y + size.y) as i64 } };
    Layout {
        position,
        size,
        box_bounds: b,
        content_bounds: spec_inset(b, c.padding),
        margin_bounds: spec_outset(b, c.margin),
        clip_rect: None,
    }
}

/// The layout of a sibling of the group placed at `main_pos` with `main_len`
/// along `main_axis`, sized and aligned across it inside `available`.
pub open spec fn placed_layout(c: LayoutConstraints, main_axis: Axis, align: Align, available: Rect, main_pos: int, main_len: int) -> Layout {
    let cross_axis = main_axis.spec_opposite();
    let cross_len = cross_length(c, cross_axis, available.spec_extent(cross_axis));
    let cross_pos = cross_position(
        c,
        cross_axis,
        align,
        available.min.spec_along(cross_axis) as int,
        available.max.spec_along(cross_axis) as int,
        cross_len,
    );
    layout_of(
        Vec2::spec_from_axes(main_axis, main_pos as i64, cross_pos as i64),
        Vec2::spec_from_axes(main_axis, main_len as i64, cross_len as i64),
        c,
    )
}

/// The layout of sibling `i` when the group `cs` is arranged along `main_axis`
/// inside `available`, with `align` as the default cross-axis alignment.
pub open spec fn sibling_layout(cs: Seq<LayoutConstraints>, main_axis: Axis, align: Align, available: Rect, i: int) -> Layout {
    let lengths = main_lengths(cs, main_axis, available.spec_extent(main_axis));
    let main_pos = main_position(cs, main_axis, available.min.spec_along(main_axis) as int, lengths, i);
    placed_layout(cs[i], main_axis, align, available, main_pos, lengths[i])
}

#[verifier::rlimit(40)]
fn place_sibling(c: &LayoutConstraints, main_axis: Axis, align: Align, available: Rect, main_pos: i64, main_len: i64) -> (r: Layout)
    requires
        available.in_range(),
        -0x100_0000_0000_0000 <= main_pos <= 0x100_0000_0000_0000,
        0 <= main_len <= 0x2_0000_0000,
    ensures
        r == placed_layout(*c, main_axis, align, available, main_pos as int, main_len as int),
{
    let cross_axis = main_axis.opposite();
    let cross_start = available.min.along(cross_axis);
    let cross_end = available.max.along(cross_axis);
    proof {
        c.lemma_length_bounds(cross_axis);
    }
    let cross_len = cross_size(c, cross_axis, cross_end - cross_start);
    let cross_p = cross_pos(c, cross_axis, align, cross_start, cross_end, cross_len);
    let position = Vec2::from_axes(main_axis, main_pos, cross_p);
    let size = Vec2::from_axes(main_axis, main_len, cross_len);
    let box_bounds = Rect { min: position, max: Vec2 { x: position.x + size.x, y: position.y + size.y } };
    Layout {
        position,
        size,
        box_bounds,
        content_bounds: inset_lengths(&box_bounds, &c.padding),
        margin_bounds: outset_lengths(&box_bounds, &c.margin),
        clip_rect: None,
    }
}

/// Positions stay within reach of the start: each step adds at most a length
/// and a gap.
pub proof fn lemma_main_position_bounds(cs: Seq<LayoutConstraints>, axis: Axis, start: int, lengths: Seq<int>, i: int)
    requires
        0 <= i < cs.len(),
        lengths.len() == cs.len(),
        forall|k: int| 0 <= k < cs.len() ==> 0 <= #[trigger] lengths[k] <= 0x2_0000_0000,
    ensures
        start <= main_position(cs, axis, start, lengths, i) <= start + (i + 1) * 0x4_0000_0000,
    decreases i,
{
    if i > 0 {
        lemma_main_position_bounds(cs, axis, start, lengths, i - 1);
    }
}

fn cross_size(c: &LayoutConstraints, axis: Axis, available_length: i64) -> (r: i64)
    requires
        -4 * MAX_COORD <= available_length <= 4 * MAX_COORD,
    ensures
        r == cross_length(*c, axis, available_length as int),
{
    let v = available_length - c.margin.axis_sum(axis);
    let lo = c.min_length(axis);
    let hi = c.max_length(axis);
    let a = if v <= hi { v } else { hi };
    if a >= lo { a } else { lo }
}

fn cross_pos(c: &LayoutConstraints, axis: Axis, default_align: Align, start: i64, end: i64, length: i64) -> (r: i64)
    requires
        -MAX_COORD <= start <= end <= MAX_COORD,
        0 <= length <= 0x2_0000_0000,
    ensures
        r == cross_position(*c, axis, default_align, start as int, end as int, length as int),
{
    let align = c.self_alignment.get_or(default_align);
    match align {
        Align::Start => start + c.margin.leading(axis),
        Align::Middle => {
            let room = end - start - length;
            start + if room <= 0 { 0 } else { room / 2 }
        },
        Align::End => end - c.margin.trailing(axis) - length,
    }
}

/// Arranges one sibling group: sizes along `main_axis` by freeze and
/// redistribute, sizes across it by clamping, places the siblings one after the
/// other with collapsed margins, aligns them across, and derives their boxes.
pub fn layout_children_linear(
    available_bounds: Rect,
    main_axis: Axis,
    content_alignment: Align,
    constraints: &Vec<LayoutConstraints>,
) -> (r: Vec<Layout>)
    requires
        available_bounds.in_range(),
        constraints.len() <= MAX_CHILDREN,
    ensures
        r.len() == constraints.len(),
        forall|i: int|
            0 <= i < r.len() ==> r[i] == #[trigger] sibling_layout(
                constraints@,
                main_axis,
                content_alignment,
                available_bounds,
                i,
            ),
{
    let n = constraints.len();
    let main_available = available_bounds.max.along(main_axis) - available_bounds.min.along(main_axis);
    let lengths = size_main_axis(main_available, main_axis, constraints);
    let ghost lens = main_lengths(constraints@, main_axis, main_available as int);
    proof {
        lemma_main_lengths_clamped(constraints@, main_axis, main_available as int);
        assert forall|k: int| 0 <= k < n implies 0 <= #[trigger] lens[k] <= 0x2_0000_0000 by {
            constraints@[k].lemma_length_bounds(main_axis);
        }
    }
    let start = available_bounds.min.along(main_axis);
    let mut cursor: i64 = start;
    let mut out: Vec<Layout> = Vec::new();
    let mut i: usize = 0;
    while i < n
        invariant
            i <= n == constraints.len() <= MAX_CHILDREN,
            lengths.len() == n,
            lens.len() == n,
            forall|k: int| 0 <= k < n ==> lengths[k] == #[trigger] lens[k],
            forall|k: int| 0 <= k < n ==> 0 <= #[trigger] lens[k] <= 0x2_0000_0000,
            lens == main_lengths(constraints@, main_axis, available_bounds.spec_extent(main_axis)),
            available_bounds.in_range(),
            main_available == available_bounds.spec_extent(main_axis),
            start == available_bounds.min.spec_along(main_axis),
            i == 0 ==> cursor == start,
            i > 0 ==> cursor == main_position(constraints@, main_axis, start as int, lens, i - 1) + lens[i - 1],
            i > 0 ==> start <= cursor <= start + i * 0x4_0000_0000,
            out.len() == i,
            forall|k: int|
                0 <= k < i ==> out[k] == #[trigger] sibling_layout(
                    constraints@,
                    main_axis,
                    content_alignment,
                    available_bounds,
                    k,
                ),
        decreases n - i,
    {
        let c = &constraints[i];
        proof {
            lemma_main_position_bounds(constraints@, main_axis, start as int, lens, i as int);
        }
        assert(lengths[i as int] == lens[i as int]);
        assert(0 <= lens[i as int] <= 0x2_0000_0000);
        if i == 0 {
            cursor = cursor + c.margin.leading(main_axis);
        } else {
            let trailing = constraints[i - 1].margin.trailing(main_axis);
            let leading = c.margin.leading(main_axis);
            cursor = cursor + if trailing >= leading { trailing } else { leading };
        }
        let main_pos = cursor;
        let layout = place_sibling(c, main_axis, content_alignment, available_bounds, main_pos, lengths[i]);
        out.push(layout);
        cursor = cursor + lengths[i];
        i = i + 1;
    }
    out
}

} // verus!

verus! {

/// Sum of the first `k` entries of `s`.
pub open spec fn prefix_sum(s: Seq<int>, k: int) -> int
    decreases k,
{
    if k <= 0 {
        0
    } else {
        prefix_sum(s, k - 1) + s[k - 1]
    }
}

/// Where sibling `i` starts: the leading margin, the gaps and the lengths before it.
pub proof fn lemma_main_position_sum(cs: Seq<LayoutConstraints>, axis: Axis, start: int, lengths: Seq<int>, i: int)
    requires
        0 <= i < cs.len(),
    ensures
        main_position(cs, axis, start, lengths, i) == start + cs[0].margin.spec_leading(axis) + gaps_sum(cs, axis, i + 1)
            + prefix_sum(lengths, i),
    decreases i,
{
    if i > 0 {
        lemma_main_position_sum(cs, axis, start, lengths, i - 1);
    }
}

/// Lengths equal to the minimum lengths sum to the minimum lengths' sum.
pub proof fn lemma_prefix_sum_of_min(cs: Seq<LayoutConstraints>, axis: Axis, lengths: Seq<int>, k: int)
    requires
        0 <= k <= cs.len() <= lengths.len(),
        forall|i: int| 0 <= i < k ==> #[trigger] lengths[i] == cs[i].spec_min_length(axis),
    ensures
        prefix_sum(lengths, k) == sum_min_lengths(cs, axis, k),
    decreases k,
{
    if k > 0 {
        lemma_prefix_sum_of_min(cs, axis, lengths, k - 1);
    }
}

/// Siblings that are all fixed along `axis`, whose preferred lengths and
/// collapsed margins add up to exactly the available length, each get their
/// preferred length, and the last one's trailing margin ends exactly at the
/// end of the available length.
pub proof fn lemma_fixed_siblings_fill_exactly(cs: Seq<LayoutConstraints>, axis: Axis, start: int, available_length: int)
    requires
        cs.len() > 0,
        forall|i: int| 0 <= i < cs.len() ==> #[trigger] cs[i].spec_size_policy(axis) == SizingBehaviour::Fixed,
        collapsed_margins(cs, axis) + sum_preferred_lengths(cs, axis, cs.len() as int) == available_length,
    ensures
        forall|i: int|
            0 <= i < cs.len() ==> #[trigger] main_lengths(cs, axis, available_length)[i] == cs[i].spec_preferred_length(axis),
        ({
            let n = cs.len() as int;
            let lengths = main_lengths(cs, axis, available_length);
            main_position(cs, axis, start, lengths, n - 1) + lengths[n - 1] + cs[n - 1].margin.spec_trailing(axis)
                == start + available_length
        }),
{
    let n = cs.len() as int;
    let lengths = main_lengths(cs, axis, available_length);
    lemma_main_lengths_clamped(cs, axis, available_length);
    lemma_fixed_preferred_sum(cs, axis, n);
    assert forall|i: int| 0 <= i < cs.len() implies #[trigger] lengths[i] == cs[i].spec_preferred_length(axis) by {
        assert(cs[i].spec_size_policy(axis) == SizingBehaviour::Fixed);
    }
    assert forall|i: int| 0 <= i < n implies #[trigger] lengths[i] == cs[i].spec_min_length(axis) by {
        assert(cs[i].spec_size_policy(axis) == SizingBehaviour::Fixed);
    }
    lemma_main_position_sum(cs, axis, start, lengths, n - 1);
    lemma_prefix_sum_of_min(cs, axis, lengths, n);
    lemma_fixed_preferred_sum(cs, axis, n);
}

/// Sum of the preferred lengths of the first `k` siblings.
pub open spec fn sum_preferred_lengths(cs: Seq<LayoutConstraints>, axis: Axis, k: int) -> int
    decreases k,
{
    if k <= 0 {
        0
    } else {
        sum_preferred_lengths(cs, axis, k - 1) + cs[k - 1].spec_preferred_length(axis)
    }
}

proof fn lemma_fixed_preferred_sum(cs: Seq<LayoutConstraints>, axis: Axis, k: int)
    requires
        0 <= k <= cs.len(),
        forall|i: int| 0 <= i < cs.len() ==> #[trigger] cs[i].spec_size_policy(axis) == SizingBehaviour::Fixed,
    ensures
        sum_preferred_lengths(cs, axis, k) == sum_min_lengths(cs, axis, k),
    decreases k,
{
    if k > 0 {
        lemma_fixed_preferred_sum(cs, axis, k - 1);
        assert(cs[k - 1].spec_size_policy(axis) == SizingBehaviour::Fixed);
    }
}

} // verus!

verus! {

/// Number of flags among the first `k` that are not set.
pub open spec fn count_open(fin: Seq<bool>, k: int) -> int
    decreases k,
{
    if k <= 0 {
        0
    } else {
        count_open(fin, k - 1) + if fin[k - 1] { 0int } else { 1int }
    }
}

proof fn lemma_count_open_update(fin: Seq<bool>, j: int, k: int)
    requires
        0 <= j < fin.len(),
        0 <= k <= fin.len(),
        !fin[j],
    ensures
        count_open(fin.update(j, true), k) == count_open(fin, k) - (if j < k { 1int } else { 0int }),
    decreases k,
{
    if k > 0 {
        lemma_count_open_update(fin, j, k - 1);
    }
}

proof fn lemma_count_open_all_but(fin: Seq<bool>, s: int, k: int)
    requires
        0 <= k <= fin.len(),
        forall|i: int| 0 <= i < fin.len() && i != s ==> #[trigger] fin[i],
    ensures
        count_open(fin, k) <= (if 0 <= s < k && !fin[s] { 1int } else { 0int }),
        count_open(fin, k) >= 0,
    decreases k,
{
    if k > 0 {
        lemma_count_open_all_but(fin, s, k - 1);
    }
}

proof fn lemma_count_open_none(n: int, k: int)
    requires
        0 <= k <= n,
    ensures
        count_open(none_finalized(n), k) == k,
    decreases k,
{
    if k > 0 {
        lemma_count_open_none(n, k - 1);
    }
}

proof fn lemma_absorb_step(
    cs: Seq<LayoutConstraints>,
    axis: Axis,
    s: int,
    slack: int,
    fin: Seq<bool>,
    available: int,
    remaining: int,
)
    requires
        fin.len() == cs.len(),
        0 <= s < cs.len(),
        forall|i: int| 0 <= i < cs.len() && i != s ==> #[trigger] cs[i].spec_size_policy(axis) == SizingBehaviour::Fixed,
        slack >= 0,
        extra_length(cs, axis, s) >= slack,
        count_open(fin, cs.len() as int) == remaining,
        !fin[s] ==> available == slack,
        fin[s] ==> extra_length(cs, axis, s) == slack,
    ensures
        ({
            let d = distribute(cs, axis, fin, available, remaining);
            &&& d.0[s] ==> extra_length(cs, axis, s) == slack
            &&& !d.0[s] ==> even_share(d.1, d.2) == slack
            &&& !d.0[s] ==> share_remainder(d.1, d.2) == 0
        }),
    decreases remaining,
{
    let n = cs.len() as int;
    if remaining <= 0 {
        if !fin[s] {
            lemma_count_open_positive(fin, s, n);
        }
    } else {
        let share = even_share(available, remaining);
        let j = first_fit(cs, axis, fin, share, 0);
        lemma_first_fit(cs, axis, fin, share, 0);
        assert(share <= max_int(available, 0)) by (nonlinear_arith)
            requires
                share == even_share(available, remaining),
                remaining > 0,
        ;
        if j < n {
            cs[j].lemma_length_bounds(axis);
            if j != s {
                assert(cs[j].spec_size_policy(axis) == SizingBehaviour::Fixed);
            } else {
                if fin[s] {
                    assert(false);
                }
            }
            lemma_count_open_update(fin, j, n);
            lemma_absorb_step(cs, axis, s, slack, fin.update(j, true), available - extra_length(cs, axis, j), remaining - 1);
        } else {
            assert forall|i: int| 0 <= i < n && i != s implies #[trigger] fin[i] by {
                assert(cs[i].spec_size_policy(axis) == SizingBehaviour::Fixed);
                cs[i].lemma_length_bounds(axis);
                lemma_first_fit_none(cs, axis, fin, share, 0, i);
            }
            lemma_count_open_all_but(fin, s, n);
            if !fin[s] {
                assert(remaining == 1);
                assert(available / 1 == available);
                assert(available % 1 == 0);
            }
        }
    }
}

proof fn lemma_count_open_positive(fin: Seq<bool>, s: int, k: int)
    requires
        0 <= s < k <= fin.len(),
        !fin[s],
    ensures
        count_open(fin, k) >= 1,
    decreases k,
{
    if k - 1 > s {
        lemma_count_open_positive(fin, s, k - 1);
    } else {
        lemma_count_open_nonneg(fin, k - 1);
    }
}

proof fn lemma_count_open_nonneg(fin: Seq<bool>, k: int)
    ensures
        count_open(fin, k) >= 0,
    decreases k,
{
    if k > 0 {
        lemma_count_open_nonneg(fin, k - 1);
    }
}

proof fn lemma_prefix_sum_bumped(cs: Seq<LayoutConstraints>, axis: Axis, lengths: Seq<int>, s: int, extra: int, k: int)
    requires
        0 <= k <= cs.len() <= lengths.len(),
        forall|i: int|
            0 <= i < k ==> #[trigger] lengths[i] == cs[i].spec_min_length(axis) + if i == s {
                extra
            } else {
                0
            },
    ensures
        prefix_sum(lengths, k) == sum_min_lengths(cs, axis, k) + if 0 <= s < k {
            extra
        } else {
            0
        },
    decreases k,
{
    if k > 0 {
        lemma_prefix_sum_bumped(cs, axis, lengths, s, extra, k - 1);
    }
}

/// When every sibling but one is fixed and the remaining one has room for all
/// the spare length, that one takes all of it, the fixed siblings keep their
/// preferred lengths, and the last sibling's trailing margin ends exactly at
/// the end of the available length.
pub proof fn lemma_flexible_sibling_absorbs_slack(cs: Seq<LayoutConstraints>, axis: Axis, available_length: int, s: int)
    requires
        0 <= s < cs.len(),
        forall|i: int| 0 <= i < cs.len() && i != s ==> #[trigger] cs[i].spec_size_policy(axis) == SizingBehaviour::Fixed,
        main_slack(cs, axis, available_length) >= 0,
        extra_length(cs, axis, s) >= main_slack(cs, axis, available_length),
    ensures
        main_lengths(cs, axis, available_length)[s] == cs[s].spec_min_length(axis) + main_slack(cs, axis, available_length),
        forall|i: int|
            0 <= i < cs.len() && i != s ==> #[trigger] main_lengths(cs, axis, available_length)[i]
                == cs[i].spec_preferred_length(axis),
        forall|start: int|
            #[trigger] main_position(cs, axis, start, main_lengths(cs, axis, available_length), cs.len() - 1)
                + main_lengths(cs, axis, available_length)[cs.len() - 1] + cs[cs.len() - 1].margin.spec_trailing(axis)
                == start + available_length,
{
    let n = cs.len() as int;
    let slack = main_slack(cs, axis, available_length);
    lemma_count_open_none(n, n);
    lemma_absorb_step(cs, axis, s, slack, none_finalized(n), slack, n);
    lemma_main_lengths_clamped(cs, axis, available_length);
    let d = distribute(cs, axis, none_finalized(n), slack, n);
    lemma_count_open_nonneg(d.0, s);
    assert(main_lengths(cs, axis, available_length)[s] == if d.0[s] {
        cs[s].spec_max_length(axis)
    } else {
        cs[s].spec_min_length(axis) + even_share(d.1, d.2) + if count_open(d.0, s) < share_remainder(d.1, d.2) {
            1int
        } else {
            0int
        }
    });
    assert forall|i: int| 0 <= i < cs.len() && i != s implies #[trigger] main_lengths(cs, axis, available_length)[i]
        == cs[i].spec_preferred_length(axis) by {
        assert(cs[i].spec_size_policy(axis) == SizingBehaviour::Fixed);
    }
    let lengths = main_lengths(cs, axis, available_length);
    assert forall|i: int| 0 <= i < n implies #[trigger] lengths[i] == cs[i].spec_min_length(axis) + if i == s {
        slack
    } else {
        0
    } by {
        if i != s {
            assert(cs[i].spec_size_policy(axis) == SizingBehaviour::Fixed);
        }
    }
    lemma_prefix_sum_bumped(cs, axis, lengths, s, slack, n);
    assert forall|start: int| #[trigger] main_position(cs, axis, start, lengths, n - 1) + lengths[n - 1]
        + cs[n - 1].margin.spec_trailing(axis) == start + available_length by {
        lemma_main_position_sum(cs, axis, start, lengths, n - 1);
    }

}

} // verus!

verus! {

/// Aggregated lengths of a run of children, before the parent's padding.
#[derive(Debug, Clone, Copy, PartialEq, Eq, Structural)]
pub struct ChildrenMeasurement {
    pub min_main: i64,
    pub preferred_main: i64,
    pub min_cross: i64,
    pub preferred_cross: i64,
}

/// Largest cross-axis length plus margins among the first `k` children, using
/// the minimum (or preferred) lengths; zero for none.
pub open spec fn cross_extent(cs: Seq<LayoutConstraints>, axis: Axis, k: int, preferred: bool) -> int
    decreases k,
{
    if k <= 0 {
        0
    } else {
        let len = if preferred {
            cs[k - 1].spec_preferred_length(axis)
        } else {
            cs[k - 1].spec_min_length(axis)
        };
        max_int(cross_extent(cs, axis, k - 1, preferred), len + cs[k - 1].margin.spec_axis_sum(axis))
    }
}

/// Measures children laid out along `main_axis`: along it, the sum of their
/// lengths and collapsed margins; across it, the largest length plus margins.
pub fn measure_children_linear(main_axis: Axis, children: &Vec<LayoutConstraints>) -> (r: ChildrenMeasurement)
    requires
        children.len() <= MAX_CHILDREN,
    ensures
        r.min_main == collapsed_margins(children@, main_axis) + sum_min_lengths(children@, main_axis, children.len() as int),
        r.preferred_main == collapsed_margins(children@, main_axis) + sum_preferred_lengths(
            children@,
            main_axis,
            children.len() as int,
        ),
        r.min_cross == cross_extent(children@, main_axis.spec_opposite(), children.len() as int, false),
        r.preferred_cross == cross_extent(children@, main_axis.spec_opposite(), children.len() as int, true),
        0 <= r.min_main <= 0x100_0000_0000_0000,
        0 <= r.preferred_main <= 0x100_0000_0000_0000,
        0 <= r.min_cross <= 0x100_0000_0000_0000,
        0 <= r.preferred_cross <= 0x100_0000_0000_0000,
{
    let cross_axis = main_axis.opposite();
    let n = children.len();
    let min_main = margins_and_min_lengths(main_axis, children);
    let mut preferred_sum: i64 = 0;
    let mut min_cross: i64 = 0;
    let mut preferred_cross: i64 = 0;
    let mut i: usize = 0;
    while i < n
        invariant
            i <= n == children.len() <= MAX_CHILDREN,
            cross_axis == main_axis.spec_opposite(),
            0 <= preferred_sum <= i * 0x2_0000_0000,
            preferred_sum == sum_preferred_lengths(children@, main_axis, i as int),
            0 <= min_cross <= 0x4_0000_0000,
            0 <= preferred_cross <= 0x4_0000_0000,
            min_cross == cross_extent(children@, cross_axis, i as int, false),
            preferred_cross == cross_extent(children@, cross_axis, i as int, true),
        decreases n - i,
    {
        let c = &children[i];
        proof {
            c.lemma_length_bounds(main_axis);
            c.lemma_length_bounds(cross_axis);
        }
        preferred_sum = preferred_sum + c.preferred_length(main_axis);
        let margin = c.margin.axis_sum(cross_axis);
        let lo = c.min_length(cross_axis) + margin;
        let pref = c.preferred_length(cross_axis) + margin;
        if lo > min_cross {
            min_cross = lo;
        }
        if pref > preferred_cross {
            preferred_cross = pref;
        }
        i = i + 1;
    }
    let margins = min_main - if n == 0 { 0 } else { sum_min_only(main_axis, children) };
    ChildrenMeasurement {
        min_main,
        preferred_main: margins + preferred_sum,
        min_cross,
        preferred_cross,
    }
}

fn sum_min_only(axis: Axis, cs: &Vec<LayoutConstraints>) -> (r: i64)
    requires
        cs.len() <= MAX_CHILDREN,
    ensures
        r == sum_min_lengths(cs@, axis, cs.len() as int),
        0 <= r <= cs.len() * 0x2_0000_0000,
{
    let mut total: i64 = 0;
    let mut i: usize = 0;
    while i < cs.len()
        invariant
            i <= cs.len() <= MAX_CHILDREN,
            total == sum_min_lengths(cs@, axis, i as int),
            0 <= total <= i * 0x2_0000_0000,
        decreases cs.len() - i,
    {
        proof {
            cs@[i as int].lemma_length_bounds(axis);
        }
        total = total + cs[i].min_length(axis);
        i = i + 1;
    }
    total
}

/// `v` as a length parameter: capped at `UNBOUNDED`.
pub open spec fn saturate(v: int) -> u32 {
    if v <= 0 {
        0
    } else if v >= UNBOUNDED {
        UNBOUNDED
    } else {
        v as u32
    }
}

fn saturate_exec(v: i64) -> (r: u32)
    ensures
        r == saturate(v as int),
{
    if v <= 0 {
        0
    } else if v >= UNBOUNDED as i64 {
        UNBOUNDED
    } else {
        v as u32
    }
}

} // verus!

verus! {

impl LayoutConstraints {
    /// The length along `axis` that a measurement of the children asks for,
    /// padding included.
    pub open spec fn measured_length(self, m: ChildrenMeasurement, axis: Axis, preferred: bool) -> u32 {
        let main = self.layout_axis.spec_value();
        let children = if axis == main {
            if preferred {
                m.preferred_main
            } else {
                m.min_main
            }
        } else {
            if preferred {
                m.preferred_cross
            } else {
                m.min_cross
            }
        };
        saturate(children + self.padding.spec_axis_sum(axis))
    }

    /// The constraints after the children's measurement was applied as defaults.
    pub open spec fn with_children_measurement(self, m: ChildrenMeasurement) -> LayoutConstraints {
        LayoutConstraints {
            min_width: self.min_width.with_default(self.measured_length(m, Axis::Horizontal, false)),
            min_height: self.min_height.with_default(self.measured_length(m, Axis::Vertical, false)),
            preferred_width: self.preferred_width.with_default(self.measured_length(m, Axis::Horizontal, true)),
            preferred_height: self.preferred_height.with_default(self.measured_length(m, Axis::Vertical, true)),
            ..self
        }
    }

    /// Where nothing was set explicitly, takes the minimum and preferred lengths
    /// from the children's measurement plus this widget's padding.
    pub fn apply_children_measurement(&mut self, m: &ChildrenMeasurement)
        requires
            0 <= m.min_main <= 0x100_0000_0000_0000,
            0 <= m.preferred_main <= 0x100_0000_0000_0000,
            0 <= m.min_cross <= 0x100_0000_0000_0000,
            0 <= m.preferred_cross <= 0x100_0000_0000_0000,
        ensures
            *final(self) == old(self).with_children_measurement(*m),
    {
        let main = self.layout_axis.get();
        let (min_h, pref_h, min_v, pref_v) = match main {
            Axis::Horizontal => (m.min_main, m.preferred_main, m.min_cross, m.preferred_cross),
            Axis::Vertical => (m.min_cross, m.preferred_cross, m.min_main, m.preferred_main),
        };
        let pad_h = self.padding.axis_sum(Axis::Horizontal);
        let pad_v = self.padding.axis_sum(Axis::Vertical);
        self.min_width.set_default(saturate_exec(min_h + pad_h));
        self.min_height.set_default(saturate_exec(min_v + pad_v));
        self.preferred_width.set_default(saturate_exec(pref_h + pad_h));
        self.preferred_height.set_default(saturate_exec(pref_v + pad_v));
    }
}

} // verus!

verus! {

impl BoxLengths {
    /// Explicitly writes both edges across `axis` (first explicit write wins).
    pub fn set_axis(&mut self, axis: Axis, value: u32)
        ensures
            *final(self) == match axis {
                Axis::Horizontal => BoxLengths {
                    left: old(self).left.with_explicit(value),
                    right: old(self).right.with_explicit(value),
                    ..*old(self)
                },
                Axis::Vertical => BoxLengths {
                    top: old(self).top.with_explicit(value),
                    bottom: old(self).bottom.with_explicit(value),
                    ..*old(self)
                },
            },
    {
        match axis {
            Axis::Horizontal => self.set_horizontal(value),
            Axis::Vertical => self.set_vertical(value),
        }
    }

    pub fn horizontal_sum(&self) -> (r: i64)
        ensures
            r == self.spec_axis_sum(Axis::Horizontal),
    {
        self.axis_sum(Axis::Horizontal)
    }

    pub fn vertical_sum(&self) -> (r: i64)
        ensures
            r == self.spec_axis_sum(Axis::Vertical),
    {
        self.axis_sum(Axis::Vertical)
    }
}

impl LayoutConstraints {
    /// Fixes the width: explicit minimum and maximum both `width`, where not
    /// written explicitly before.
    pub fn set_width(&mut self, width: u32)
        ensures
            final(self).min_width == old(self).min_width.with_explicit(width),
            final(self).max_width == old(self).max_width.with_explicit(width),
            final(self).min_height == old(self).min_height,
            final(self).max_height == old(self).max_height,
            final(self).preferred_width == old(self).preferred_width,
            final(self).preferred_height == old(self).preferred_height,
            final(self).margin == old(self).margin,
            final(self).padding == old(self).padding,
            final(self).horizontal_size_policy == old(self).horizontal_size_policy,
            final(self).vertical_size_policy == old(self).vertical_size_policy,
            final(self).layout_axis == old(self).layout_axis,
            final(self).content_alignment == old(self).content_alignment,
            final(self).self_alignment == old(self).self_alignment,
    {
        self.min_width.set(width);
        self.max_width.set(width);
    }

    /// Fixes the height: explicit minimum and maximum both `height`, where not
    /// written explicitly before.
    pub fn set_height(&mut self, height: u32)
        ensures
            final(self).min_height == old(self).min_height.with_explicit(height),
            final(self).max_height == old(self).max_height.with_explicit(height),
            final(self).min_width == old(self).min_width,
            final(self).max_width == old(self).max_width,
            final(self).preferred_width == old(self).preferred_width,
            final(self).preferred_height == old(self).preferred_height,
            final(self).margin == old(self).margin,
            final(self).padding == old(self).padding,
            final(self).horizontal_size_policy == old(self).horizontal_size_policy,
            final(self).vertical_size_policy == old(self).vertical_size_policy,
            final(self).layout_axis == old(self).layout_axis,
            final(self).content_alignment == old(self).content_alignment,
            final(self).self_alignment == old(self).self_alignment,
    {
        self.min_height.set(height);
        self.max_height.set(height);
    }

    /// Fixes both width and height.
    pub fn set_size(&mut self, width: u32, height: u32)
        ensures
            final(self).min_width == old(self).min_width.with_explicit(width),
            final(self).max_width == old(self).max_width.with_explicit(width),
            final(self).min_height == old(self).min_height.with_explicit(height),
            final(self).max_height == old(self).max_height.with_explicit(height),
            final(self).preferred_width == old(self).preferred_width,
            final(self).preferred_height == old(self).preferred_height,
            final(self).margin == old(self).margin,
            final(self).padding == old(self).padding,
            final(self).horizontal_size_policy == old(self).horizontal_size_policy,
            final(self).vertical_size_policy == old(self).vertical_size_policy,
    {
        self.set_width(width);
        self.set_height(height);
    }

    /// Explicitly writes the size policy of both axes (first explicit write wins).
    pub fn set_size_policy(&mut self, policy: SizingBehaviour)
        ensures
            *final(self) == (LayoutConstraints {
                horizontal_size_policy: final(self).horizontal_size_policy,
                vertical_size_policy: final(self).vertical_size_policy,
                ..*old(self)
            }),
            final(self).horizontal_size_policy == old(self).horizontal_size_policy.with_explicit(policy),
            final(self).vertical_size_policy == old(self).vertical_size_policy.with_explicit(policy),
    {
        self.horizontal_size_policy.set(policy);
        self.vertical_size_policy.set(policy);
    }

    pub fn preferred_length_mut(&mut self, axis: Axis) -> (r: &mut WidgetParameter<u32>)
        ensures
            *r == match axis {
                Axis::Horizontal => old(self).preferred_width,
                Axis::Vertical => old(self).preferred_height,
            },
            *final(self) == match axis {
                Axis::Horizontal => LayoutConstraints { preferred_width: *final(r), ..*old(self) },
                Axis::Vertical => LayoutConstraints { preferred_height: *final(r), ..*old(self) },
            },
    {
        match axis {
            Axis::Horizontal => &mut self.preferred_width,
            Axis::Vertical => &mut self.preferred_height,
        }
    }

    pub fn max_length_mut(&mut self, axis: Axis) -> (r: &mut WidgetParameter<u32>)
        ensures
            *r == match axis {
                Axis::Horizontal => old(self).max_width,
                Axis::Vertical => old(self).max_height,
            },
            *final(self) == match axis {
                Axis::Horizontal => LayoutConstraints { max_width: *final(r), ..*old(self) },
                Axis::Vertical => LayoutConstraints { max_height: *final(r), ..*old(self) },
            },
    {
        match axis {
            Axis::Horizontal => &mut self.max_width,
            Axis::Vertical => &mut self.max_height,
        }
    }

    pub fn size_policy_mut(&mut self, axis: Axis) -> (r: &mut WidgetParameter<SizingBehaviour>)
        ensures
            *r == match axis {
                Axis::Horizontal => old(self).horizontal_size_policy,
                Axis::Vertical => old(self).vertical_size_policy,
            },
            *final(self) == match axis {
                Axis::Horizontal => LayoutConstraints { horizontal_size_policy: *final(r), ..*old(self) },
                Axis::Vertical => LayoutConstraints { vertical_size_policy: *final(r), ..*old(self) },
            },
    {
        match axis {
            Axis::Horizontal => &mut self.horizontal_size_policy,
            Axis::Vertical => &mut self.vertical_size_policy,
        }
    }
}

} // verus!

verus! {

/// Sum of the room to grow of the first `k` siblings that are finalized.
pub open spec fn finalized_extra(cs: Seq<LayoutConstraints>, axis: Axis, fin: Seq<bool>, k: int) -> int
    decreases k,
{
    if k <= 0 {
        0
    } else {
        finalized_extra(cs, axis, fin, k - 1) + if fin[k - 1] {
            extra_length(cs, axis, k - 1)
        } else {
            0
        }
    }
}

proof fn lemma_finalized_extra_update(cs: Seq<LayoutConstraints>, axis: Axis, fin: Seq<bool>, j: int, k: int)
    requires
        0 <= j < fin.len(),
        0 <= k <= fin.len(),
        !fin[j],
    ensures
        finalized_extra(cs, axis, fin.update(j, true), k) == finalized_extra(cs, axis, fin, k) + if j < k {
            extra_length(cs, axis, j)
        } else {
            0
        },
    decreases k,
{
    if k > 0 {
        lemma_finalized_extra_update(cs, axis, fin, j, k - 1);
    }
}

/// Freezing moves room from the spare length into the finalized siblings, and
/// the number of open siblings follows the count of those not finalized.
proof fn lemma_distribute_conserves(cs: Seq<LayoutConstraints>, axis: Axis, fin: Seq<bool>, available: int, remaining: int)
    requires
        fin.len() == cs.len(),
        remaining >= 0,
        count_open(fin, cs.len() as int) == remaining,
    ensures
        ({
            let d = distribute(cs, axis, fin, available, remaining);
            &&& d.1 + finalized_extra(cs, axis, d.0, cs.len() as int) == available + finalized_extra(
                cs,
                axis,
                fin,
                cs.len() as int,
            )
            &&& count_open(d.0, cs.len() as int) == d.2
            &&& d.2 >= 0
        }),
    decreases remaining,
{
    if remaining > 0 {
        let share = even_share(available, remaining);
        let j = first_fit(cs, axis, fin, share, 0);
        lemma_first_fit(cs, axis, fin, share, 0);
        if j < cs.len() {
            lemma_finalized_extra_update(cs, axis, fin, j, cs.len() as int);
            lemma_count_open_update(fin, j, cs.len() as int);
            lemma_distribute_conserves(cs, axis, fin.update(j, true), available - extra_length(cs, axis, j), remaining - 1);
        }
    }
}

proof fn lemma_lengths_prefix(cs: Seq<LayoutConstraints>, axis: Axis, available_length: int, k: int)
    requires
        0 <= k <= cs.len(),
    ensures
        ({
            let n = cs.len() as int;
            let d = distribute(cs, axis, none_finalized(n), main_slack(cs, axis, available_length), n);
            let share = even_share(d.1, d.2);
            let extra = share_remainder(d.1, d.2);
            let c = count_open(d.0, k);
            prefix_sum(main_lengths(cs, axis, available_length), k) == sum_min_lengths(cs, axis, k) + finalized_extra(
                cs,
                axis,
                d.0,
                k,
            ) + share * c + min_int(c, extra)
        }),
    decreases k,
{
    if k > 0 {
        lemma_lengths_prefix(cs, axis, available_length, k - 1);
        let n = cs.len() as int;
        let d = distribute(cs, axis, none_finalized(n), main_slack(cs, axis, available_length), n);
        let share = even_share(d.1, d.2);
        let c = count_open(d.0, k - 1);
        assert(share * (c + 1) == share * c + share) by (nonlinear_arith);
    }
}

/// Slack is never wasted: when some sibling ends below its maximum and the
/// spare length is not negative, the lengths add up to the minimum lengths plus
/// all of the spare length, so the group fills the available length exactly.
pub proof fn lemma_slack_fully_used(cs: Seq<LayoutConstraints>, axis: Axis, available_length: int)
    requires
        main_slack(cs, axis, available_length) >= 0,
        exists|i: int|
            0 <= i < cs.len() && #[trigger] main_lengths(cs, axis, available_length)[i] < cs[i].spec_max_length(axis),
    ensures
        prefix_sum(main_lengths(cs, axis, available_length), cs.len() as int) == sum_min_lengths(
            cs,
            axis,
            cs.len() as int,
        ) + main_slack(cs, axis, available_length),
{
    let n = cs.len() as int;
    let slack = main_slack(cs, axis, available_length);
    let d = distribute(cs, axis, none_finalized(n), slack, n);
    lemma_count_open_none(n, n);
    lemma_distribute_conserves(cs, axis, none_finalized(n), slack, n);
    lemma_distribute(cs, axis, none_finalized(n), slack, n);
    assert(finalized_extra(cs, axis, none_finalized(n), n) == 0) by {
        lemma_finalized_extra_none(cs, axis, n, n);
    }
    lemma_lengths_prefix(cs, axis, available_length, n);
    let i = choose|i: int| 0 <= i < cs.len() && #[trigger] main_lengths(cs, axis, available_length)[i] < cs[i].spec_max_length(axis);
    // that sibling is still open, so some sibling is open
    assert(!d.0[i]);
    lemma_count_open_positive(d.0, i, n);
    let share = even_share(d.1, d.2);
    let extra = share_remainder(d.1, d.2);
    assert(d.1 >= 0);
    assert(share * d.2 + extra == d.1 && extra < d.2) by (nonlinear_arith)
        requires
            d.2 > 0,
            d.1 >= 0,
            share == even_share(d.1, d.2),
            extra == share_remainder(d.1, d.2),
    ;
}

proof fn lemma_finalized_extra_none(cs: Seq<LayoutConstraints>, axis: Axis, n: int, k: int)
    requires
        0 <= k <= n,
    ensures
        finalized_extra(cs, axis, none_finalized(n), k) == 0,
    decreases k,
{
    if k > 0 {
        lemma_finalized_extra_none(cs, axis, n, k - 1);
    }
}

} // verus!
