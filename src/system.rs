use vstd::prelude::*;

use std::collections::HashMap;
use vstd::std_specs::iter::IteratorSpec;

use crate::hierarchy::{Hierarchy, HierarchyError, HierarchyView, NodeUpdateStatus, WidgetId, WidgetIdFragment};
use crate::input::{Input, InputBehaviour};
use crate::viewport::Viewport;
use crate::layout::{
    collapsed_margins, cross_extent, layout_children_linear, measure_children_linear, sibling_layout,
    sum_min_lengths, sum_preferred_lengths, Align, Axis, ChildrenMeasurement, Layout, LayoutConstraints, Rect, Vec2,
    MAX_CHILDREN, MAX_COORD,
};

verus! {

broadcast use vstd::std_specs::hash::group_hash_axioms;

/// The constraints recorded for `id`, or the defaults.
pub open spec fn constraints_of(m: Map<u64, LayoutConstraints>, id: WidgetId) -> LayoutConstraints {
    if m.contains_key(id.0) {
        m[id.0]
    } else {
        LayoutConstraints::spec_new()
    }
}

/// The constraints of each of `children`, in order.
pub open spec fn children_constraints(m: Map<u64, LayoutConstraints>, children: Seq<WidgetId>) -> Seq<LayoutConstraints> {
    Seq::new(children.len(), |j: int| constraints_of(m, children[j]))
}

/// What `measure_children_linear` returns for `cs` along `axis`.
pub open spec fn measurement_of(axis: Axis, cs: Seq<LayoutConstraints>) -> ChildrenMeasurement {
    ChildrenMeasurement {
        min_main: (collapsed_margins(cs, axis) + sum_min_lengths(cs, axis, cs.len() as int)) as i64,
        preferred_main: (collapsed_margins(cs, axis) + sum_preferred_lengths(cs, axis, cs.len() as int)) as i64,
        min_cross: cross_extent(cs, axis.spec_opposite(), cs.len() as int, false) as i64,
        preferred_cross: cross_extent(cs, axis.spec_opposite(), cs.len() as int, true) as i64,
    }
}

/// A widget's own constraints completed from its children's: where it set
/// nothing itself, its minimum and preferred lengths come from theirs.
pub open spec fn configured(own: LayoutConstraints, children: Seq<LayoutConstraints>) -> LayoutConstraints {
    if children.len() == 0 {
        own
    } else {
        own.with_children_measurement(measurement_of(own.layout_axis.spec_value(), children))
    }
}

/// The configure pass over the first `k` widgets of `order` (leaves first):
/// each one's constraints from its own and its children's, already done.
pub open spec fn configure_fold(h: HierarchyView, own: Map<u64, LayoutConstraints>, order: Seq<WidgetId>, k: int) -> Map<
    u64,
    LayoutConstraints,
>
    decreases k,
{
    if k <= 0 {
        Map::empty()
    } else {
        let m = configure_fold(h, own, order, k - 1);
        let id = order[k - 1];
        m.insert(id.0, configured(constraints_of(own, id), children_constraints(m, h.children_of(id))))
    }
}

/// `r` moved into the coordinate range the solver accepts, corners ordered.
pub open spec fn clamp_rect(r: Rect) -> Rect {
    let lo_x = if r.min.x < -MAX_COORD { (-MAX_COORD) as i64 } else if r.min.x > MAX_COORD { MAX_COORD } else { r.min.x };
    let lo_y = if r.min.y < -MAX_COORD { (-MAX_COORD) as i64 } else if r.min.y > MAX_COORD { MAX_COORD } else { r.min.y };
    let hi_x = if r.max.x < lo_x { lo_x } else if r.max.x > MAX_COORD { MAX_COORD } else { r.max.x };
    let hi_y = if r.max.y < lo_y { lo_y } else if r.max.y > MAX_COORD { MAX_COORD } else { r.max.y };
    Rect { min: Vec2 { x: lo_x, y: lo_y }, max: Vec2 { x: hi_x, y: hi_y } }
}

pub fn clamp_rect_exec(r: Rect) -> (c: Rect)
    ensures
        c == clamp_rect(r),
        c.in_range(),
{
    let lo_x = if r.min.x < -MAX_COORD { -MAX_COORD } else if r.min.x > MAX_COORD { MAX_COORD } else { r.min.x };
    let lo_y = if r.min.y < -MAX_COORD { -MAX_COORD } else if r.min.y > MAX_COORD { MAX_COORD } else { r.min.y };
    let hi_x = if r.max.x < lo_x { lo_x } else if r.max.x > MAX_COORD { MAX_COORD } else { r.max.x };
    let hi_y = if r.max.y < lo_y { lo_y } else if r.max.y > MAX_COORD { MAX_COORD } else { r.max.y };
    Rect { min: Vec2 { x: lo_x, y: lo_y }, max: Vec2 { x: hi_x, y: hi_y } }
}

fn constraints_lookup(m: &HashMap<u64, LayoutConstraints>, id: WidgetId) -> (r: LayoutConstraints)
    ensures
        r == constraints_of(m@, id),
{
    match m.get(&id.0) {
        Some(c) => *c,
        None => LayoutConstraints::new(),
    }
}

/// The constraints of `children` from `m`.
pub fn gather_constraints(m: &HashMap<u64, LayoutConstraints>, children: &[WidgetId]) -> (r: Vec<LayoutConstraints>)
    ensures
        r@ == children_constraints(m@, children@),
{
    let mut out: Vec<LayoutConstraints> = Vec::new();
    let mut j: usize = 0;
    while j < children.len()
        invariant
            j <= children.len(),
            out@ == children_constraints(m@, children@).take(j as int),
        decreases children.len() - j,
    {
        out.push(constraints_lookup(m, children[j]));
        assert(children_constraints(m@, children@).take(j as int + 1) =~= children_constraints(m@, children@).take(
            j as int,
        ).push(constraints_of(m@, children@[j as int])));
        j = j + 1;
    }
    assert(children_constraints(m@, children@).take(children.len() as int) =~= children_constraints(m@, children@));
    out
}

/// Completes `own` from the constraints of its children.
pub fn configure_widget(own: LayoutConstraints, children: &Vec<LayoutConstraints>) -> (r: LayoutConstraints)
    requires
        children.len() <= MAX_CHILDREN,
    ensures
        r == configured(own, children@),
{
    let mut c = own;
    if children.len() > 0 {
        let m = measure_children_linear(c.layout_axis.get(), children);
        c.apply_children_measurement(&m);
    }
    c
}

/// The bottom-up configure pass: in leaves-first order, every widget's
/// constraints are its own (`own`, defaults where missing) completed from
/// those of its children.
pub fn configure_widgets(hierarchy: &Hierarchy, own: &HashMap<u64, LayoutConstraints>) -> (r: HashMap<
    u64,
    LayoutConstraints,
>)
    requires
        hierarchy@.wf(),
    ensures
        r@ == configure_fold(hierarchy@, own@, hierarchy@.leaves_first(), hierarchy@.leaves_first().len() as int),
{
    let order = hierarchy.visit_leaves_first();
    let mut out: HashMap<u64, LayoutConstraints> = HashMap::new();
    assert(out@ =~= Map::empty());
    let mut i: usize = 0;
    while i < order.len()
        invariant
            i <= order.len(),
            order@ == hierarchy@.leaves_first(),
            hierarchy@.wf(),
            out@ == configure_fold(hierarchy@, own@, order@, i as int),
        decreases order.len() - i,
    {
        let id = order[i];
        let children = hierarchy.children(Some(id));
        assert(children@.len() <= MAX_CHILDREN) by {
            if hierarchy@.nodes.contains_key(id.0) {
                assert(hierarchy@.nodes[id.0].wf());
            }
        }
        let kids = gather_constraints(&out, children);
        let c = configure_widget(constraints_lookup(own, id), &kids);
        out.insert(id.0, c);
        i = i + 1;
    }
    out
}

} // verus!

verus! {

pub open spec fn spec_rect_intersects(lhs: Rect, rhs: Rect) -> bool {
    !(lhs.min.x > rhs.max.x || lhs.min.y > rhs.max.y || lhs.max.x < rhs.min.x || lhs.max.y < rhs.min.y)
}

/// Whether the rectangles overlap, edges included.
pub fn rect_intersects(lhs: &Rect, rhs: &Rect) -> (r: bool)
    ensures
        r == spec_rect_intersects(*lhs, *rhs),
{
    !(lhs.min.x > rhs.max.x || lhs.min.y > rhs.max.y || lhs.max.x < rhs.min.x || lhs.max.y < rhs.min.y)
}

pub open spec fn spec_clip_rects(lhs: Rect, rhs: Rect) -> Rect {
    Rect {
        min: Vec2 {
            x: if lhs.min.x >= rhs.min.x { lhs.min.x } else { rhs.min.x },
            y: if lhs.min.y >= rhs.min.y { lhs.min.y } else { rhs.min.y },
        },
        max: Vec2 {
            x: if lhs.max.x <= rhs.max.x { lhs.max.x } else { rhs.max.x },
            y: if lhs.max.y <= rhs.max.y { lhs.max.y } else { rhs.max.y },
        },
    }
}

/// The intersection of two rectangles (corners crossed when they are disjoint).
pub fn clip_rects(lhs: &Rect, rhs: &Rect) -> (r: Rect)
    ensures
        r == spec_clip_rects(*lhs, *rhs),
{
    Rect {
        min: Vec2 {
            x: if lhs.min.x >= rhs.min.x { lhs.min.x } else { rhs.min.x },
            y: if lhs.min.y >= rhs.min.y { lhs.min.y } else { rhs.min.y },
        },
        max: Vec2 {
            x: if lhs.max.x <= rhs.max.x { lhs.max.x } else { rhs.max.x },
            y: if lhs.max.y <= rhs.max.y { lhs.max.y } else { rhs.max.y },
        },
    }
}

/// The root's first `k` children, each laid out alone, horizontally, at the
/// start of `available`.
pub open spec fn root_fold(h: HierarchyView, cs: Map<u64, LayoutConstraints>, available: Rect, k: int) -> Map<u64, Layout>
    decreases k,
{
    if k <= 0 {
        Map::empty()
    } else {
        let id = h.root.children[k - 1];
        root_fold(h, cs, available, k - 1).insert(
            id.0,
            sibling_layout(seq![constraints_of(cs, id)], Axis::Horizontal, Align::Start, clamp_rect(available), 0),
        )
    }
}

/// `m` with the first `j` of `children` given their layouts in the group.
pub open spec fn group_fold(
    m: Map<u64, Layout>,
    children: Seq<WidgetId>,
    kids: Seq<LayoutConstraints>,
    axis: Axis,
    align: Align,
    available: Rect,
    j: int,
) -> Map<u64, Layout>
    decreases j,
{
    if j <= 0 {
        m
    } else {
        group_fold(m, children, kids, axis, align, available, j - 1).insert(
            children[j - 1].0,
            sibling_layout(kids, axis, align, available, j - 1),
        )
    }
}

/// Arranges the children of `id` inside its content box, once `id` has a layout.
pub open spec fn arrange_step(h: HierarchyView, cs: Map<u64, LayoutConstraints>, m: Map<u64, Layout>, id: WidgetId) -> Map<
    u64,
    Layout,
> {
    let children = h.children_of(id);
    if m.contains_key(id.0) {
        let c = constraints_of(cs, id);
        group_fold(
            m,
            children,
            children_constraints(cs, children),
            c.layout_axis.spec_value(),
            c.content_alignment.spec_value(),
            clamp_rect(m[id.0].content_bounds),
            children.len() as int,
        )
    } else {
        m
    }
}

/// The top-down arrange pass over the first `k` widgets of `order`.
pub open spec fn arrange_fold(
    h: HierarchyView,
    cs: Map<u64, LayoutConstraints>,
    order: Seq<WidgetId>,
    k: int,
    init: Map<u64, Layout>,
) -> Map<u64, Layout>
    decreases k,
{
    if k <= 0 {
        init
    } else {
        arrange_step(h, cs, arrange_fold(h, cs, order, k - 1, init), order[k - 1])
    }
}

/// The clip inherited by `id`: its parent's propagated clip; none under the root.
pub open spec fn parent_clip(h: HierarchyView, clips: Map<u64, Rect>, id: WidgetId) -> Option<Rect> {
    if h.nodes.contains_key(id.0) {
        match h.nodes[id.0].parent_id {
            Some(p) => if clips.contains_key(p.0) {
                Some(clips[p.0])
            } else {
                None
            },
            None => None,
        }
    } else {
        None
    }
}

/// Records the inherited clip of `id` and propagates its box clipped by it.
pub open spec fn clip_step(h: HierarchyView, state: (Map<u64, Layout>, Map<u64, Rect>), id: WidgetId) -> (
    Map<u64, Layout>,
    Map<u64, Rect>,
) {
    let (layouts, clips) = state;
    if layouts.contains_key(id.0) {
        let inherited = parent_clip(h, clips, id);
        let l = layouts[id.0];
        let own = match inherited {
            Some(pc) => spec_clip_rects(l.box_bounds, pc),
            None => l.box_bounds,
        };
        (layouts.insert(id.0, Layout { clip_rect: inherited, ..l }), clips.insert(id.0, own))
    } else {
        state
    }
}

pub open spec fn clip_fold(h: HierarchyView, order: Seq<WidgetId>, k: int, layouts: Map<u64, Layout>) -> (
    Map<u64, Layout>,
    Map<u64, Rect>,
)
    decreases k,
{
    if k <= 0 {
        (layouts, Map::empty())
    } else {
        clip_step(h, clip_fold(h, order, k - 1, layouts), order[k - 1])
    }
}

/// The layouts of a whole frame: root children first, then each widget's
/// children inside its content box, breadth-first, then the clip rectangles.
pub open spec fn frame_layouts(h: HierarchyView, cs: Map<u64, LayoutConstraints>, available: Rect) -> Map<u64, Layout> {
    let order = h.breadth_first(Set::empty());
    let roots = root_fold(h, cs, available, h.root.children.len() as int);
    let arranged = arrange_fold(h, cs, order, order.len() as int, roots);
    clip_fold(h, order, order.len() as int, arranged).0
}

} // verus!

verus! {

fn arrange_children(
    hierarchy: &Hierarchy,
    constraints: &HashMap<u64, LayoutConstraints>,
    layouts: &mut HashMap<u64, Layout>,
    id: WidgetId,
)
    requires
        hierarchy@.wf(),
    ensures
        final(layouts)@ == arrange_step(hierarchy@, constraints@, old(layouts)@, id),
{
    let content = match layouts.get(&id.0) {
        Some(l) => l.content_bounds,
        None => {
            return;
        },
    };
    let children = hierarchy.children(Some(id));
    assert(children@.len() <= MAX_CHILDREN) by {
        if hierarchy@.nodes.contains_key(id.0) {
            assert(hierarchy@.nodes[id.0].wf());
        }
    }
    let c = constraints_lookup(constraints, id);
    let kids = gather_constraints(constraints, children);
    let available = clamp_rect_exec(content);
    let axis = c.layout_axis.get();
    let align = c.content_alignment.get();
    let placed = layout_children_linear(available, axis, align, &kids);
    let ghost m0 = layouts@;
    let mut j: usize = 0;
    while j < children.len()
        invariant
            j <= children.len() <= MAX_CHILDREN,
            placed.len() == children.len(),
            kids@ == children_constraints(constraints@, children@),
            forall|k: int| 0 <= k < placed.len() ==> placed[k] == #[trigger] sibling_layout(kids@, axis, align, available, k),
            layouts@ == group_fold(m0, children@, kids@, axis, align, available, j as int),
        decreases children.len() - j,
    {
        layouts.insert(children[j].0, placed[j]);
        j = j + 1;
    }
}

/// Lays out the whole tree inside `available`: each child of the root alone,
/// then, breadth-first, each widget's children inside its content box along
/// its layout axis, then each widget's inherited clip rectangle.
pub fn layout_widgets(hierarchy: &Hierarchy, constraints: &HashMap<u64, LayoutConstraints>, available: Rect) -> (r: HashMap<
    u64,
    Layout,
>)
    requires
        hierarchy@.wf(),
    ensures
        r@ == frame_layouts(hierarchy@, constraints@, available),
{
    let mut layouts: HashMap<u64, Layout> = HashMap::new();
    assert(layouts@ =~= Map::empty());
    let bounds = clamp_rect_exec(available);
    let roots = hierarchy.children(None);
    let mut i: usize = 0;
    while i < roots.len()
        invariant
            i <= roots.len(),
            roots@ == hierarchy@.root.children,
            bounds == clamp_rect(available),
            bounds.in_range(),
            layouts@ == root_fold(hierarchy@, constraints@, available, i as int),
        decreases roots.len() - i,
    {
        let id = roots[i];
        let single = vec![constraints_lookup(constraints, id)];
        let placed = layout_children_linear(bounds, Axis::Horizontal, Align::Start, &single);
        assert(single@ =~= seq![constraints_of(constraints@, id)]);
        layouts.insert(id.0, placed[0]);
        i = i + 1;
    }
    let ghost roots_done = layouts@;
    let order = hierarchy.visit_breadth_first();
    let mut k: usize = 0;
    while k < order.len()
        invariant
            k <= order.len(),
            order@ == hierarchy@.breadth_first(Set::empty()),
            hierarchy@.wf(),
            layouts@ == arrange_fold(hierarchy@, constraints@, order@, k as int, roots_done),
        decreases order.len() - k,
    {
        arrange_children(hierarchy, constraints, &mut layouts, order[k]);
        k = k + 1;
    }
    let ghost arranged = layouts@;
    let mut clips: HashMap<u64, Rect> = HashMap::new();
    assert(clips@ =~= Map::empty());
    let mut k: usize = 0;
    while k < order.len()
        invariant
            k <= order.len(),
            order@ == hierarchy@.breadth_first(Set::empty()),
            (layouts@, clips@) == clip_fold(hierarchy@, order@, k as int, arranged),
        decreases order.len() - k,
    {
        let id = order[k];
        match layouts.get(&id.0) {
            Some(l) => {
                let mut l = *l;
                let inherited = match hierarchy.get_node(Some(id)) {
                    Some(node) => match node.parent_id {
                        Some(p) => match clips.get(&p.0) {
                            Some(pc) => Some(*pc),
                            None => None,
                        },
                        None => None,
                    },
                    None => None,
                };
                let own = match inherited {
                    Some(pc) => clip_rects(&l.box_bounds, &pc),
                    None => l.box_bounds,
                };
                l.clip_rect = inherited;
                layouts.insert(id.0, l);
                clips.insert(id.0, own);
            },
            None => {},
        }
        k = k + 1;
    }
    layouts
}

} // verus!

verus! {

/// What happened to a widget's identity.
#[derive(Debug, Clone, Copy, PartialEq, Eq, Structural)]
pub enum WidgetLifecycleEvent {
    Created,
    Updated,
    Destroyed,
}

pub fn lifecycle_event(status: crate::hierarchy::NodeUpdateStatus) -> (r: WidgetLifecycleEvent)
    ensures
        r == (if status == crate::hierarchy::NodeUpdateStatus::Added {
            WidgetLifecycleEvent::Created
        } else {
            WidgetLifecycleEvent::Updated
        }),
{
    match status {
        crate::hierarchy::NodeUpdateStatus::Added => WidgetLifecycleEvent::Created,
        crate::hierarchy::NodeUpdateStatus::Update => WidgetLifecycleEvent::Updated,
    }
}

/// Larger of `floor` and the minimum widths (or heights) of the first `k` of `ids`.
pub open spec fn min_extent(cs: Map<u64, LayoutConstraints>, ids: Seq<WidgetId>, axis: Axis, k: int, floor: int) -> int
    decreases k,
{
    if k <= 0 {
        floor
    } else {
        let v = constraints_of(cs, ids[k - 1]).spec_min_unconstrained(axis);
        let prev = min_extent(cs, ids, axis, k - 1, floor);
        if v > prev {
            v
        } else {
            prev
        }
    }
}

/// The smallest window size the root widgets ask for: their largest minimum
/// width and height, and at least 10 by 10.
pub fn calc_min_size(hierarchy: &Hierarchy, constraints: &HashMap<u64, LayoutConstraints>) -> (r: Vec2)
    ensures
        r.x == min_extent(constraints@, hierarchy@.root.children, Axis::Horizontal, hierarchy@.root.children.len() as int, 10),
        r.y == min_extent(constraints@, hierarchy@.root.children, Axis::Vertical, hierarchy@.root.children.len() as int, 10),
{
    let roots = hierarchy.children(None);
    let mut w: i64 = 10;
    let mut h: i64 = 10;
    let mut i: usize = 0;
    while i < roots.len()
        invariant
            i <= roots.len(),
            roots@ == hierarchy@.root.children,
            w == min_extent(constraints@, roots@, Axis::Horizontal, i as int, 10),
            h == min_extent(constraints@, roots@, Axis::Vertical, i as int, 10),
            10 <= w <= u32::MAX,
            10 <= h <= u32::MAX,
        decreases roots.len() - i,
    {
        let c = constraints_lookup(constraints, roots[i]);
        let cw = c.min_length_unconstrained(Axis::Horizontal);
        let ch = c.min_length_unconstrained(Axis::Vertical);
        if cw > w {
            w = cw;
        }
        if ch > h {
            h = ch;
        }
        i = i + 1;
    }
    Vec2 { x: w, y: h }
}

} // verus!

verus! {

/// Everything that lives across frames, and the per-frame scratch maps.
#[derive(Debug)]
pub struct System {
    pub viewport: Viewport,
    pub input: Input,
    pub hierarchy: Hierarchy,
    /// This frame's constraints, rebuilt by the configure pass.
    pub widget_constraints: HashMap<u64, LayoutConstraints>,
    /// This frame's layouts, rebuilt by the arrange pass.
    pub widget_layouts: HashMap<u64, Layout>,
    /// This frame's input behaviours, as the widgets declared them.
    pub widget_behaviours: HashMap<u64, InputBehaviour>,
    pub should_redraw: bool,
    pub min_size: Vec2,
}

impl System {
    pub open spec fn wf(self) -> bool {
        &&& self.hierarchy@.wf()
        &&& self.input.wf()
    }

    pub fn new() -> (r: System)
        ensures
            r.wf(),
            r.hierarchy@.consistent(),
            r.should_redraw,
    {
        let hierarchy = Hierarchy::new();
        System {
            viewport: Viewport::new(),
            input: Input::new(),
            hierarchy,
            widget_constraints: HashMap::new(),
            widget_layouts: HashMap::new(),
            widget_behaviours: HashMap::new(),
            should_redraw: true,
            min_size: Vec2 { x: 0, y: 0 },
        }
    }

    /// A new window size asks for a redraw and reaches the input.
    pub fn set_size(&mut self, new_size: Vec2)
        requires
            old(self).wf(),
        ensures
            final(self).wf(),
            final(self).viewport.size == new_size,
            final(self).input.spec_viewport() == (if old(self).viewport.size == new_size {
                old(self).input.spec_viewport()
            } else {
                final(self).viewport
            }),
            final(self).should_redraw == (old(self).should_redraw || old(self).viewport.size != new_size),
            final(self).hierarchy@ == old(self).hierarchy@,
    {
        if self.viewport.size.x != new_size.x || self.viewport.size.y != new_size.y {
            self.should_redraw = true;
            self.viewport.size = new_size;
            let v = self.viewport;
            self.input.set_viewport(v);
        }
    }

    /// Between frames: the input's per-frame state starts over.
    pub fn prepare_next_frame(&mut self)
        requires
            old(self).wf(),
        ensures
            final(self).wf(),
            final(self).input.spec_viewport() == old(self).viewport,
            !final(self).input.events_received_this_frame,
            final(self).hierarchy@ == old(self).hierarchy@,
            final(self).should_redraw == old(self).should_redraw,
    {
        self.input.reset();
        let v = self.viewport;
        self.input.set_viewport(v);
    }

    /// Asks for another frame, as a widget does when its state changed outside
    /// of a build.
    pub fn trigger_redraw(&mut self)
        ensures
            final(self).should_redraw,
            final(self).hierarchy@ == old(self).hierarchy@,
            final(self).input == old(self).input,
    {
        self.should_redraw = true;
    }

    /// Whether a frame needs to run.
    pub fn should_redraw(&self) -> (r: bool)
        ensures
            r == (self.should_redraw || self.input.events_received_this_frame),
    {
        self.should_redraw || self.input.events_received_this_frame
    }

    /// Starts a frame: a new epoch, then this frame's input against the
    /// previous frame's hit rectangles, and empty per-frame maps.
    pub fn begin_frame(&mut self)
        requires
            old(self).wf(),
        ensures
            final(self).wf(),
            final(self).hierarchy@ == old(self).hierarchy@.spec_new_epoch(),
            final(self).input.hovered_widget == match old(self).input.cursor_pos {
                Some(c) => {
                    let order = old(self).hierarchy@.spec_new_epoch().breadth_first(Set::empty());
                    crate::input::last_hit(order, old(self).input.registered_widgets@, c, order.len() as int)
                },
                None => None,
            },
            final(self).input.focus_widget == (if final(self).input.hovered_widget is Some
                && old(self).input.spec_any_released_now() {
                final(self).input.hovered_widget
            } else {
                old(self).input.focus_widget
            }),
            final(self).input.active_widget == (if final(self).input.hovered_widget is Some
                && old(self).input.spec_any_down() && old(self).input.active_widget is None {
                final(self).input.hovered_widget
            } else {
                old(self).input.active_widget
            }),
            final(self).widget_behaviours@.is_empty(),
            !final(self).should_redraw,
    {
        self.should_redraw = false;
        self.hierarchy.new_epoch();
        self.input.process_events(&self.hierarchy);
        self.widget_behaviours = HashMap::new();
        assert(self.widget_behaviours@ =~= Map::empty());
    }
}

} // verus!

verus! {

impl System {
    /// Declares a widget whose type has discriminant `type_tag` under `parent_id`
    /// (the root, or a widget declared in this frame) and says whether it was
    /// created or updated.
    pub fn add_widget_to(&mut self, type_tag: u64, parent_id: Option<WidgetId>) -> (r: Result<
        (WidgetId, WidgetLifecycleEvent),
        HierarchyError,
    >)
        requires
            old(self).wf(),
            old(self).hierarchy@.can_declare_under(parent_id),
        ensures
            final(self).wf(),
            final(self).hierarchy@ == old(self).hierarchy@.spec_add_or_update(type_tag, parent_id).0,
            match old(self).hierarchy@.spec_add_or_update(type_tag, parent_id).1 {
                Ok(u) => r == Ok::<(WidgetId, WidgetLifecycleEvent), HierarchyError>(
                    (
                        u.widget_id,
                        if u.status == NodeUpdateStatus::Added {
                            WidgetLifecycleEvent::Created
                        } else {
                            WidgetLifecycleEvent::Updated
                        },
                    ),
                ),
                Err(e) => r == Err::<(WidgetId, WidgetLifecycleEvent), HierarchyError>(e),
            },
            final(self).input == old(self).input,
            final(self).widget_behaviours@ == old(self).widget_behaviours@,
    {
        match self.hierarchy.add_or_update(WidgetIdFragment::TypedOrdered(type_tag), parent_id) {
            Ok(u) => Ok((u.widget_id, lifecycle_event(u.status))),
            Err(e) => Err(e),
        }
    }

    /// Records how a widget takes part in input this frame.
    pub fn set_input_behaviour(&mut self, widget_id: WidgetId, behaviour: InputBehaviour)
        ensures
            final(self).widget_behaviours@ == old(self).widget_behaviours@.insert(widget_id.0, behaviour),
            final(self).hierarchy@ == old(self).hierarchy@,
            final(self).input == old(self).input,
            final(self).viewport == old(self).viewport,
    {
        self.widget_behaviours.insert(widget_id.0, behaviour);
    }

    /// Ends the build: removes the widgets not declared this frame and returns
    /// their identities, each once, for their destruction.
    pub fn garbage_collect(&mut self) -> (r: Vec<WidgetId>)
        requires
            old(self).wf(),
        ensures
            final(self).wf(),
            final(self).hierarchy@ == old(self).hierarchy@.spec_collect_stale(),
            r@.to_set() == old(self).hierarchy@.stale_ids(),
            r@.no_duplicates(),
            final(self).input == old(self).input,
    {
        self.hierarchy.collect_stale_nodes()
    }

    /// Runs the passes after the build: configure (from each widget's own
    /// constraints in `own`), arrange with clipping inside the viewport, the
    /// minimum window size, and this frame's hit rectangles for the next.
    pub fn finish_frame(&mut self, own: &HashMap<u64, LayoutConstraints>)
        requires
            old(self).wf(),
        ensures
            final(self).wf(),
            final(self).hierarchy@ == old(self).hierarchy@,
            final(self).widget_constraints@ == configure_fold(
                old(self).hierarchy@,
                own@,
                old(self).hierarchy@.leaves_first(),
                old(self).hierarchy@.leaves_first().len() as int,
            ),
            final(self).widget_layouts@ == frame_layouts(
                old(self).hierarchy@,
                final(self).widget_constraints@,
                Rect { min: Vec2 { x: 0, y: 0 }, max: old(self).viewport.size },
            ),
            final(self).input.registered_widgets@ == crate::input::registrations(
                old(self).hierarchy@.breadth_first(crate::input::opaque_ids(old(self).widget_behaviours@)),
                old(self).widget_behaviours@,
                final(self).widget_layouts@,
            ),
            final(self).min_size == calc_min_size_spec(old(self).hierarchy@, final(self).widget_constraints@),
    {
        self.widget_constraints = configure_widgets(&self.hierarchy, own);
        let available = self.viewport.view_bounds();
        self.widget_layouts = layout_widgets(&self.hierarchy, &self.widget_constraints, available);
        self.min_size = calc_min_size(&self.hierarchy, &self.widget_constraints);
        self.input.register_handlers(&self.hierarchy, &self.widget_behaviours, &self.widget_layouts);
    }
}

/// What `calc_min_size` returns.
pub open spec fn calc_min_size_spec(h: HierarchyView, cs: Map<u64, LayoutConstraints>) -> Vec2 {
    Vec2 {
        x: min_extent(cs, h.root.children, Axis::Horizontal, h.root.children.len() as int, 10) as i64,
        y: min_extent(cs, h.root.children, Axis::Vertical, h.root.children.len() as int, 10) as i64,
    }
}

} // verus!

verus! {

/// A widget whose box lies outside the clip rectangle it inherited.
pub open spec fn clipped_out(layouts: Map<u64, Layout>, k: u64) -> bool {
    layouts.contains_key(k) && match layouts[k].clip_rect {
        Some(c) => !spec_rect_intersects(c, layouts[k].box_bounds),
        None => false,
    }
}

fn is_clipped_out(l: &Layout) -> (r: bool)
    ensures
        r == match l.clip_rect {
            Some(c) => !spec_rect_intersects(c, l.box_bounds),
            None => false,
        },
{
    match l.clip_rect {
        Some(c) => !rect_intersects(&c, &l.box_bounds),
        None => false,
    }
}

fn collect_clipped_out(layouts: &HashMap<u64, Layout>) -> (r: std::collections::HashSet<u64>)
    ensures
        r@ == Set::new(|k: u64| clipped_out(layouts@, k)),
{
    let mut out: std::collections::HashSet<u64> = std::collections::HashSet::new();
    let ghost all = vstd::std_specs::hash::spec_keys_iter(layouts).remaining();
    let ghost keys = all.unref();
    proof {
        vstd::std_specs::hash::axiom_spec_keys_iter(layouts);
    }
    assert(out@ =~= Set::new(|q: u64| keys.take(0).contains(q) && clipped_out(layouts@, q)));
    for k in it: layouts.keys()
        invariant
            it.seq() == all,
            keys == all.unref(),
            keys.to_set() == layouts@.dom(),
            out@ == Set::new(|q: u64| keys.take(it.index()).contains(q) && clipped_out(layouts@, q)),
    {
        let ghost idx = it.index();
        let key = *k;
        assert(keys[idx] == key);
        assert(keys.to_set().contains(key));
        assert(keys.take(idx + 1) =~= keys.take(idx).push(key));
        assert forall|q: u64| keys.take(idx + 1).contains(q) <==> (keys.take(idx).contains(q) || q == key) by {
            if keys.take(idx).contains(q) {
                let j = choose|j: int| 0 <= j < keys.take(idx).len() && #[trigger] keys.take(idx)[j] == q;
                assert(keys.take(idx + 1)[j] == q);
            }
            if q == key {
                assert(keys.take(idx + 1)[idx] == q);
            }
            if keys.take(idx + 1).contains(q) {
                let j = choose|j: int| 0 <= j < keys.take(idx + 1).len() && #[trigger] keys.take(idx + 1)[j] == q;
                if j < idx {
                    assert(keys.take(idx)[j] == q);
                }
            }
        }
        match layouts.get(&key) {
            Some(l) => {
                if is_clipped_out(l) {
                    out.insert(key);
                }
            },
            None => {},
        }
        assert(out@ =~= Set::new(|q: u64| keys.take(idx + 1).contains(q) && clipped_out(layouts@, q)));
    }
    proof {
        assert(keys.take(keys.len() as int) =~= keys);
        assert forall|q: u64| layouts@.contains_key(q) implies keys.contains(q) by {
            assert(keys.to_set().contains(q));
        }
    }
    assert(out@ =~= Set::new(|k: u64| clipped_out(layouts@, k)));
    out
}

/// The widgets to draw, parents before children: breadth-first, leaving out
/// each widget whose box misses its inherited clip together with its subtree.
pub open spec fn draw_order(h: HierarchyView, layouts: Map<u64, Layout>) -> Seq<WidgetId> {
    h.breadth_first(Set::new(|k: u64| clipped_out(layouts, k))).filter(drawn(layouts))
}

/// Whether a widget is drawn, as a predicate.
pub open spec fn drawn(layouts: Map<u64, Layout>) -> spec_fn(WidgetId) -> bool {
    |w: WidgetId| !clipped_out(layouts, w.0)
}

pub fn draw_list(hierarchy: &Hierarchy, layouts: &HashMap<u64, Layout>) -> (r: Vec<WidgetId>)
    ensures
        r@ == draw_order(hierarchy@, layouts@),
{
    let hidden = collect_clipped_out(layouts);
    let order = hierarchy.visit_breadth_first_with_cf(&hidden);
    let ghost pred = drawn(layouts@);
    let mut out: Vec<WidgetId> = Vec::new();
    let mut i: usize = 0;
    while i < order.len()
        invariant
            i <= order.len(),
            hidden@ == Set::new(|k: u64| clipped_out(layouts@, k)),
            pred == drawn(layouts@),
            order@ == hierarchy@.breadth_first(Set::new(|k: u64| clipped_out(layouts@, k))),
            out@ == order@.take(i as int).filter(pred),
        decreases order.len() - i,
    {
        let id = order[i];
        let ghost t = order@.take(i as int + 1);
        assert(t.drop_last() =~= order@.take(i as int));
        assert(t.last() == id);
        proof {
            reveal(Seq::filter);
            assert(t.len() > 0);
            assert(t.filter(pred) == (if pred(t.last()) {
                t.drop_last().filter(pred).push(t.last())
            } else {
                t.drop_last().filter(pred)
            }));
            assert(pred(id) == !clipped_out(layouts@, id.0));
        }
        if !hidden.contains(&id.0) {
            out.push(id);
        }
        assert(out@ == t.filter(pred));
        i = i + 1;
    }
    assert(order@.take(order.len() as int) =~= order@);
    out
}

} // verus!
