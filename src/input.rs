use vstd::prelude::*;
use vstd::std_specs::iter::IteratorSpec;

use std::collections::{HashMap, HashSet};

use crate::hierarchy::{Hierarchy, HierarchyView, WidgetId};
use crate::layout::{Layout, Rect, Vec2, MAX_COORD};
use crate::viewport::Viewport;

verus! {

broadcast use vstd::std_specs::hash::group_hash_axioms;

/// How a widget takes part in input.
#[derive(Debug, Clone, Copy, PartialEq, Eq, Default, Structural)]
pub struct InputBehaviour {
    /// Accepts no input events.
    pub transparent: bool,
    /// Is hit-tested itself, but its children are not.
    pub opaque: bool,
    /// A pointer-down here starts dragging the window.
    pub window_drag_zone: bool,
    /// A pointer-down here starts resizing the window.
    pub window_drag_resize_zone: bool,
}

impl InputBehaviour {
    pub fn empty() -> (r: InputBehaviour)
        ensures
            !r.transparent && !r.opaque && !r.window_drag_zone && !r.window_drag_resize_zone,
    {
        InputBehaviour { transparent: false, opaque: false, window_drag_zone: false, window_drag_resize_zone: false }
    }

    /// The flags of both.
    pub fn union(&self, other: &InputBehaviour) -> (r: InputBehaviour)
        ensures
            r.transparent == (self.transparent || other.transparent),
            r.opaque == (self.opaque || other.opaque),
            r.window_drag_zone == (self.window_drag_zone || other.window_drag_zone),
            r.window_drag_resize_zone == (self.window_drag_resize_zone || other.window_drag_resize_zone),
    {
        InputBehaviour {
            transparent: self.transparent || other.transparent,
            opaque: self.opaque || other.opaque,
            window_drag_zone: self.window_drag_zone || other.window_drag_zone,
            window_drag_resize_zone: self.window_drag_resize_zone || other.window_drag_resize_zone,
        }
    }
}

#[derive(Debug, Clone, Copy, PartialEq, Eq, Structural)]
pub enum MouseButton {
    Left,
    Right,
    Middle,
    Back,
    Forward,
}

impl MouseButton {
    pub open spec fn spec_index(self) -> int {
        match self {
            MouseButton::Left => 0,
            MouseButton::Right => 1,
            MouseButton::Middle => 2,
            MouseButton::Back => 3,
            MouseButton::Forward => 4,
        }
    }

    pub fn index(&self) -> (r: usize)
        ensures
            r == self.spec_index(),
            r < 5,
    {
        match self {
            MouseButton::Left => 0,
            MouseButton::Right => 1,
            MouseButton::Middle => 2,
            MouseButton::Back => 3,
            MouseButton::Forward => 4,
        }
    }
}

/// A widget's hit rectangle for the next frame's input.
#[derive(Debug, Clone, Copy, PartialEq, Eq, Structural)]
pub struct RegisteredWidget {
    pub bounds: Rect,
    pub behaviour: InputBehaviour,
}

/// Timestamps of the last press and release of a button.
#[derive(Debug, Clone, Copy, PartialEq, Eq, Structural)]
pub struct MouseButtonState {
    pub last_press_position: Vec2,
    pub down_timestamp: u32,
    pub up_timestamp: u32,
}

impl MouseButtonState {
    pub open spec fn spec_is_down(self) -> bool {
        self.down_timestamp > self.up_timestamp
    }

    /// Pressed more recently than released.
    pub fn is_down(&self) -> (r: bool)
        ensures
            r == self.spec_is_down(),
    {
        self.down_timestamp > self.up_timestamp
    }
}

#[derive(Debug, Clone, Copy, PartialEq, Eq, Structural)]
pub enum KeyboardEvent {
    Character(char),
}

/// A platform input event, in view coordinates.
#[derive(Debug, Clone, Copy, PartialEq, Eq, Structural)]
pub enum InputEvent {
    CursorMoved(Vec2),
    CursorLeft,
    MousePressed(MouseButton),
    MouseReleased(MouseButton),
    /// A character of text input.
    Character(char),
}

/// What the host window is asked to do after an event.
#[derive(Debug, Clone, Copy, PartialEq, Eq, Structural)]
pub enum SendEventResponse {
    /// Nothing for the window to do.
    NoAction,
    DragWindow,
    DragResizeWindow,
}

/// A point within the coordinate range the library accepts.
pub open spec fn point_in_range(p: Vec2) -> bool {
    -MAX_COORD <= p.x <= MAX_COORD && -MAX_COORD <= p.y <= MAX_COORD
}

} // verus!

verus! {

/// The window zone `w` registered, if its hit rectangle contains `p`.
pub open spec fn zone_at(regs: Map<u64, RegisteredWidget>, w: WidgetId, p: Vec2) -> SendEventResponse {
    if regs.contains_key(w.0) && regs[w.0].bounds.spec_contains_point(p) {
        if regs[w.0].behaviour.window_drag_zone {
            SendEventResponse::DragWindow
        } else if regs[w.0].behaviour.window_drag_resize_zone {
            SendEventResponse::DragResizeWindow
        } else {
            SendEventResponse::NoAction
        }
    } else {
        SendEventResponse::NoAction
    }
}

/// The parent of `w` in `h`; none for the root's children and unknown widgets.
pub open spec fn parent_in(h: HierarchyView, w: WidgetId) -> Option<WidgetId> {
    if h.nodes.contains_key(w.0) {
        h.nodes[w.0].parent_id
    } else {
        None
    }
}

/// The window zone of `id` or of its nearest ancestor (at most `fuel` levels)
/// whose registered rectangle contains `p` and carries a zone flag.
pub open spec fn zone_response(
    h: HierarchyView,
    regs: Map<u64, RegisteredWidget>,
    p: Vec2,
    id: Option<WidgetId>,
    fuel: nat,
) -> SendEventResponse
    decreases fuel,
{
    match id {
        None => SendEventResponse::NoAction,
        Some(w) => if fuel == 0 {
            SendEventResponse::NoAction
        } else if zone_at(regs, w, p) != SendEventResponse::NoAction {
            zone_at(regs, w, p)
        } else {
            zone_response(h, regs, p, parent_in(h, w), (fuel - 1) as nat)
        },
    }
}

/// Whether `id` registered a hit rectangle containing `p`.
pub open spec fn hits(regs: Map<u64, RegisteredWidget>, id: WidgetId, p: Vec2) -> bool {
    regs.contains_key(id.0) && regs[id.0].bounds.spec_contains_point(p)
}

/// The last of the first `k` identities of `order` that `p` hits.
pub open spec fn last_hit(order: Seq<WidgetId>, regs: Map<u64, RegisteredWidget>, p: Vec2, k: int) -> Option<WidgetId>
    decreases k,
{
    if k <= 0 {
        None
    } else if hits(regs, order[k - 1], p) {
        Some(order[k - 1])
    } else {
        last_hit(order, regs, p, k - 1)
    }
}

/// Pointer, keyboard and widget-focus state, carried across frames.
#[derive(Debug)]
pub struct Input {
    pub cursor_pos: Option<Vec2>,
    pub events_received_this_frame: bool,
    pub hovered_widget: Option<WidgetId>,
    pub active_widget: Option<WidgetId>,
    pub focus_widget: Option<WidgetId>,
    /// Hit rectangles registered by the previous frame.
    pub registered_widgets: HashMap<u64, RegisteredWidget>,
    /// What a pointer-down asks of the window, worked out by `process_events`
    /// from the hovered widget and its ancestors.
    pub press_response: SendEventResponse,
    pub keyboard_input: Vec<KeyboardEvent>,
    /// The state of each mouse button after all events so far.
    pub button_states: Vec<MouseButtonState>,
    pub viewport: Viewport,
    /// Frame counter, wrapping.
    pub timestamp: u32,
}

impl Input {
    pub open spec fn wf(self) -> bool {
        &&& self.button_states@.len() == 5
        &&& self.cursor_pos matches Some(c) ==> point_in_range(c)
        &&& forall|i: int| 0 <= i < 5 ==> point_in_range(#[trigger] self.button_states@[i].last_press_position)
    }

    pub open spec fn spec_button(self, b: MouseButton) -> MouseButtonState {
        self.button_states@[b.spec_index()]
    }

    pub open spec fn spec_timestamp(self) -> u32 {
        self.timestamp
    }

    pub open spec fn spec_viewport(self) -> Viewport {
        self.viewport
    }

    /// Some button is pressed more recently than released.
    pub open spec fn spec_any_down(self) -> bool {
        exists|b: MouseButton| #[trigger] self.spec_button(b).spec_is_down()
    }

    /// Some button was released in the current frame.
    pub open spec fn spec_any_released_now(self) -> bool {
        exists|b: MouseButton| #[trigger] self.spec_button(b).up_timestamp == self.spec_timestamp()
    }

    /// Everything but the button states and the timestamp is equal.
    pub open spec fn same_buttons(self, other: Input) -> bool {
        &&& forall|b: MouseButton| #[trigger] self.spec_button(b) == other.spec_button(b)
        &&& self.spec_timestamp() == other.spec_timestamp()
        &&& self.spec_viewport() == other.spec_viewport()
    }

    pub fn new() -> (r: Input)
        ensures
            r.wf(),
            r.cursor_pos is None,
            !r.events_received_this_frame,
            r.hovered_widget is None && r.active_widget is None && r.focus_widget is None,
            r.registered_widgets@.is_empty(),
            r.keyboard_input@.len() == 0,
            r.spec_timestamp() == 0,
            forall|b: MouseButton| #[trigger] r.spec_button(b) == (MouseButtonState {
                last_press_position: Vec2 { x: 0, y: 0 },
                down_timestamp: 0,
                up_timestamp: 0,
            }),
    {
        let zero = MouseButtonState { last_press_position: Vec2 { x: 0, y: 0 }, down_timestamp: 0, up_timestamp: 0 };
        let button_states = vec![zero, zero, zero, zero, zero];
        let r = Input {
            cursor_pos: None,
            events_received_this_frame: false,
            hovered_widget: None,
            active_widget: None,
            focus_widget: None,
            press_response: SendEventResponse::NoAction,
            registered_widgets: HashMap::new(),
            keyboard_input: Vec::new(),
            button_states,
            viewport: Viewport::new(),
            timestamp: 0,
        };
        assert(r.registered_widgets@ =~= Map::empty());
        r
    }

    /// Starts a frame: the keyboard queue empties and the timestamp moves on.
    pub fn reset(&mut self)
        requires
            old(self).wf(),
        ensures
            final(self).wf(),
            final(self).keyboard_input@.len() == 0,
            !final(self).events_received_this_frame,
            final(self).spec_timestamp() == (if old(self).spec_timestamp() == u32::MAX {
                0
            } else {
                old(self).spec_timestamp() + 1
            }),
            forall|b: MouseButton| #[trigger] final(self).spec_button(b) == old(self).spec_button(b),
            final(self).spec_viewport() == old(self).spec_viewport(),
            final(self).cursor_pos == old(self).cursor_pos,
            final(self).hovered_widget == old(self).hovered_widget,
            final(self).active_widget == old(self).active_widget,
            final(self).focus_widget == old(self).focus_widget,
            final(self).registered_widgets@ == old(self).registered_widgets@,
            final(self).press_response == old(self).press_response,
    {
        self.keyboard_input.clear();
        self.events_received_this_frame = false;
        self.timestamp = if self.timestamp == u32::MAX { 0 } else { self.timestamp + 1 };
    }

    pub fn set_viewport(&mut self, viewport: Viewport)
        requires
            old(self).wf(),
        ensures
            final(self).wf(),
            final(self).spec_viewport() == viewport,
            forall|b: MouseButton| #[trigger] final(self).spec_button(b) == old(self).spec_button(b),
            final(self).spec_timestamp() == old(self).spec_timestamp(),
            final(self).cursor_pos == old(self).cursor_pos,
            final(self).hovered_widget == old(self).hovered_widget,
            final(self).active_widget == old(self).active_widget,
            final(self).focus_widget == old(self).focus_widget,
            final(self).registered_widgets@ == old(self).registered_widgets@,
            final(self).keyboard_input@ == old(self).keyboard_input@,
            final(self).events_received_this_frame == old(self).events_received_this_frame,
            final(self).press_response == old(self).press_response,
    {
        self.viewport = viewport;
    }

    /// The state of `button`.
    pub fn button_state(&self, button: MouseButton) -> (r: MouseButtonState)
        requires
            self.wf(),
        ensures
            r == self.spec_button(button),
    {
        self.button_states[button.index()]
    }

    /// Whether `button` is down after the events so far.
    pub fn is_mouse_down(&self, button: MouseButton) -> (r: bool)
        requires
            self.wf(),
        ensures
            r == self.spec_button(button).spec_is_down(),
    {
        self.button_states[button.index()].is_down()
    }

    pub fn is_any_mouse_down(&self) -> (r: bool)
        requires
            self.wf(),
        ensures
            r == self.spec_any_down(),
    {
        let mut i: usize = 0;
        while i < 5
            invariant
                i <= 5,
                self.wf(),
                forall|j: int| 0 <= j < i ==> !(#[trigger] self.button_states@[j]).spec_is_down(),
            decreases 5 - i,
        {
            if self.button_states[i].is_down() {
                let b = if i == 0 {
                    MouseButton::Left
                } else if i == 1 {
                    MouseButton::Right
                } else if i == 2 {
                    MouseButton::Middle
                } else if i == 3 {
                    MouseButton::Back
                } else {
                    MouseButton::Forward
                };
                assert(self.spec_button(b).spec_is_down());
                return true;
            }
            i = i + 1;
        }
        assert forall|b: MouseButton| !#[trigger] self.spec_button(b).spec_is_down() by {
            assert(!self.button_states@[b.spec_index()].spec_is_down());
        }
        false
    }

    /// Whether the last press of `button` happened in the current frame.
    pub fn was_mouse_pressed(&self, button: MouseButton) -> (r: bool)
        requires
            self.wf(),
        ensures
            r == (self.spec_button(button).down_timestamp == self.spec_timestamp()),
    {
        self.button_states[button.index()].down_timestamp == self.timestamp
    }

    /// Whether the last release of `button` happened in the current frame.
    pub fn was_mouse_released(&self, button: MouseButton) -> (r: bool)
        requires
            self.wf(),
        ensures
            r == (self.spec_button(button).up_timestamp == self.spec_timestamp()),
    {
        self.button_states[button.index()].up_timestamp == self.timestamp
    }

    /// While `button` is down and the cursor is known: how far the cursor moved
    /// since the press.
    pub fn mouse_drag_delta(&self, button: MouseButton) -> (r: Option<Vec2>)
        requires
            self.wf(),
        ensures
            r == (if self.spec_button(button).spec_is_down() && self.cursor_pos is Some {
                Some(
                    Vec2 {
                        x: (self.cursor_pos->Some_0.x - self.spec_button(button).last_press_position.x) as i64,
                        y: (self.cursor_pos->Some_0.y - self.spec_button(button).last_press_position.y) as i64,
                    },
                )
            } else {
                None
            }),
    {
        let state = self.button_states[button.index()];
        assert(point_in_range(self.button_states@[button.spec_index()].last_press_position));
        if state.is_down() {
            match self.cursor_pos {
                Some(c) => Some(
                    Vec2 { x: c.x - state.last_press_position.x, y: c.y - state.last_press_position.y },
                ),
                None => None,
            }
        } else {
            None
        }
    }
}

} // verus!

verus! {

impl Input {
    /// What a pointer-down asks of the window.
    pub open spec fn spec_press_response(self) -> SendEventResponse {
        self.press_response
    }

    /// The button states after `event`: a release stamps the button's
    /// release time; a press that no window zone intercepts, with the cursor
    /// known, stamps its press time and position.
    pub open spec fn buttons_after(self, event: InputEvent) -> Seq<MouseButtonState> {
        match event {
            InputEvent::MouseReleased(b) => self.button_states@.update(
                b.spec_index(),
                MouseButtonState { up_timestamp: self.timestamp, ..self.spec_button(b) },
            ),
            InputEvent::MousePressed(b) => if self.spec_press_response() == SendEventResponse::NoAction
                && self.cursor_pos is Some {
                self.button_states@.update(
                    b.spec_index(),
                    MouseButtonState {
                        down_timestamp: self.timestamp,
                        last_press_position: self.cursor_pos->Some_0,
                        ..self.spec_button(b)
                    },
                )
            } else {
                self.button_states@
            },
            _ => self.button_states@,
        }
    }

    fn set_button(&mut self, b: MouseButton, state: MouseButtonState)
        requires
            old(self).wf(),
            point_in_range(state.last_press_position),
        ensures
            final(self).wf(),
            final(self).button_states@ == old(self).button_states@.update(b.spec_index(), state),
            final(self).cursor_pos == old(self).cursor_pos,
            final(self).hovered_widget == old(self).hovered_widget,
            final(self).active_widget == old(self).active_widget,
            final(self).focus_widget == old(self).focus_widget,
            final(self).registered_widgets@ == old(self).registered_widgets@,
            final(self).keyboard_input@ == old(self).keyboard_input@,
            final(self).events_received_this_frame == old(self).events_received_this_frame,
            final(self).timestamp == old(self).timestamp,
            final(self).viewport == old(self).viewport,
            final(self).press_response == old(self).press_response,
    {
        self.button_states.set(b.index(), state);
    }

    /// Takes one platform event. A pointer-down over a window drag or resize
    /// zone (of the hovered widget or of a registered ancestor containing the
    /// cursor, as `process_events` found) goes to the window and is not recorded
    /// as a press.
    pub fn send_event(&mut self, event: InputEvent) -> (r: SendEventResponse)
        requires
            old(self).wf(),
            event matches InputEvent::CursorMoved(p) ==> point_in_range(p),
        ensures
            final(self).wf(),
            final(self).events_received_this_frame,
            r == (if event is MousePressed {
                old(self).spec_press_response()
            } else {
                SendEventResponse::NoAction
            }),
            final(self).cursor_pos == match event {
                InputEvent::CursorMoved(p) => Some(p),
                InputEvent::CursorLeft => None,
                _ => old(self).cursor_pos,
            },
            final(self).hovered_widget == (if event is CursorLeft {
                None
            } else {
                old(self).hovered_widget
            }),
            final(self).active_widget == (if event is MouseReleased {
                None
            } else {
                old(self).active_widget
            }),
            final(self).button_states@ == old(self).buttons_after(event),
            final(self).keyboard_input@ == match event {
                InputEvent::Character(c) => old(self).keyboard_input@.push(KeyboardEvent::Character(c)),
                _ => old(self).keyboard_input@,
            },
            final(self).focus_widget == old(self).focus_widget,
            final(self).registered_widgets@ == old(self).registered_widgets@,
            final(self).timestamp == old(self).timestamp,
            final(self).viewport == old(self).viewport,
            final(self).press_response == (if event is CursorLeft {
                SendEventResponse::NoAction
            } else {
                old(self).press_response
            }),
    {
        self.events_received_this_frame = true;
        match event {
            InputEvent::CursorMoved(p) => {
                assert(point_in_range(p));
                self.cursor_pos = Some(self.viewport.physical_to_view(p));
                SendEventResponse::NoAction
            },
            InputEvent::CursorLeft => {
                self.cursor_pos = None;
                self.hovered_widget = None;
                self.press_response = SendEventResponse::NoAction;
                SendEventResponse::NoAction
            },
            InputEvent::MouseReleased(b) => {
                let s = self.button_state(b);
                assert(point_in_range(self.button_states@[b.spec_index()].last_press_position));
                self.set_button(b, MouseButtonState { up_timestamp: self.timestamp, ..s });
                self.active_widget = None;
                SendEventResponse::NoAction
            },
            InputEvent::MousePressed(b) => {
                match self.press_response {
                    SendEventResponse::NoAction => {},
                    r => {
                        return r;
                    },
                }
                if let Some(c) = self.cursor_pos {
                    let s = self.button_state(b);
                    self.set_button(b, MouseButtonState { down_timestamp: self.timestamp, last_press_position: c, ..s });
                }
                SendEventResponse::NoAction
            },
            InputEvent::Character(c) => {
                self.keyboard_input.push(KeyboardEvent::Character(c));
                SendEventResponse::NoAction
            },
        }
    }
}

} // verus!

verus! {

/// The behaviour of `k`: none registered means the default.
pub open spec fn behaviour_of(behaviours: Map<u64, InputBehaviour>, k: u64) -> InputBehaviour {
    if behaviours.contains_key(k) {
        behaviours[k]
    } else {
        InputBehaviour { transparent: false, opaque: false, window_drag_zone: false, window_drag_resize_zone: false }
    }
}

/// The identities whose children are not hit-tested.
pub open spec fn opaque_ids(behaviours: Map<u64, InputBehaviour>) -> Set<u64> {
    Set::new(|k: u64| behaviours.contains_key(k) && behaviours[k].opaque)
}

/// Whether `k` registers a hit rectangle: it accepts input and was laid out.
pub open spec fn registers(behaviours: Map<u64, InputBehaviour>, layouts: Map<u64, Layout>, k: u64) -> bool {
    !behaviour_of(behaviours, k).transparent && layouts.contains_key(k)
}

/// Whether `k` is the identity of an entry of `order`.
pub open spec fn listed(order: Seq<WidgetId>, k: u64) -> bool {
    exists|i: int| 0 <= i < order.len() && (#[trigger] order[i]).0 == k
}

/// The hit rectangles of the widgets in `order` that register one.
pub open spec fn registrations(order: Seq<WidgetId>, behaviours: Map<u64, InputBehaviour>, layouts: Map<u64, Layout>) -> Map<
    u64,
    RegisteredWidget,
> {
    Map::new(
        |k: u64| listed(order, k) && registers(behaviours, layouts, k),
        |k: u64| RegisteredWidget { bounds: layouts[k].box_bounds, behaviour: behaviour_of(behaviours, k) },
    )
}

fn lookup_behaviour(behaviours: &HashMap<u64, InputBehaviour>, k: u64) -> (r: InputBehaviour)
    ensures
        r == behaviour_of(behaviours@, k),
{
    match behaviours.get(&k) {
        Some(b) => *b,
        None => InputBehaviour::empty(),
    }
}

fn collect_opaque(behaviours: &HashMap<u64, InputBehaviour>) -> (r: HashSet<u64>)
    ensures
        r@ == opaque_ids(behaviours@),
{
    let mut out: HashSet<u64> = HashSet::new();
    let ghost all = vstd::std_specs::hash::spec_keys_iter(behaviours).remaining();
    let ghost keys = all.unref();
    proof {
        vstd::std_specs::hash::axiom_spec_keys_iter(behaviours);
    }
    assert(out@ =~= Set::new(|q: u64| keys.take(0).contains(q) && behaviours@.contains_key(q) && behaviours@[q].opaque));
    for k in it: behaviours.keys()
        invariant
            it.seq() == all,
            keys == all.unref(),
            keys.to_set() == behaviours@.dom(),
            out@ == Set::new(|q: u64| keys.take(it.index()).contains(q) && behaviours@.contains_key(q) && behaviours@[q].opaque),
    {
        let ghost idx = it.index();
        let key = *k;
        assert(keys[idx] == key);
        assert(keys.to_set().contains(key));
        assert(keys.take(idx + 1) =~= keys.take(idx).push(key));
        assert forall|q: u64| keys.take(idx + 1).contains(q) <==> (keys.take(idx).contains(q) || q == key) by {
            if keys.take(idx).contains(q) {
                let j = choose|j: int| 0 <= j < keys.take(idx).len() && #[trigger] keys.take(idx)[j] == q;
                assert(keys.take(idx + 1)[j] == q);
            }
            if q == key {
                assert(keys.take(idx + 1)[idx] == q);
            }
            if keys.take(idx + 1).contains(q) {
                let j = choose|j: int| 0 <= j < keys.take(idx + 1).len() && #[trigger] keys.take(idx + 1)[j] == q;
                if j < idx {
                    assert(keys.take(idx)[j] == q);
                }
            }
        }
        if lookup_behaviour(behaviours, key).opaque {
            out.insert(key);
        }
        assert(out@ =~= Set::new(
            |q: u64| keys.take(idx + 1).contains(q) && behaviours@.contains_key(q) && behaviours@[q].opaque,
        ));
    }
    proof {
        assert(keys.take(keys.len() as int) =~= keys);
        assert forall|q: u64| behaviours@.contains_key(q) implies keys.contains(q) by {
            assert(keys.to_set().contains(q));
        }
    }
    assert(out@ =~= opaque_ids(behaviours@));
    out
}

} // verus!

verus! {

impl Input {
    fn zone_response_from(&self, hierarchy: &Hierarchy, c: Vec2, start: Option<WidgetId>) -> (r: SendEventResponse)
        ensures
            r == zone_response(hierarchy@, self.registered_widgets@, c, start, hierarchy@.nodes.len()),
    {
        proof {
            hierarchy.lemma_view_len();
        }
        let mut cur = start;
        let mut fuel: usize = hierarchy.nodes.len();
        loop
            invariant
                zone_response(hierarchy@, self.registered_widgets@, c, cur, fuel as nat) == zone_response(
                    hierarchy@,
                    self.registered_widgets@,
                    c,
                    start,
                    hierarchy@.nodes.len(),
                ),
            decreases fuel,
        {
            let w = match cur {
                None => {
                    return SendEventResponse::NoAction;
                },
                Some(w) => w,
            };
            if fuel == 0 {
                return SendEventResponse::NoAction;
            }
            let here = match self.registered_widgets.get(&w.0) {
                Some(reg) => if reg.bounds.contains_point(c) {
                    if reg.behaviour.window_drag_zone {
                        SendEventResponse::DragWindow
                    } else if reg.behaviour.window_drag_resize_zone {
                        SendEventResponse::DragResizeWindow
                    } else {
                        SendEventResponse::NoAction
                    }
                } else {
                    SendEventResponse::NoAction
                },
                None => SendEventResponse::NoAction,
            };
            match here {
                SendEventResponse::NoAction => {},
                _ => {
                    return here;
                },
            }
            cur = match hierarchy.get_node(Some(w)) {
                Some(n) => n.parent_id,
                None => None,
            };
            fuel = fuel - 1;
        }
    }

    fn any_released_now(&self) -> (r: bool)
        requires
            self.wf(),
        ensures
            r == self.spec_any_released_now(),
    {
        let mut i: usize = 0;
        while i < 5
            invariant
                i <= 5,
                self.wf(),
                forall|j: int| 0 <= j < i ==> (#[trigger] self.button_states@[j]).up_timestamp != self.timestamp,
            decreases 5 - i,
        {
            if self.button_states[i].up_timestamp == self.timestamp {
                let b = if i == 0 {
                    MouseButton::Left
                } else if i == 1 {
                    MouseButton::Right
                } else if i == 2 {
                    MouseButton::Middle
                } else if i == 3 {
                    MouseButton::Back
                } else {
                    MouseButton::Forward
                };
                assert(self.spec_button(b).up_timestamp == self.spec_timestamp());
                return true;
            }
            i = i + 1;
        }
        assert forall|b: MouseButton| #[trigger] self.spec_button(b).up_timestamp != self.spec_timestamp() by {
            assert(self.button_states@[b.spec_index()].up_timestamp != self.timestamp);
        }
        false
    }

    /// Resolves this frame's input against the hit rectangles of the previous
    /// frame: the hovered widget is the last one hit in breadth-first order
    /// (the most deeply nested); a release while hovering focuses it; a press
    /// while hovering, with nothing active, makes it active. It also works out
    /// which window zone, if any, a pointer-down there falls in: the hovered
    /// widget's, else that of its nearest registered ancestor containing the
    /// cursor.
    pub fn process_events(&mut self, hierarchy: &Hierarchy)
        requires
            old(self).wf(),
        ensures
            final(self).wf(),
            final(self).hovered_widget == match old(self).cursor_pos {
                Some(c) => {
                    let order = hierarchy@.breadth_first(Set::empty());
                    last_hit(order, old(self).registered_widgets@, c, order.len() as int)
                },
                None => None,
            },
            final(self).focus_widget == (if final(self).hovered_widget is Some && old(self).spec_any_released_now() {
                final(self).hovered_widget
            } else {
                old(self).focus_widget
            }),
            final(self).active_widget == (if final(self).hovered_widget is Some && old(self).spec_any_down()
                && old(self).active_widget is None {
                final(self).hovered_widget
            } else {
                old(self).active_widget
            }),
            final(self).cursor_pos == old(self).cursor_pos,
            final(self).button_states@ == old(self).button_states@,
            final(self).timestamp == old(self).timestamp,
            final(self).viewport == old(self).viewport,
            final(self).registered_widgets@ == old(self).registered_widgets@,
            final(self).keyboard_input@ == old(self).keyboard_input@,
            final(self).events_received_this_frame == old(self).events_received_this_frame,
            final(self).press_response == match (old(self).cursor_pos, final(self).hovered_widget) {
                (Some(c), Some(_)) => zone_response(
                    hierarchy@,
                    old(self).registered_widgets@,
                    c,
                    final(self).hovered_widget,
                    hierarchy@.nodes.len(),
                ),
                _ => SendEventResponse::NoAction,
            },
    {
        let hovered = match self.cursor_pos {
            Some(c) => {
                let order = hierarchy.visit_breadth_first();
                let mut found: Option<WidgetId> = None;
                let mut i: usize = 0;
                while i < order.len()
                    invariant
                        i <= order.len(),
                        found == last_hit(order@, self.registered_widgets@, c, i as int),
                    decreases order.len() - i,
                {
                    let id = order[i];
                    match self.registered_widgets.get(&id.0) {
                        Some(reg) => {
                            if reg.bounds.contains_point(c) {
                                found = Some(id);
                            }
                        },
                        None => {},
                    }
                    i = i + 1;
                }
                found
            },
            None => None,
        };
        let released = self.any_released_now();
        let down = self.is_any_mouse_down();
        let response = match (self.cursor_pos, hovered) {
            (Some(c), Some(_)) => self.zone_response_from(hierarchy, c, hovered),
            _ => SendEventResponse::NoAction,
        };
        self.press_response = response;
        self.hovered_widget = hovered;
        if hovered.is_some() {
            if released {
                self.focus_widget = hovered;
            }
            if down && self.active_widget.is_none() {
                self.active_widget = hovered;
            }
        }
    }

    /// Replaces the hit rectangles with this frame's: breadth-first, every
    /// widget that is not transparent registers its box, and the children of an
    /// opaque widget are not visited.
    pub fn register_handlers(
        &mut self,
        hierarchy: &Hierarchy,
        behaviours: &HashMap<u64, InputBehaviour>,
        layouts: &HashMap<u64, Layout>,
    )
        requires
            old(self).wf(),
        ensures
            final(self).wf(),
            final(self).registered_widgets@ == registrations(
                hierarchy@.breadth_first(opaque_ids(behaviours@)),
                behaviours@,
                layouts@,
            ),
            final(self).cursor_pos == old(self).cursor_pos,
            final(self).hovered_widget == old(self).hovered_widget,
            final(self).active_widget == old(self).active_widget,
            final(self).focus_widget == old(self).focus_widget,
            final(self).button_states@ == old(self).button_states@,
            final(self).timestamp == old(self).timestamp,
            final(self).viewport == old(self).viewport,
            final(self).keyboard_input@ == old(self).keyboard_input@,
            final(self).events_received_this_frame == old(self).events_received_this_frame,
            final(self).press_response == old(self).press_response,
    {
        let stop = collect_opaque(behaviours);
        let order = hierarchy.visit_breadth_first_with_cf(&stop);
        self.registered_widgets.clear();
        let mut i: usize = 0;
        while i < order.len()
            invariant
                i <= order.len(),
                order@ == hierarchy@.breadth_first(opaque_ids(behaviours@)),
                self.wf(),
                self.registered_widgets@ == registrations(order@.take(i as int), behaviours@, layouts@),
                self.cursor_pos == old(self).cursor_pos,
                self.hovered_widget == old(self).hovered_widget,
                self.active_widget == old(self).active_widget,
                self.focus_widget == old(self).focus_widget,
                self.button_states@ == old(self).button_states@,
                self.timestamp == old(self).timestamp,
                self.viewport == old(self).viewport,
                self.keyboard_input@ == old(self).keyboard_input@,
                self.events_received_this_frame == old(self).events_received_this_frame,
                self.press_response == old(self).press_response,
            decreases order.len() - i,
        {
            let id = order[i];
            let behaviour = lookup_behaviour(behaviours, id.0);
            let ghost before = self.registered_widgets@;
            let ghost t = order@.take(i as int + 1);
            assert(t =~= order@.take(i as int).push(id));
            if !behaviour.transparent {
                match layouts.get(&id.0) {
                    Some(layout) => {
                        self.registered_widgets.insert(id.0, RegisteredWidget { bounds: layout.box_bounds, behaviour });
                    },
                    None => {},
                }
            }
            assert(self.registered_widgets@ =~= registrations(t, behaviours@, layouts@)) by {
                assert forall|k: u64| #[trigger] listed(t, k) <==> (listed(order@.take(i as int), k) || k == id.0) by {
                    if exists|j: int| 0 <= j < i && (#[trigger] order@.take(i as int)[j]).0 == k {
                        let j = choose|j: int| 0 <= j < i && (#[trigger] order@.take(i as int)[j]).0 == k;
                        assert(t[j] == order@.take(i as int)[j]);
                    }
                    if k == id.0 {
                        assert(t[i as int] == id);
                    }
                    if exists|j: int| 0 <= j < t.len() && (#[trigger] t[j]).0 == k {
                        let j = choose|j: int| 0 <= j < t.len() && (#[trigger] t[j]).0 == k;
                        if j < i {
                            assert(order@.take(i as int)[j] == t[j]);
                        }
                    }
                }
            }
            i = i + 1;
        }
        assert(order@.take(order.len() as int) =~= order@);
    }
}

} // verus!
