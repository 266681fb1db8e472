use std::collections::HashMap;

use retained_ui::hierarchy::{Hierarchy, WidgetId, WidgetIdFragment};
use retained_ui::input::{Input, InputBehaviour, InputEvent, KeyboardEvent, MouseButton, SendEventResponse};
use retained_ui::layout::{Layout, Rect, Vec2};

fn layout_at(x0: i64, y0: i64, x1: i64, y1: i64) -> Layout {
    let r = Rect { min: Vec2 { x: x0, y: y0 }, max: Vec2 { x: x1, y: y1 } };
    Layout {
        position: r.min,
        size: Vec2 { x: x1 - x0, y: y1 - y0 },
        box_bounds: r,
        margin_bounds: r,
        content_bounds: r,
        clip_rect: None,
    }
}

fn nested() -> (Hierarchy, WidgetId, WidgetId) {
    let mut h = Hierarchy::new();
    h.new_epoch();
    let a = h.add_or_update(WidgetIdFragment::TypedOrdered(1), None).unwrap().widget_id;
    let b = h.add_or_update(WidgetIdFragment::TypedOrdered(2), Some(a)).unwrap().widget_id;
    (h, a, b)
}

#[test]
fn scenario_c_opaque_drag_zone_intercepts_press() {
    let (h, a, b) = nested();
    let mut behaviours = HashMap::new();
    behaviours.insert(a.0, InputBehaviour { opaque: true, window_drag_zone: true, ..InputBehaviour::empty() });
    behaviours.insert(b.0, InputBehaviour::empty());
    let mut layouts = HashMap::new();
    layouts.insert(a.0, layout_at(0, 0, 100, 100));
    layouts.insert(b.0, layout_at(10, 10, 50, 50));

    let mut input = Input::new();
    input.register_handlers(&h, &behaviours, &layouts);
    // the opaque parent keeps its child out of hit testing
    assert!(input.registered_widgets.contains_key(&a.0));
    assert!(!input.registered_widgets.contains_key(&b.0));

    input.send_event(InputEvent::CursorMoved(Vec2 { x: 20, y: 20 }));
    input.process_events(&h);
    assert_eq!(input.hovered_widget, Some(a));
    let r = input.send_event(InputEvent::MousePressed(MouseButton::Left));
    assert_eq!(r, SendEventResponse::DragWindow);
    assert!(!input.is_mouse_down(MouseButton::Left));
    assert_eq!(input.active_widget, None);
}

#[test]
fn parent_drag_zone_catches_press_on_hovered_child() {
    let (h, a, b) = nested();
    let mut behaviours = HashMap::new();
    behaviours.insert(a.0, InputBehaviour { window_drag_zone: true, ..InputBehaviour::empty() });
    let mut layouts = HashMap::new();
    layouts.insert(a.0, layout_at(0, 0, 100, 100));
    layouts.insert(b.0, layout_at(10, 10, 50, 50));

    let mut input = Input::new();
    input.register_handlers(&h, &behaviours, &layouts);
    input.reset();
    input.send_event(InputEvent::CursorMoved(Vec2 { x: 20, y: 20 }));
    input.process_events(&h);
    assert_eq!(input.hovered_widget, Some(b));
    assert_eq!(input.press_response, SendEventResponse::DragWindow);
    let r = input.send_event(InputEvent::MousePressed(MouseButton::Left));
    assert_eq!(r, SendEventResponse::DragWindow);
    assert!(!input.is_mouse_down(MouseButton::Left));
    assert_eq!(input.button_state(MouseButton::Left).last_press_position, Vec2 { x: 0, y: 0 });
    assert_eq!(input.active_widget, None);
    assert_eq!(input.focus_widget, None);

    // outside the child but inside the parent, the parent is hovered and still drags
    input.send_event(InputEvent::CursorMoved(Vec2 { x: 80, y: 80 }));
    input.process_events(&h);
    assert_eq!(input.hovered_widget, Some(a));
    assert_eq!(input.send_event(InputEvent::MousePressed(MouseButton::Left)), SendEventResponse::DragWindow);
}

#[test]
fn deepest_hit_wins_and_press_then_release_sets_active_and_focus() {
    let (h, a, b) = nested();
    let behaviours = HashMap::new();
    let mut layouts = HashMap::new();
    layouts.insert(a.0, layout_at(0, 0, 100, 100));
    layouts.insert(b.0, layout_at(10, 10, 50, 50));
    let mut input = Input::new();
    input.register_handlers(&h, &behaviours, &layouts);
    assert_eq!(input.registered_widgets.len(), 2);

    input.reset();
    input.send_event(InputEvent::CursorMoved(Vec2 { x: 20, y: 20 }));
    assert_eq!(input.send_event(InputEvent::MousePressed(MouseButton::Left)), SendEventResponse::NoAction);
    assert!(input.is_mouse_down(MouseButton::Left));
    assert!(input.was_mouse_pressed(MouseButton::Left));
    input.process_events(&h);
    assert_eq!(input.hovered_widget, Some(b));
    assert_eq!(input.active_widget, Some(b));
    assert_eq!(input.focus_widget, None);

    input.reset();
    input.send_event(InputEvent::CursorMoved(Vec2 { x: 70, y: 90 }));
    assert_eq!(input.mouse_drag_delta(MouseButton::Left), Some(Vec2 { x: 50, y: 70 }));
    input.send_event(InputEvent::MouseReleased(MouseButton::Left));
    assert!(!input.is_mouse_down(MouseButton::Left));
    assert!(input.was_mouse_released(MouseButton::Left));
    assert_eq!(input.active_widget, None);
    input.process_events(&h);
    assert_eq!(input.hovered_widget, Some(a));
    assert_eq!(input.focus_widget, Some(a));
    assert_eq!(input.mouse_drag_delta(MouseButton::Left), None);
}

#[test]
fn transparent_widgets_do_not_register() {
    let (h, a, b) = nested();
    let mut behaviours = HashMap::new();
    behaviours.insert(b.0, InputBehaviour { transparent: true, ..InputBehaviour::empty() });
    let mut layouts = HashMap::new();
    layouts.insert(a.0, layout_at(0, 0, 100, 100));
    layouts.insert(b.0, layout_at(10, 10, 50, 50));
    let mut input = Input::new();
    input.register_handlers(&h, &behaviours, &layouts);
    assert!(input.registered_widgets.contains_key(&a.0));
    assert!(!input.registered_widgets.contains_key(&b.0));
}

#[test]
fn resize_zone_and_cursor_left() {
    let (h, a, _) = nested();
    let mut behaviours = HashMap::new();
    behaviours.insert(a.0, InputBehaviour { window_drag_resize_zone: true, ..InputBehaviour::empty() });
    let mut layouts = HashMap::new();
    layouts.insert(a.0, layout_at(0, 0, 5, 5));
    let mut input = Input::new();
    input.register_handlers(&h, &behaviours, &layouts);
    input.send_event(InputEvent::CursorMoved(Vec2 { x: 1, y: 1 }));
    input.process_events(&h);
    assert_eq!(input.hovered_widget, Some(a));
    assert_eq!(input.send_event(InputEvent::MousePressed(MouseButton::Right)), SendEventResponse::DragResizeWindow);
    input.send_event(InputEvent::CursorLeft);
    assert_eq!(input.hovered_widget, None);
    assert_eq!(input.cursor_pos, None);
    assert!(input.events_received_this_frame);
}

#[test]
fn keyboard_characters_queue_until_reset() {
    let mut input = Input::new();
    input.send_event(InputEvent::Character('h'));
    input.send_event(InputEvent::Character('i'));
    assert_eq!(input.keyboard_input, vec![KeyboardEvent::Character('h'), KeyboardEvent::Character('i')]);
    input.reset();
    assert!(input.keyboard_input.is_empty());
    assert!(!input.events_received_this_frame);
    assert!(!input.is_any_mouse_down());
}
