use std::collections::HashMap;

use retained_ui::input::{InputBehaviour, InputEvent, MouseButton};
use retained_ui::layout::{Align, Axis, LayoutConstraints, Rect, SizingBehaviour, Vec2};
use retained_ui::system::{clip_rects, draw_list, rect_intersects, System, WidgetLifecycleEvent};
use retained_ui::hierarchy::WidgetId;
use retained_ui::state_box::StateBox;
use retained_ui::widget_store::WidgetStore;
use retained_ui::style::{text_color_role, WidgetColorRole};
use retained_ui::viewport::Viewport;
use retained_ui::widgets::{BoxLayout, Button, Checkbox, Dummy, Spring, Text, Toggle};

const ROW: u64 = 10;
const BOX: u64 = 11;

fn fixed(width: u32, height: u32) -> LayoutConstraints {
    let mut c = LayoutConstraints::new();
    c.preferred_width.set(width);
    c.preferred_height.set(height);
    c.horizontal_size_policy.set(SizingBehaviour::Fixed);
    c.vertical_size_policy.set(SizingBehaviour::Fixed);
    c
}

#[test]
fn frame_pipeline_measures_arranges_and_clips() {
    let mut sys = System::new();
    sys.set_size(Vec2 { x: 200, y: 100 });
    assert!(sys.should_redraw());
    sys.begin_frame();
    let (row, e) = sys.add_widget_to(ROW, None).unwrap();
    assert_eq!(e, WidgetLifecycleEvent::Created);
    let (a, _) = sys.add_widget_to(BOX, Some(row)).unwrap();
    let (b, _) = sys.add_widget_to(BOX, Some(row)).unwrap();
    assert!(sys.garbage_collect().is_empty());

    let mut own = HashMap::new();
    let mut row_c = LayoutConstraints::new();
    BoxLayout::horizontal().configure(&mut row_c);
    own.insert(row.0, row_c);
    own.insert(a.0, fixed(30, 20));
    own.insert(b.0, fixed(40, 20));
    sys.finish_frame(&own);

    // row: padding 8 around 30 + 40
    let rc = sys.widget_constraints[&row.0];
    assert_eq!(rc.preferred_width.get(), 86);
    assert_eq!(rc.preferred_height.get(), 36);
    let rl = sys.widget_layouts[&row.0];
    assert_eq!(rl.box_bounds, Rect { min: Vec2 { x: 0, y: 0 }, max: Vec2 { x: 86, y: 36 } });
    assert_eq!(rl.clip_rect, None);
    let al = sys.widget_layouts[&a.0];
    assert_eq!(al.box_bounds, Rect { min: Vec2 { x: 8, y: 8 }, max: Vec2 { x: 38, y: 28 } });
    assert_eq!(al.clip_rect, Some(rl.box_bounds));
    let bl = sys.widget_layouts[&b.0];
    assert_eq!(bl.box_bounds.min.x, 38);
    assert_eq!(sys.min_size, Vec2 { x: 86, y: 36 });
    assert_eq!(sys.input.registered_widgets.len(), 3);

    // the next frame omits `b`
    sys.prepare_next_frame();
    sys.begin_frame();
    assert_eq!(sys.add_widget_to(ROW, None).unwrap(), (row, WidgetLifecycleEvent::Updated));
    assert_eq!(sys.add_widget_to(BOX, Some(row)).unwrap(), (a, WidgetLifecycleEvent::Updated));
    assert_eq!(sys.garbage_collect(), vec![b]);
}

#[test]
fn pointer_down_on_registered_widget_becomes_active_next_frame() {
    let mut sys = System::new();
    sys.set_size(Vec2 { x: 100, y: 100 });
    sys.begin_frame();
    let (w, _) = sys.add_widget_to(BOX, None).unwrap();
    sys.set_input_behaviour(w, InputBehaviour::empty());
    sys.garbage_collect();
    let mut own = HashMap::new();
    own.insert(w.0, fixed(50, 50));
    sys.finish_frame(&own);

    sys.prepare_next_frame();
    sys.input.send_event(InputEvent::CursorMoved(Vec2 { x: 10, y: 10 }));
    sys.input.send_event(InputEvent::MousePressed(MouseButton::Left));
    assert!(sys.should_redraw());
    sys.begin_frame();
    assert_eq!(sys.input.hovered_widget, Some(w));
    assert_eq!(sys.input.active_widget, Some(w));
}

#[test]
fn rect_helpers() {
    let a = Rect { min: Vec2 { x: 0, y: 0 }, max: Vec2 { x: 10, y: 10 } };
    let b = Rect { min: Vec2 { x: 5, y: 5 }, max: Vec2 { x: 20, y: 20 } };
    let c = Rect { min: Vec2 { x: 11, y: 0 }, max: Vec2 { x: 20, y: 10 } };
    assert!(rect_intersects(&a, &b));
    assert!(!rect_intersects(&a, &c));
    assert_eq!(clip_rects(&a, &b), Rect { min: Vec2 { x: 5, y: 5 }, max: Vec2 { x: 10, y: 10 } });
}

#[test]
fn built_in_widget_defaults() {
    let mut c = LayoutConstraints::new();
    let mut input = InputBehaviour::empty();
    Spring(Axis::Horizontal).configure(&mut c, &mut input);
    assert_eq!(c.horizontal_size_policy.get(), SizingBehaviour::Flexible);
    assert_eq!(c.vertical_size_policy.get(), SizingBehaviour::Fixed);
    assert_eq!(c.self_alignment.get(), Align::Middle);
    assert!(input.transparent);

    let mut c = LayoutConstraints::new();
    c.padding.set_uniform(1);
    let mut input = InputBehaviour::empty();
    Button {}.configure(&mut c, &mut input);
    assert_eq!(c.padding.left.get(), 1);
    assert_eq!(c.margin.left.get(), 4);
    assert_eq!(c.content_alignment.get(), Align::Middle);
    assert!(input.opaque);

    let mut c = LayoutConstraints::new();
    let mut input = InputBehaviour::empty();
    Checkbox { value: true }.configure(&mut c, &mut input);
    assert_eq!(c.preferred_width.get(), 18);
    let mut c = LayoutConstraints::new();
    Toggle { value: false }.configure(&mut c, &mut input);
    assert_eq!((c.preferred_width.get(), c.preferred_height.get()), (40, 24));

    let mut c = LayoutConstraints::new();
    c.padding.set_uniform(3);
    let mut input = InputBehaviour::empty();
    Text {}.configure(&mut c, &mut input, 50, 12);
    assert_eq!((c.min_width.get(), c.min_height.get()), (56, 18));
    assert!(input.transparent);

    let mut c = LayoutConstraints::new();
    Dummy {}.configure(&mut c);
    assert_eq!(c.padding.top.get(), 8);

    let mut c = LayoutConstraints::new();
    BoxLayout::vertical().configure(&mut c);
    assert_eq!(c.layout_axis.get(), Axis::Vertical);
    assert_eq!(c.padding.bottom.get(), 8);
    assert_eq!(c.margin.bottom.get(), 0);
}

#[test]
fn draw_list_skips_widgets_outside_their_clip() {
    let mut sys = System::new();
    sys.set_size(Vec2 { x: 200, y: 100 });
    sys.begin_frame();
    let (row, _) = sys.add_widget_to(ROW, None).unwrap();
    let (a, _) = sys.add_widget_to(BOX, Some(row)).unwrap();
    let (b, _) = sys.add_widget_to(BOX, Some(row)).unwrap();
    sys.garbage_collect();
    let mut own = HashMap::new();
    let mut row_c = LayoutConstraints::new();
    BoxLayout::horizontal().configure(&mut row_c);
    row_c.set_width(20);
    own.insert(row.0, row_c);
    own.insert(a.0, fixed(30, 10));
    own.insert(b.0, fixed(30, 10));
    sys.finish_frame(&own);
    // `b` starts at x = 38, past the row's box that ends at x = 20
    assert_eq!(sys.widget_layouts[&b.0].box_bounds.min.x, 38);
    assert_eq!(draw_list(&sys.hierarchy, &sys.widget_layouts), vec![row, a]);
}

#[test]
fn parent_stack_nests_declarations() {
    let mut ui = retained_ui::ui::Ui::new();
    ui.system.begin_frame();
    assert_eq!(ui.parent_id(), None);
    let (row, _) = ui.add_widget(ROW).unwrap();
    ui.push_layout(row);
    assert_eq!(ui.parent_id(), Some(row));
    let (child, _) = ui.add_widget(BOX).unwrap();
    assert_eq!(ui.system.hierarchy.parent(child), Some(row));
    assert_eq!(ui.pop_layout(), Ok(row));
    assert_eq!(ui.pop_layout(), Err(retained_ui::ui::UiError::ParentStackEmpty));
    // a parent not declared in this frame is refused
    ui.system.garbage_collect();
    ui.system.begin_frame();
    ui.push_layout(child);
    assert_eq!(ui.add_widget(BOX), Err(retained_ui::ui::UiError::InvalidParent));
    assert_eq!(ui.system.hierarchy.children(None), &[row][..]);
}

#[test]
fn state_box_creates_on_first_request() {
    let mut s: StateBox<u32> = StateBox::empty();
    assert!(!s.has());
    *s.get_or_default() += 3;
    assert!(s.has());
    assert_eq!(*s.get_or_insert(9), 3);
    s.set(7);
    assert_eq!(*s.get(), 7);
    let mut t = StateBox::new(String::from("a"));
    t.get().push('b');
    assert_eq!(t.value.as_deref(), Some("ab"));
}

#[test]
fn color_roles_and_viewport() {
    assert_eq!(WidgetColorRole::Primary.on_color(), WidgetColorRole::OnPrimary);
    assert_eq!(WidgetColorRole::ErrorContainer.on_color(), WidgetColorRole::OnErrorContainer);
    assert_eq!(WidgetColorRole::Outline.on_color(), WidgetColorRole::OnSurface);
    assert_eq!(text_color_role(None), WidgetColorRole::OnSurface);
    assert_eq!(text_color_role(Some(WidgetColorRole::Secondary)), WidgetColorRole::OnSecondary);
    let mut v = Viewport::new();
    v.size = Vec2 { x: 30, y: 20 };
    assert_eq!(v.view_bounds(), Rect { min: Vec2 { x: 0, y: 0 }, max: Vec2 { x: 30, y: 20 } });
    assert_eq!(v.physical_to_view(Vec2 { x: 4, y: 5 }), Vec2 { x: 4, y: 5 });
}

#[test]
fn widget_store_keeps_state_on_update_and_drops_on_destroy() {
    let mut store: WidgetStore<&'static str, u32> = WidgetStore::new();
    let id = WidgetId(7);
    store.declare(id, WidgetLifecycleEvent::Created, "first");
    *store.entries.get_mut(&id.0).unwrap().state.get_or_default() = 5;
    store.declare(id, WidgetLifecycleEvent::Updated, "second");
    let e = &store.entries[&id.0];
    assert_eq!(e.widget, "second");
    assert_eq!(e.state.value, Some(5));
    store.declare(id, WidgetLifecycleEvent::Created, "third");
    assert_eq!(store.entries[&id.0].state.value, None);
    let gone = store.destroy(id).unwrap();
    assert_eq!(gone.widget, "third");
    assert!(store.destroy(id).is_none());
}
