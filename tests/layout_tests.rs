use retained_ui::layout::{
    inset_lengths, layout_children_linear, measure_children_linear, outset_lengths, Align, Axis, BoxLengths, Layout,
    LayoutConstraints, Rect, SizingBehaviour, Vec2, UNBOUNDED,
};
use retained_ui::widget_config::WidgetParameter;

fn rect(x0: i64, y0: i64, x1: i64, y1: i64) -> Rect {
    Rect { min: Vec2 { x: x0, y: y0 }, max: Vec2 { x: x1, y: y1 } }
}

fn fixed_width(width: u32, margin: u32) -> LayoutConstraints {
    let mut c = LayoutConstraints::new();
    c.preferred_width.set(width);
    c.preferred_height.set(10);
    c.margin.set_uniform(margin);
    c.horizontal_size_policy.set(SizingBehaviour::Fixed);
    c.vertical_size_policy.set(SizingBehaviour::Fixed);
    c
}

fn spring(margin: u32) -> LayoutConstraints {
    let mut c = LayoutConstraints::new();
    c.margin.set_uniform(margin);
    c.horizontal_size_policy.set(SizingBehaviour::Flexible);
    c.vertical_size_policy.set(SizingBehaviour::Fixed);
    c
}

#[test]
fn scenario_a_fixed_children_left_to_right() {
    let cs = vec![fixed_width(20, 8), fixed_width(50, 8), fixed_width(100, 8)];
    let ls = layout_children_linear(rect(0, 0, 400, 100), Axis::Horizontal, Align::Start, &cs);
    assert_eq!(ls.len(), 3);
    assert_eq!(ls[0].position.x, 8);
    assert_eq!(ls[0].size.x, 20);
    // adjacent margins collapse to max(8, 8)
    assert_eq!(ls[1].position.x, 36);
    assert_eq!(ls[1].size.x, 50);
    assert_eq!(ls[2].position.x, 94);
    assert_eq!(ls[2].size.x, 100);
    assert!(ls[2].box_bounds.max.x + 8 <= 400);
    assert_eq!(ls[2].box_bounds.max.x, 194);
}

#[test]
fn scenario_b_spring_absorbs_slack() {
    let cs = vec![fixed_width(20, 8), spring(8), fixed_width(50, 8)];
    let ls = layout_children_linear(rect(0, 0, 400, 100), Axis::Horizontal, Align::Start, &cs);
    assert_eq!(ls[0].size.x, 20);
    assert_eq!(ls[2].size.x, 50);
    // slack = 400 - (8 + 8 + 8 + 8) - (20 + 0 + 50)
    assert_eq!(ls[1].size.x, 298);
    assert_eq!(ls[2].box_bounds.max.x + 8, 400);
}

#[test]
fn fixed_siblings_that_fit_exactly_keep_preferred_lengths() {
    // margins 5 + 5 + 5 = 15 collapsed, lengths 30 + 55 = 85, total 100
    let cs = vec![fixed_width(30, 5), fixed_width(55, 5)];
    let ls = layout_children_linear(rect(10, 0, 110, 50), Axis::Horizontal, Align::Start, &cs);
    assert_eq!(ls[0].size.x, 30);
    assert_eq!(ls[1].size.x, 55);
    assert_eq!(ls[1].box_bounds.max.x + 5, 110);
}

#[test]
fn growable_child_stops_at_its_maximum() {
    let mut a = LayoutConstraints::new();
    a.max_width.set(40);
    a.horizontal_size_policy.set(SizingBehaviour::CanGrow);
    let b = spring(0);
    let ls = layout_children_linear(rect(0, 0, 200, 20), Axis::Horizontal, Align::Start, &vec![a, b]);
    assert_eq!(ls[0].size.x, 40);
    assert_eq!(ls[1].size.x, 160);
}

#[test]
fn shrinkable_child_floors_at_minimum_with_negative_slack() {
    let mut a = LayoutConstraints::new();
    a.min_width.set(30);
    a.preferred_width.set(80);
    a.horizontal_size_policy.set(SizingBehaviour::CanShrink);
    let ls = layout_children_linear(rect(0, 0, 10, 10), Axis::Horizontal, Align::Start, &vec![a]);
    assert_eq!(ls[0].size.x, 30);
}

#[test]
fn even_share_between_two_flexible_children() {
    let ls = layout_children_linear(rect(0, 0, 100, 10), Axis::Horizontal, Align::Start, &vec![spring(0), spring(0)]);
    assert_eq!(ls[0].size.x, 50);
    assert_eq!(ls[1].size.x, 50);
    assert_eq!(ls[1].position.x, 50);
}

#[test]
fn layout_is_deterministic() {
    let cs = vec![fixed_width(20, 3), spring(2), fixed_width(7, 1)];
    let a = layout_children_linear(rect(-5, 3, 300, 90), Axis::Vertical, Align::Middle, &cs);
    let b = layout_children_linear(rect(-5, 3, 300, 90), Axis::Vertical, Align::Middle, &cs);
    assert_eq!(a, b);
}

#[test]
fn empty_group_gives_no_layouts() {
    let ls = layout_children_linear(rect(0, 0, 10, 10), Axis::Horizontal, Align::Start, &Vec::new());
    assert!(ls.is_empty());
}

#[test]
fn cross_axis_stretches_and_aligns() {
    let mut c = LayoutConstraints::new();
    c.margin.set_uniform(2);
    let ls = layout_children_linear(rect(0, 0, 50, 30), Axis::Horizontal, Align::Start, &vec![c]);
    // cross length: 30 - 4 clamped into [0, unbounded]
    assert_eq!(ls[0].size.y, 26);
    assert_eq!(ls[0].position.y, 2);

    let mut m = fixed_width(10, 0);
    m.self_alignment.set(Align::Middle);
    let ls = layout_children_linear(rect(0, 0, 50, 30), Axis::Horizontal, Align::Start, &vec![m]);
    assert_eq!(ls[0].size.y, 10);
    assert_eq!(ls[0].position.y, 10);

    let ls = layout_children_linear(rect(0, 0, 50, 30), Axis::Horizontal, Align::End, &vec![fixed_width(10, 3)]);
    assert_eq!(ls[0].position.y, 30 - 3 - 10);
}

#[test]
fn inset_collapses_instead_of_inverting() {
    let b = rect(0, 0, 10, 10);
    let r = inset_lengths(&b, &BoxLengths::uniform(8));
    assert_eq!(r, rect(2, 2, 2, 2));
    let r = inset_lengths(&b, &BoxLengths::new(1, 2, 3, 4));
    assert_eq!(r, rect(1, 3, 8, 6));
    let r = outset_lengths(&b, &BoxLengths::new(1, 2, 3, 4));
    assert_eq!(r, rect(-1, -3, 12, 14));
}

#[test]
fn derived_rectangles_use_padding_and_margin() {
    let mut c = fixed_width(40, 4);
    c.padding.set_uniform(5);
    let ls: Vec<Layout> = layout_children_linear(rect(0, 0, 100, 100), Axis::Horizontal, Align::Start, &vec![c]);
    let l = ls[0];
    assert_eq!(l.box_bounds, rect(4, 4, 44, 14));
    assert_eq!(l.content_bounds, rect(9, 9, 39, 9));
    assert_eq!(l.margin_bounds, rect(0, 0, 48, 18));
    assert_eq!(l.clip_rect, None);
}

#[test]
fn measurement_sums_main_and_maxes_cross() {
    let mut a = LayoutConstraints::new();
    a.preferred_width.set(20);
    a.preferred_height.set(30);
    a.margin.set_uniform(8);
    a.set_size_policy(SizingBehaviour::Fixed);
    let b = fixed_width(50, 4);
    let m = measure_children_linear(Axis::Horizontal, &vec![a, b]);
    // margins 8 + max(8, 4) + 4 = 20
    assert_eq!(m.min_main, 90);
    assert_eq!(m.preferred_main, 90);
    assert_eq!(m.preferred_cross, 46);
    assert_eq!(m.min_cross, 46);
}

#[test]
fn children_measurement_becomes_default_lengths() {
    let mut parent = LayoutConstraints::new();
    parent.padding.set_uniform(8);
    parent.min_height.set(5);
    let m = measure_children_linear(Axis::Horizontal, &vec![fixed_width(20, 0)]);
    parent.apply_children_measurement(&m);
    assert_eq!(parent.min_width.get(), 36);
    assert_eq!(parent.preferred_width.get(), 36);
    assert_eq!(parent.min_height.get(), 5);
    assert_eq!(parent.preferred_height.get(), 26);
}

#[test]
fn length_accessors_follow_policy() {
    let mut c = LayoutConstraints::new();
    c.min_width.set(10);
    c.preferred_width.set(30);
    c.max_width.set(50);
    let mut f = c;
    f.horizontal_size_policy.set(SizingBehaviour::Fixed);
    assert_eq!(f.min_length(Axis::Horizontal), 30);
    assert_eq!(f.max_length(Axis::Horizontal), 30);
    c.horizontal_size_policy.set(SizingBehaviour::Flexible);
    assert_eq!(c.min_length(Axis::Horizontal), 10);
    assert_eq!(c.max_length(Axis::Horizontal), 50);
    assert_eq!(c.max_length_unconstrained(Axis::Vertical), UNBOUNDED as i64);
}

#[test]
fn widget_parameter_first_explicit_write_wins() {
    let mut p = WidgetParameter::new(3u32);
    assert!(!p.is_set());
    p.set_default(4);
    assert_eq!(p.get(), 4);
    assert_eq!(p.get_or(9), 9);
    p.set(5);
    p.set_default(6);
    assert!(p.is_set());
    assert_eq!(p.get(), 5);
    assert_eq!(p.get_or(9), 5);
    p.set(7);
    assert_eq!(p.get(), 5);
}

#[test]
fn axis_opposite() {
    assert_eq!(Axis::Horizontal.opposite(), Axis::Vertical);
    assert_eq!(Axis::Vertical.opposite(), Axis::Horizontal);
}

#[test]
fn share_remainder_goes_out_one_pixel_at_a_time() {
    let ls = layout_children_linear(rect(0, 0, 10, 10), Axis::Horizontal, Align::Start, &vec![spring(0), spring(0), spring(0)]);
    assert_eq!((ls[0].size.x, ls[1].size.x, ls[2].size.x), (4, 3, 3));
    assert_eq!(ls[2].box_bounds.max.x, 10);
    let ls = layout_children_linear(rect(0, 0, 11, 10), Axis::Horizontal, Align::Start, &vec![spring(0), spring(0), spring(0)]);
    assert_eq!((ls[0].size.x, ls[1].size.x, ls[2].size.x), (4, 4, 3));
}

#[test]
fn first_explicit_write_wins_in_setters() {
    let mut c = LayoutConstraints::new();
    c.set_width(20);
    c.set_width(30);
    assert_eq!((c.min_width.get(), c.max_width.get()), (20, 20));
    c.margin.set_uniform(3);
    c.margin.set_horizontal(9);
    assert_eq!((c.margin.left.get(), c.margin.top.get()), (3, 3));
    c.set_size_policy(SizingBehaviour::Fixed);
    c.set_size_policy(SizingBehaviour::Flexible);
    assert_eq!(c.horizontal_size_policy.get(), SizingBehaviour::Fixed);
}
