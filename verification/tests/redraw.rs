use makepad_core::area::{request_redraw, Area, InstanceArea, ViewArea};
use makepad_core::cx::Cx;
use makepad_core::math::{Vec2, DPI_FACTOR_ONE};
use makepad_core::pass::{CxPass, CxPassDepOf};
use makepad_core::view::{nesting_is_finite, view_is_within, views_are_nested, CxView};
use makepad_core::window::{CxWindow, CxWindowState, WindowGeom};

fn view_area(view_id: usize) -> Area {
    Area::View(ViewArea { view_id, redraw_id: 0 })
}

fn instance_area(view_id: usize, draw_item_id: usize) -> Area {
    Area::Instance(InstanceArea { view_id, draw_item_id, redraw_id: 0 })
}

fn view(pass_id: usize, nesting_view_id: usize) -> CxView {
    let mut v = CxView::new();
    v.pass_id = pass_id;
    v.nesting_view_id = nesting_view_id;
    v
}

fn window(window_state: CxWindowState, dpi_factor: u32, main_pass_id: Option<usize>) -> CxWindow {
    let zero = Vec2::zero();
    CxWindow {
        window_state,
        window_geom: WindowGeom {
            dpi_factor,
            xr_is_presenting: false,
            is_fullscreen: false,
            position: zero,
            inner_size: zero,
            outer_size: zero,
        },
        main_pass_id,
    }
}

/// root(0) contains X(1) contains Y(2) contains Z(3)
fn chain() -> Cx {
    let mut cx = Cx::default();
    cx.views = vec![view(0, 0), view(0, 0), view(0, 1), view(0, 2)];
    cx
}

#[test]
fn area_view_id() {
    assert_eq!(Area::Empty.view_id(), None);
    assert_eq!(Area::All.view_id(), None);
    assert_eq!(view_area(4).view_id(), Some(4));
    assert_eq!(instance_area(6, 1).view_id(), Some(6));
    assert!(Area::Empty.is_empty());
    assert!(!Area::All.is_empty());
}

#[test]
fn redraw_list_is_a_set() {
    let mut list = Vec::new();
    request_redraw(&mut list, view_area(1));
    request_redraw(&mut list, view_area(2));
    request_redraw(&mut list, view_area(1));
    request_redraw(&mut list, Area::Empty);
    assert_eq!(list, vec![view_area(1), view_area(2), Area::Empty]);
}

#[test]
fn areas_that_differ_in_generation_are_different_requests() {
    let mut list = Vec::new();
    request_redraw(&mut list, Area::View(ViewArea { view_id: 1, redraw_id: 0 }));
    request_redraw(&mut list, Area::View(ViewArea { view_id: 1, redraw_id: 1 }));
    assert_eq!(list.len(), 2);
}

#[test]
fn redraw_all_absorbs_child_requests() {
    let mut cx = Cx::default();
    cx.redraw_child_area(view_area(1));
    cx.redraw_child_area(instance_area(2, 0));
    cx.redraw_child_area(Area::All);
    assert_eq!(cx.redraw_child_areas, vec![Area::All]);
    cx.redraw_child_area(view_area(3));
    assert_eq!(cx.redraw_child_areas, vec![Area::All]);
    cx.redraw_child_area(Area::All);
    assert_eq!(cx.redraw_child_areas, vec![Area::All]);
    assert!(cx.redraw_parent_areas.is_empty());
}

#[test]
fn redraw_all_absorbs_parent_requests() {
    let mut cx = Cx::default();
    cx.redraw_parent_area(Area::All);
    cx.redraw_parent_area(instance_area(5, 2));
    cx.redraw_parent_area(Area::Empty);
    assert_eq!(cx.redraw_parent_areas, vec![Area::All]);
    assert!(cx.redraw_child_areas.is_empty());
}

#[test]
fn redraw_previous_areas_repeats_the_requests_of_the_cycle() {
    let mut cx = Cx::default();
    cx._redraw_child_areas = vec![view_area(1), view_area(2)];
    cx._redraw_parent_areas = vec![view_area(3)];
    cx.redraw_child_areas = vec![view_area(2)];
    cx.redraw_previous_areas();
    assert_eq!(cx.redraw_child_areas, vec![view_area(2), view_area(1)]);
    assert_eq!(cx.redraw_parent_areas, vec![view_area(3)]);
    assert_eq!(cx._redraw_child_areas, vec![view_area(1), view_area(2)]);
}

#[test]
fn nesting_walk() {
    let cx = chain();
    assert!(view_is_within(&cx.views, 3, 1));
    assert!(view_is_within(&cx.views, 3, 3));
    assert!(view_is_within(&cx.views, 3, 0));
    assert!(!view_is_within(&cx.views, 1, 3));
    assert!(!view_is_within(&cx.views, 0, 2));
}

#[test]
fn child_request_reaches_the_views_inside() {
    let mut cx = chain();
    cx._redraw_child_areas = vec![view_area(2)];
    assert!(cx.view_will_redraw(3));
    assert!(cx.view_will_redraw(2));
    assert!(!cx.view_will_redraw(1));
    assert!(!cx.view_will_redraw(0));
}

#[test]
fn parent_request_reaches_the_views_around() {
    let mut cx = chain();
    cx._redraw_parent_areas = vec![view_area(2)];
    assert!(cx.view_will_redraw(1));
    assert!(cx.view_will_redraw(2));
    assert!(cx.view_will_redraw(0));
    assert!(!cx.view_will_redraw(3));
}

#[test]
fn instance_requests_go_by_their_view() {
    let mut cx = chain();
    cx._redraw_child_areas = vec![Area::Empty, instance_area(1, 7)];
    assert!(cx.view_will_redraw(3));
    assert!(!cx.view_will_redraw(0));
    cx._redraw_child_areas = vec![];
    cx._redraw_parent_areas = vec![instance_area(3, 0)];
    assert!(cx.view_will_redraw(1));
}

#[test]
fn redraw_all_reaches_every_view() {
    let mut cx = chain();
    assert!(!cx.view_will_redraw(2));
    cx._redraw_parent_areas = vec![Area::All];
    assert!(cx.view_will_redraw(0));
    assert!(cx.view_will_redraw(3));
}

#[test]
fn requests_are_seen_in_the_cycle_after_they_were_made() {
    let mut cx = chain();
    cx.redraw_child_area(view_area(2));
    assert!(!cx.view_will_redraw(3));
}

fn pass(dep_of: CxPassDepOf, main_view_id: Option<usize>) -> CxPass {
    CxPass { paint_dirty: false, dep_of, main_view_id }
}

#[test]
fn invalidation_walks_up_the_dependency_chain() {
    let mut cx = Cx::default();
    cx.passes = vec![
        pass(CxPassDepOf::Window(0), Some(10)),
        pass(CxPassDepOf::Pass(0), None),
        pass(CxPassDepOf::Pass(1), Some(12)),
        pass(CxPassDepOf::Pass(0), Some(13)),
    ];
    cx.redraw_pass_and_dep_of_passes(2);
    assert_eq!(cx.redraw_parent_areas, vec![view_area(12), view_area(10)]);
    assert!(cx.redraw_child_areas.is_empty());
}

#[test]
fn invalidation_walks_down_to_the_sub_passes() {
    let mut cx = Cx::default();
    cx.passes = vec![
        pass(CxPassDepOf::Window(0), Some(10)),
        pass(CxPassDepOf::Pass(0), Some(11)),
        pass(CxPassDepOf::Pass(1), Some(12)),
        pass(CxPassDepOf::Pass(0), Some(13)),
        pass(CxPassDepOf::Nothing, Some(14)),
    ];
    cx.redraw_pass_and_sub_passes(0);
    assert_eq!(
        cx.redraw_parent_areas,
        vec![view_area(10), view_area(11), view_area(12), view_area(13)]
    );
    let mut cx2 = Cx::default();
    cx2.passes = cx.passes.clone();
    cx2.redraw_pass_and_sub_passes(1);
    assert_eq!(cx2.redraw_parent_areas, vec![view_area(11), view_area(12)]);
}

#[test]
fn redraw_pass_of_an_area() {
    let mut cx = Cx::default();
    cx.passes = vec![pass(CxPassDepOf::Window(0), Some(1)), pass(CxPassDepOf::Pass(0), Some(2))];
    cx.views = vec![view(0, 0), view(0, 0), view(1, 0)];
    cx.redraw_pass_of(instance_area(2, 0));
    assert_eq!(cx.redraw_parent_areas, vec![view_area(2), view_area(1)]);
    cx.redraw_pass_of(Area::Empty);
    assert_eq!(cx.redraw_parent_areas, vec![view_area(2), view_area(1)]);
    let mut cx = Cx::default();
    cx.passes = vec![pass(CxPassDepOf::Window(0), Some(1)), pass(CxPassDepOf::Pass(0), Some(2))];
    cx.views = vec![view(0, 0), view(0, 0), view(1, 0)];
    cx.redraw_pass_of(view_area(1));
    assert_eq!(cx.redraw_parent_areas, vec![view_area(1)]);
}

#[test]
fn redraw_pass_of_all_takes_the_live_windows() {
    let mut cx = Cx::default();
    cx.passes = vec![
        pass(CxPassDepOf::Window(0), Some(1)),
        pass(CxPassDepOf::Window(1), Some(2)),
        pass(CxPassDepOf::Window(2), Some(3)),
    ];
    cx.windows = vec![
        window(CxWindowState::Created, 2000, Some(0)),
        window(CxWindowState::Closed, 2000, Some(1)),
        window(
            CxWindowState::Create { inner_size: Vec2::zero(), position: None, title: String::new() },
            2000,
            Some(2),
        ),
        window(CxWindowState::Created, 2000, None),
    ];
    cx.redraw_pass_of(Area::All);
    assert_eq!(cx.redraw_parent_areas, vec![view_area(1), view_area(3)]);
}

#[test]
fn dpi_factor_comes_from_the_window_at_the_end_of_the_chain() {
    let mut cx = Cx::default();
    cx.default_dpi_factor = 1500;
    cx.passes = vec![
        pass(CxPassDepOf::Window(0), None),
        pass(CxPassDepOf::Pass(0), None),
        pass(CxPassDepOf::Window(1), None),
        pass(CxPassDepOf::Window(2), None),
        pass(CxPassDepOf::Nothing, None),
    ];
    cx.windows = vec![
        window(CxWindowState::Created, 2000, Some(0)),
        window(
            CxWindowState::Create { inner_size: Vec2::zero(), position: None, title: String::new() },
            3000,
            Some(2),
        ),
        window(CxWindowState::Close, 3000, Some(3)),
    ];
    cx.views = vec![view(0, 0), view(1, 0), view(4, 0)];
    assert_eq!(cx.get_delegated_dpi_factor(0), 2000);
    assert_eq!(cx.get_delegated_dpi_factor(1), 2000);
    assert_eq!(cx.get_delegated_dpi_factor(2), 1500);
    assert_eq!(cx.get_delegated_dpi_factor(3), DPI_FACTOR_ONE);
    assert_eq!(cx.get_delegated_dpi_factor(4), DPI_FACTOR_ONE);
    assert_eq!(cx.get_dpi_factor_of(&view_area(1)), 2000);
    assert_eq!(cx.get_dpi_factor_of(&instance_area(2, 0)), DPI_FACTOR_ONE);
    assert_eq!(cx.get_dpi_factor_of(&Area::All), DPI_FACTOR_ONE);
    assert_eq!(cx.get_dpi_factor_of(&Area::Empty), DPI_FACTOR_ONE);
}

#[test]
fn dpi_walk_gives_up_after_25_passes() {
    let mut cx = Cx::default();
    cx.passes = vec![pass(CxPassDepOf::Window(0), None)];
    for i in 0..30 {
        cx.passes.push(pass(CxPassDepOf::Pass(i), None));
    }
    cx.windows = vec![window(CxWindowState::Created, 2000, Some(0))];
    assert_eq!(cx.get_delegated_dpi_factor(24), 2000);
    assert_eq!(cx.get_delegated_dpi_factor(25), DPI_FACTOR_ONE);
    // a chain that cycles ends as well
    cx.passes = vec![pass(CxPassDepOf::Pass(1), None), pass(CxPassDepOf::Pass(0), None)];
    assert_eq!(cx.get_delegated_dpi_factor(0), DPI_FACTOR_ONE);
}

#[test]
fn xr_presenting_is_read_from_the_window_being_drawn() {
    let mut cx = Cx::default();
    cx.windows = vec![
        window(CxWindowState::Created, 1000, None),
        window(CxWindowState::Created, 1000, None),
    ];
    cx.windows[1].window_geom.xr_is_presenting = true;
    cx.in_redraw_cycle = true;
    cx.window_stack = vec![0, 1];
    assert!(cx.is_xr_presenting());
    cx.window_stack = vec![1, 0];
    assert!(!cx.is_xr_presenting());
}

#[test]
fn nesting_is_checked() {
    let mut cx = chain();
    assert!(views_are_nested(&cx.views));
    assert!(nesting_is_finite(&cx.views, 3));
    assert!(cx.ancestry_is_defined(3));
    assert!(!cx.ancestry_is_defined(4));
    cx._redraw_child_areas = vec![Area::All, view_area(3), instance_area(4, 0)];
    assert!(!cx.redraw_areas_are_valid());
    assert!(!cx.ancestry_is_defined(3));
    cx._redraw_child_areas = vec![Area::All, view_area(3)];
    assert!(cx.redraw_areas_are_valid());
    // a cycle between 1 and 2
    cx.views[1].nesting_view_id = 2;
    assert!(!views_are_nested(&cx.views));
    assert!(!nesting_is_finite(&cx.views, 3));
    assert!(nesting_is_finite(&cx.views, 0));
    // a view nested in a view that does not exist
    cx.views[1].nesting_view_id = 9;
    assert!(!views_are_nested(&cx.views));
}

#[test]
fn invalidation_is_checked() {
    let mut cx = Cx::default();
    cx.passes = vec![pass(CxPassDepOf::Window(0), Some(1)), pass(CxPassDepOf::Pass(0), Some(2))];
    cx.views = vec![view(0, 0), view(0, 0), view(1, 0), view(5, 0)];
    assert!(!cx.windows_are_linked());
    assert!(!cx.dpi_walk_is_defined(1));
    assert!(!cx.dpi_factor_is_defined(&view_area(2)));
    assert!(cx.dpi_factor_is_defined(&Area::All));
    cx.windows = vec![window(CxWindowState::Created, 1000, Some(1))];
    assert!(cx.windows_are_linked());
    assert!(cx.dpi_walk_is_defined(1));
    assert!(!cx.dpi_walk_is_defined(2));
    assert!(cx.dpi_factor_is_defined(&view_area(2)));
    assert!(!cx.dpi_factor_is_defined(&view_area(3)));
    assert!(!cx.dpi_factor_is_defined(&view_area(4)));
    assert!(cx.can_redraw_pass_of(Area::All));
    assert!(cx.can_redraw_pass_of(Area::Empty));
    assert!(cx.can_redraw_pass_of(view_area(2)));
    assert!(!cx.can_redraw_pass_of(view_area(3)));
    assert!(!cx.can_redraw_pass_of(view_area(4)));
    cx.windows[0].main_pass_id = Some(2);
    assert!(!cx.can_redraw_pass_of(Area::All));
    cx.windows[0].window_state = CxWindowState::Closed;
    assert!(cx.can_redraw_pass_of(Area::All));
    cx.passes[0].dep_of = CxPassDepOf::Pass(1);
    assert!(!cx.can_redraw_pass_of(view_area(2)));
    cx.passes[0].dep_of = CxPassDepOf::Pass(2);
    assert!(cx.can_redraw_pass_of(Area::Empty));
    assert!(!cx.can_redraw_pass_of(view_area(1)));
}
