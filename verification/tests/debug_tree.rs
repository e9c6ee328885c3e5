use makepad_core::cx::Cx;
use makepad_core::debug_tree::DrawTreeLine;
use makepad_core::math::Vec2;
use makepad_core::view::{CxDrawCall, CxDrawItem, CxDrawShader, CxView};

fn call(draw_shader_id: usize, instances_len: usize) -> CxDrawItem {
    CxDrawItem { sub_view_id: None, draw_call: Some(CxDrawCall { draw_shader_id, instances_len }) }
}

fn sub_view(view_id: usize) -> CxDrawItem {
    CxDrawItem { sub_view_id: Some(view_id), draw_call: None }
}

fn view(nesting_view_id: usize, draw_items: Vec<CxDrawItem>) -> CxView {
    let mut v = CxView::new();
    v.nesting_view_id = nesting_view_id;
    v.draw_items_len = draw_items.len();
    v.draw_items = draw_items;
    v
}

fn tree() -> Cx {
    let mut cx = Cx::default();
    cx.redraw_id = 9;
    cx.draw_shaders = vec![
        CxDrawShader { name: "quad".to_string(), instance_slots: 4 },
        CxDrawShader { name: "text".to_string(), instance_slots: 10 },
    ];
    cx.views = vec![
        view(0, vec![call(0, 8), sub_view(1), call(1, 9)]),
        view(0, vec![sub_view(2)]),
        view(1, vec![call(1, 30)]),
    ];
    cx.views[1].unsnapped_scroll = Vec2 { x: 0, y: 2500 };
    // an item that is allocated and not in use is not dumped
    cx.views[2].draw_items.push(call(0, 4));
    cx
}

#[test]
fn dump_of_the_whole_tree() {
    let mut cx = tree();
    let mut lines = Vec::new();
    cx.debug_draw_tree_recur(false, &mut lines, 0, 0);
    let zero = Vec2 { x: 0, y: 0 };
    assert_eq!(
        lines,
        vec![
            DrawTreeLine::Begin { redraw_id: 9 },
            DrawTreeLine::View { depth: 0, view_id: 0, draw_items_len: 3, scroll: zero },
            DrawTreeLine::Call { depth: 1, draw_item_id: 0, draw_shader_id: 0, instances: 2 },
            DrawTreeLine::View {
                depth: 1,
                view_id: 1,
                draw_items_len: 1,
                scroll: Vec2 { x: 0, y: 2500 },
            },
            DrawTreeLine::View { depth: 2, view_id: 2, draw_items_len: 1, scroll: zero },
            DrawTreeLine::Call { depth: 3, draw_item_id: 0, draw_shader_id: 1, instances: 3 },
            DrawTreeLine::Call { depth: 1, draw_item_id: 2, draw_shader_id: 1, instances: 0 },
            DrawTreeLine::End { redraw_id: 9 },
        ]
    );
}

#[test]
fn dump_with_instances_and_of_a_part() {
    let mut cx = tree();
    let mut lines = vec![DrawTreeLine::StillEmpty];
    cx.debug_draw_tree_recur(true, &mut lines, 2, 5);
    assert_eq!(
        lines,
        vec![
            DrawTreeLine::StillEmpty,
            DrawTreeLine::View {
                depth: 5,
                view_id: 2,
                draw_items_len: 1,
                scroll: Vec2 { x: 0, y: 0 },
            },
            DrawTreeLine::Call { depth: 6, draw_item_id: 0, draw_shader_id: 1, instances: 3 },
            DrawTreeLine::Instance { depth: 6, draw_item_id: 0, instance: 0 },
        ]
    );
    let mut lines = Vec::new();
    cx.debug_draw_tree_recur(true, &mut lines, 0, 0);
    // the call without a whole instance has no instance line
    assert_eq!(lines.len(), 10);
    assert_eq!(
        lines[8],
        DrawTreeLine::Call { depth: 1, draw_item_id: 2, draw_shader_id: 1, instances: 0 }
    );
}

#[test]
fn dump_of_a_view_that_does_not_exist() {
    let mut cx = tree();
    let mut lines = Vec::new();
    cx.debug_draw_tree_recur(true, &mut lines, 3, 0);
    assert_eq!(lines, vec![DrawTreeLine::StillEmpty]);
}

#[test]
fn tree_is_checked_before_it_is_dumped() {
    let mut cx = tree();
    assert!(cx.draw_tree_is_ok(0));
    assert!(cx.draw_tree_is_ok(17));
    cx.draw_shaders[1].instance_slots = 0;
    assert!(!cx.draw_tree_is_ok(0));
    assert!(!cx.draw_tree_is_ok(2));
    let mut cx = tree();
    cx.views[2].draw_items_len = 3;
    assert!(!cx.draw_tree_is_ok(1));
    let mut cx = tree();
    cx.views[2].draw_items[0] = sub_view(1);
    assert!(!cx.draw_tree_is_ok(0));
    let mut cx = tree();
    cx.views[2].draw_items[0] = CxDrawItem { sub_view_id: None, draw_call: None };
    assert!(!cx.draw_tree_is_ok(2));
    cx.views[2].draw_items[0] = call(2, 1);
    assert!(!cx.draw_tree_is_ok(2));
}
