//! A dump of the draw tree, line by line, for debugging.

use crate::cx::{Cx, CxState};
use crate::math::Vec2;
use vstd::prelude::*;

verus! {

/// One line of the dump. `depth` is the nesting depth at which the line is
/// to be indented.
#[derive(Clone, Copy, Debug, PartialEq, Eq, Structural)]
pub enum DrawTreeLine {
    /// The view asked for does not exist yet.
    StillEmpty,
    /// The dump of the root view begins.
    Begin { redraw_id: u64 },
    /// A view with the number of its draw items and its scroll offset.
    View { depth: usize, view_id: usize, draw_items_len: usize, scroll: Vec2 },
    /// A draw call with its shader and the number of its instances.
    Call { depth: usize, draw_item_id: usize, draw_shader_id: usize, instances: usize },
    /// The place of the data of an instance of the draw call before.
    Instance { depth: usize, draw_item_id: usize, instance: usize },
    /// The dump of the root view ends.
    End { redraw_id: u64 },
}

impl CxState {
    /// Whether view `view_id` and the views below it can be dumped, with
    /// views nested at most `fuel` deep: every draw item in use exists and
    /// is a nested view or a draw call whose shader exists and has instance
    /// data of one value at least.
    pub open spec fn draw_tree_ok(self, view_id: int, fuel: nat) -> bool
        decreases fuel,
    {
        view_id < 0 || view_id >= self.views.len() || {
            let view = self.views[view_id];
            &&& view.draw_items_len <= view.draw_items@.len()
            &&& forall|i: int|
                0 <= i < view.draw_items_len ==> match (#[trigger] view.draw_items@[i]).sub_view_id {
                    Some(sub_view_id) => fuel > 0 && self.draw_tree_ok(
                        sub_view_id as int,
                        (fuel - 1) as nat,
                    ),
                    None => match view.draw_items@[i].draw_call {
                        Some(draw_call) => draw_call.draw_shader_id < self.draw_shaders.len()
                            && self.draw_shaders[draw_call.draw_shader_id as int].instance_slots > 0,
                        None => false,
                    },
                }
        }
    }

    /// The lines for the draw call at item `i` of view `view_id`.
    pub open spec fn draw_call_lines(self, dump_instances: bool, view_id: int, i: int, depth: int) -> Seq<
        DrawTreeLine,
    > {
        let draw_call = self.views[view_id].draw_items@[i].draw_call.unwrap();
        let slots = self.draw_shaders[draw_call.draw_shader_id as int].instance_slots;
        let instances = draw_call.instances_len as int / slots as int;
        let call = seq![
            DrawTreeLine::Call {
                depth: (depth + 1) as usize,
                draw_item_id: i as usize,
                draw_shader_id: draw_call.draw_shader_id,
                instances: instances as usize,
            },
        ];
        if dump_instances && instances > 0 {
            call.push(
                DrawTreeLine::Instance { depth: (depth + 1) as usize, draw_item_id: i as usize, instance: 0 },
            )
        } else {
            call
        }
    }

    /// The lines for view `view_id` at nesting depth `depth`: the view, and
    /// then each of its draw items, a nested view with all its lines. The
    /// dump of view 0 stands between a first and a last line.
    pub open spec fn draw_tree_lines(self, dump_instances: bool, view_id: int, depth: int, fuel: nat) -> Seq<
        DrawTreeLine,
    >
        decreases fuel, self.views[view_id].draw_items_len + 1,
    {
        if view_id < 0 || view_id >= self.views.len() {
            seq![DrawTreeLine::StillEmpty]
        } else {
            let view = self.views[view_id];
            let head = seq![
                DrawTreeLine::View {
                    depth: depth as usize,
                    view_id: view_id as usize,
                    draw_items_len: view.draw_items_len,
                    scroll: view.unsnapped_scroll,
                },
            ];
            let body = head + self.draw_item_lines(
                dump_instances,
                view_id,
                depth,
                view.draw_items_len as nat,
                fuel,
            );
            if view_id == 0 {
                seq![DrawTreeLine::Begin { redraw_id: self.redraw_id }] + body
                    + seq![DrawTreeLine::End { redraw_id: self.redraw_id }]
            } else {
                body
            }
        }
    }

    /// The lines for the first `n` draw items of view `view_id`.
    pub open spec fn draw_item_lines(
        self,
        dump_instances: bool,
        view_id: int,
        depth: int,
        n: nat,
        fuel: nat,
    ) -> Seq<DrawTreeLine>
        decreases fuel, n,
    {
        if n == 0 || n > self.views[view_id].draw_items_len {
            Seq::empty()
        } else {
            let earlier = self.draw_item_lines(dump_instances, view_id, depth, (n - 1) as nat, fuel);
            match self.views[view_id].draw_items@[n - 1].sub_view_id {
                Some(sub_view_id) => if fuel > 0 {
                    earlier + self.draw_tree_lines(
                        dump_instances,
                        sub_view_id as int,
                        depth + 1,
                        (fuel - 1) as nat,
                    )
                } else {
                    earlier
                },
                None => earlier + self.draw_call_lines(dump_instances, view_id, n - 1, depth),
            }
        }
    }
}

impl Cx {
    fn debug_draw_tree_lines(
        &self,
        dump_instances: bool,
        s: &mut Vec<DrawTreeLine>,
        view_id: usize,
        depth: usize,
        Ghost(fuel): Ghost<nat>,
    )
        requires
            self@.draw_tree_ok(view_id as int, fuel),
            depth + fuel < usize::MAX,
        ensures
            final(s)@ == old(s)@ + self@.draw_tree_lines(
                dump_instances,
                view_id as int,
                depth as int,
                fuel,
            ),
        decreases fuel,
    {
        if view_id >= self.views.len() {
            s.push(DrawTreeLine::StillEmpty);
            assert(s@ =~= old(s)@ + seq![DrawTreeLine::StillEmpty]);
            return ;
        }
        let draw_items_len = self.views[view_id].draw_items_len;
        if view_id == 0 {
            s.push(DrawTreeLine::Begin { redraw_id: self.redraw_id });
        }
        let ghost start = s@;
        let ghost head = seq![
            DrawTreeLine::View {
                depth,
                view_id,
                draw_items_len,
                scroll: self@.views[view_id as int].unsnapped_scroll,
            },
        ];
        s.push(
            DrawTreeLine::View {
                depth,
                view_id,
                draw_items_len,
                scroll: self.views[view_id].unsnapped_scroll,
            },
        );
        let mut draw_item_id: usize = 0;
        while draw_item_id < draw_items_len
            invariant
                draw_item_id <= draw_items_len,
                view_id < self.views.len(),
                draw_items_len == self@.views[view_id as int].draw_items_len,
                self@.draw_tree_ok(view_id as int, fuel),
                depth + fuel < usize::MAX,
                s@ == start + head + self@.draw_item_lines(
                    dump_instances,
                    view_id as int,
                    depth as int,
                    draw_item_id as nat,
                    fuel,
                ),
            decreases draw_items_len - draw_item_id,
        {
            let ghost earlier = self@.draw_item_lines(
                dump_instances,
                view_id as int,
                depth as int,
                draw_item_id as nat,
                fuel,
            );
            let item = self.views[view_id].draw_items[draw_item_id];
            assert(item == self@.views[view_id as int].draw_items@[draw_item_id as int]);
            if let Some(sub_view_id) = item.sub_view_id {
                self.debug_draw_tree_lines(
                    dump_instances,
                    s,
                    sub_view_id,
                    depth + 1,
                    Ghost((fuel - 1) as nat),
                );
                assert(s@ =~= start + head + (earlier + self@.draw_tree_lines(
                    dump_instances,
                    sub_view_id as int,
                    depth + 1,
                    (fuel - 1) as nat,
                )));
            } else {
                let draw_call = item.draw_call.unwrap();
                let slots = self.draw_shaders[draw_call.draw_shader_id].instance_slots;
                let instances = draw_call.instances_len / slots;
                s.push(
                    DrawTreeLine::Call {
                        depth: depth + 1,
                        draw_item_id,
                        draw_shader_id: draw_call.draw_shader_id,
                        instances,
                    },
                );
                if dump_instances && instances > 0 {
                    s.push(DrawTreeLine::Instance { depth: depth + 1, draw_item_id, instance: 0 });
                }
                assert(s@ =~= start + head + (earlier + self@.draw_call_lines(
                    dump_instances,
                    view_id as int,
                    draw_item_id as int,
                    depth as int,
                )));
            }
            draw_item_id += 1;
        }
        if view_id == 0 {
            s.push(DrawTreeLine::End { redraw_id: self.redraw_id });
        }
        assert(s@ =~= old(s)@ + self@.draw_tree_lines(
            dump_instances,
            view_id as int,
            depth as int,
            fuel,
        ));
    }

    /// Appends to `s` the dump of view `view_id` and of the views nested in
    /// it, starting at nesting depth `depth`.
    pub fn debug_draw_tree_recur(
        &mut self,
        dump_instances: bool,
        s: &mut Vec<DrawTreeLine>,
        view_id: usize,
        depth: usize,
    )
        requires
            old(self)@.draw_tree_ok(view_id as int, old(self)@.views.len()),
            depth + old(self)@.views.len() < usize::MAX,
        ensures
            final(self)@ == old(self)@,
            final(s)@ == old(s)@ + old(self)@.draw_tree_lines(
                dump_instances,
                view_id as int,
                depth as int,
                old(self)@.views.len(),
            ),
    {
        self.debug_draw_tree_lines(dump_instances, s, view_id, depth, Ghost(self.views@.len()));
    }
}

impl Cx {
    fn draw_tree_is_ok_within(&self, view_id: usize, fuel: usize) -> (r: bool)
        ensures
            r == self@.draw_tree_ok(view_id as int, fuel as nat),
        decreases fuel,
    {
        if view_id >= self.views.len() {
            return true;
        }
        let view = &self.views[view_id];
        if view.draw_items_len > view.draw_items.len() {
            return false;
        }
        let mut i: usize = 0;
        while i < view.draw_items_len
            invariant
                i <= view.draw_items_len,
                view_id < self.views.len(),
                *view == self@.views[view_id as int],
                view.draw_items_len <= view.draw_items@.len(),
                forall|k: int|
                    0 <= k < i ==> match (#[trigger] view.draw_items@[k]).sub_view_id {
                        Some(sub_view_id) => fuel > 0 && self@.draw_tree_ok(
                            sub_view_id as int,
                            (fuel - 1) as nat,
                        ),
                        None => match view.draw_items@[k].draw_call {
                            Some(draw_call) => draw_call.draw_shader_id < self@.draw_shaders.len()
                                && self@.draw_shaders[draw_call.draw_shader_id as int].instance_slots
                                > 0,
                            None => false,
                        },
                    },
            decreases view.draw_items_len - i,
        {
            let item = view.draw_items[i];
            let ok = match item.sub_view_id {
                Some(sub_view_id) => fuel > 0 && self.draw_tree_is_ok_within(sub_view_id, fuel - 1),
                None => match item.draw_call {
                    Some(draw_call) => draw_call.draw_shader_id < self.draw_shaders.len()
                        && self.draw_shaders[draw_call.draw_shader_id].instance_slots > 0,
                    None => false,
                },
            };
            if !ok {
                assert(item == view.draw_items@[i as int]);
                return false;
            }
            i += 1;
        }
        true
    }

    /// Whether view `view_id` and the views below it can be dumped.
    pub fn draw_tree_is_ok(&self, view_id: usize) -> (r: bool)
        ensures
            r == self@.draw_tree_ok(view_id as int, self@.views.len()),
    {
        self.draw_tree_is_ok_within(view_id, self.views.len())
    }
}

} // verus!
