//! Invalidation across the pass graph: which passes repaint and in which
//! order, which root views redraw when a pass is invalidated, and the scale
//! factor that a pass inherits from the window it ends up in.

use crate::area::{Area, ViewArea};
use crate::cx::{Cx, CxState};
use crate::pass::{CxPass, CxPassDepOf};
use crate::window::{CxWindow, CxWindowState};
use vstd::prelude::*;

verus! {

/// The number of passes that scale resolution follows before it gives up.
pub const DPI_WALK_LIMIT: usize = 25;

/// The area that stands for the root view of a pass.
pub open spec fn main_view_area(view_id: usize) -> Area {
    Area::View(ViewArea { redraw_id: 0, view_id })
}

/// A redraw list after the root view of pass `p`, if it has one, has been
/// asked to redraw.
pub open spec fn main_view_marked(list: Seq<Area>, passes: Seq<CxPass>, p: int) -> Seq<Area> {
    match passes[p].main_view_id {
        Some(v) => crate::area::redraw_insert(list, main_view_area(v)),
        None => list,
    }
}

/// A redraw list after the root views of pass `p` and of the passes on its
/// dependency chain have been asked to redraw, `n` passes at most.
pub open spec fn chain_marked(list: Seq<Area>, passes: Seq<CxPass>, p: int, n: nat) -> Seq<Area>
    decreases n,
{
    if n == 0 {
        list
    } else {
        let marked = main_view_marked(list, passes, p);
        match crate::pass::dependency(passes, p) {
            Some(d) => chain_marked(marked, passes, d, (n - 1) as nat),
            None => marked,
        }
    }
}

/// The number of dependency edges from pass `p` to the end of its chain,
/// `n` at most.
pub open spec fn chain_length(passes: Seq<CxPass>, p: int, n: nat) -> nat
    decreases n,
{
    if n == 0 {
        0
    } else {
        match crate::pass::dependency(passes, p) {
            Some(d) => 1 + chain_length(passes, d, (n - 1) as nat),
            None => 0,
        }
    }
}

/// A redraw list after the root views of pass `p` and of every pass that
/// depends on it, directly or through other passes, have been asked to
/// redraw: pass `p` first, then each dependent pass in id order, each
/// followed by its own dependents. `fuel` bounds the depth.
pub open spec fn sub_passes_marked(list: Seq<Area>, passes: Seq<CxPass>, p: int, fuel: nat) -> Seq<
    Area,
>
    decreases fuel, passes.len() + 1,
{
    if fuel == 0 {
        list
    } else {
        sub_passes_marked_from(main_view_marked(list, passes, p), passes, p, 0, fuel)
    }
}

/// The part of `sub_passes_marked` that visits the dependents of pass `p`
/// with an id of `from` or more.
pub open spec fn sub_passes_marked_from(
    list: Seq<Area>,
    passes: Seq<CxPass>,
    p: int,
    from: nat,
    fuel: nat,
) -> Seq<Area>
    decreases fuel, passes.len() - from,
{
    if from >= passes.len() || fuel == 0 {
        list
    } else {
        let next = if passes[from as int].dep_of == CxPassDepOf::Pass(p as usize) {
            sub_passes_marked(list, passes, from as int, (fuel - 1) as nat)
        } else {
            list
        };
        sub_passes_marked_from(next, passes, p, from + 1, fuel)
    }
}

/// The scale factor that pass `p` inherits: that of the window at the end
/// of its dependency chain, and 1.0 when the chain ends without a window or
/// is longer than `hops` passes.
pub open spec fn delegated_dpi_factor(
    passes: Seq<CxPass>,
    windows: Seq<CxWindow>,
    default_dpi_factor: u32,
    p: int,
    hops: nat,
) -> u32
    decreases hops,
{
    if hops == 0 {
        crate::math::DPI_FACTOR_ONE
    } else {
        match passes[p].dep_of {
            CxPassDepOf::Window(w) => windows[w as int].scale(default_dpi_factor),
            CxPassDepOf::Pass(next) => delegated_dpi_factor(
                passes,
                windows,
                default_dpi_factor,
                next as int,
                (hops - 1) as nat,
            ),
            CxPassDepOf::Nothing => crate::math::DPI_FACTOR_ONE,
        }
    }
}

impl CxState {
    /// Every pass that feeds a window names a window that exists.
    pub open spec fn windows_linked(self) -> bool {
        forall|p: int|
            0 <= p < self.passes.len() ==> match (#[trigger] self.passes[p]).dep_of {
                CxPassDepOf::Window(w) => w < self.windows.len(),
                _ => true,
            }
    }

    /// The pass that an area is drawn in, if the area names an existing
    /// view.
    pub open spec fn pass_of(self, area: Area) -> Option<usize> {
        match area.owner_view() {
            Some(v) => if v < self.views.len() {
                Some(self.views[v as int].pass_id)
            } else {
                None
            },
            None => None,
        }
    }

    /// The scale factor for content drawn in `area`; 1.0 for `Empty` and
    /// `All`.
    pub open spec fn dpi_factor_of(self, area: Area) -> u32 {
        match area.owner_view() {
            Some(v) => delegated_dpi_factor(
                self.passes,
                self.windows,
                self.default_dpi_factor,
                self.views[v as int].pass_id as int,
                DPI_WALK_LIMIT as nat,
            ),
            None => crate::math::DPI_FACTOR_ONE,
        }
    }

    /// The main pass of window `w` when the window is wanted or on screen
    /// and has one.
    pub open spec fn live_main_pass(self, w: int) -> Option<usize> {
        if self.windows[w].is_live() {
            self.windows[w].main_pass_id
        } else {
            None
        }
    }

    /// The parent redraw list after the main pass of each of the first `n`
    /// windows, and the passes on its dependency chain, have been
    /// invalidated.
    pub open spec fn window_passes_marked(self, n: nat) -> Seq<Area>
        decreases n,
    {
        if n == 0 {
            self.redraw_parent_areas
        } else {
            let earlier = self.window_passes_marked((n - 1) as nat);
            match self.live_main_pass(n - 1) {
                Some(p) => chain_marked(earlier, self.passes, p as int, self.passes.len()),
                None => earlier,
            }
        }
    }

    /// Whether the main pass of every live window exists and its dependency
    /// chain ends.
    pub open spec fn window_passes_valid(self) -> bool {
        forall|w: int|
            0 <= w < self.windows.len() ==> match #[trigger] self.live_main_pass(w) {
                Some(p) => crate::pass::chain_ends(self.passes, p as int, self.passes.len()),
                None => true,
            }
    }

    /// The parent redraw list after the pass of `area` has been invalidated.
    pub open spec fn pass_of_marked(self, area: Area) -> Seq<Area> {
        match area {
            Area::All => self.window_passes_marked(self.windows.len()),
            Area::Empty => self.redraw_parent_areas,
            _ => chain_marked(
                self.redraw_parent_areas,
                self.passes,
                self.views[area.owner_view().unwrap() as int].pass_id as int,
                self.passes.len(),
            ),
        }
    }

    /// Whether `redraw_pass_of` is defined for `area`: what it has to look
    /// up exists, and the dependency chains it follows end.
    pub open spec fn pass_of_valid(self, area: Area) -> bool {
        match area {
            Area::All => self.window_passes_valid(),
            Area::Empty => true,
            _ => {
                let v = area.owner_view().unwrap();
                &&& v < self.views.len()
                &&& crate::pass::chain_ends(
                    self.passes,
                    self.views[v as int].pass_id as int,
                    self.passes.len(),
                )
            },
        }
    }

    /// Whether scale resolution for pass `p` stays among the passes and
    /// windows that exist while it follows `hops` passes at most.
    pub open spec fn dpi_walk_defined(self, p: int, hops: nat) -> bool
        decreases hops,
    {
        hops == 0 || (0 <= p < self.passes.len() && match self.passes[p].dep_of {
            CxPassDepOf::Window(w) => w < self.windows.len(),
            CxPassDepOf::Pass(next) => self.dpi_walk_defined(next as int, (hops - 1) as nat),
            CxPassDepOf::Nothing => true,
        })
    }

    /// Whether the scale factor of `area` can be resolved.
    pub open spec fn dpi_factor_defined(self, area: Area) -> bool {
        match area.owner_view() {
            Some(v) => v < self.views.len() && self.dpi_walk_defined(
                self.views[v as int].pass_id as int,
                DPI_WALK_LIMIT as nat,
            ),
            None => true,
        }
    }
}

/// With every pass linked to a pass or a window that exists, the scale
/// factor of every pass can be resolved.
pub proof fn lemma_linked_dpi_walk_defined(state: CxState, p: int, hops: nat)
    requires
        crate::pass::passes_linked(state.passes),
        state.windows_linked(),
        0 <= p < state.passes.len(),
    ensures
        state.dpi_walk_defined(p, hops),
    decreases hops,
{
    if hops > 0 {
        if let CxPassDepOf::Pass(next) = state.passes[p].dep_of {
            lemma_linked_dpi_walk_defined(state, next as int, (hops - 1) as nat);
        }
    }
}

proof fn lemma_chain_length(passes: Seq<CxPass>, p: int, n: nat, m: nat)
    requires
        crate::pass::chain_ends(passes, p, n),
        n <= m,
    ensures
        chain_length(passes, p, n) < n,
        chain_length(passes, p, n) == chain_length(passes, p, m),
    decreases n,
{
    if let Some(d) = crate::pass::dependency(passes, p) {
        lemma_chain_length(passes, d, (n - 1) as nat, (m - 1) as nat);
    }
}

impl Cx {
    /// Propagates the dirty flags along the dependency edges, lists the
    /// dirty passes in repaint order in `passes_todo`, and adds to
    /// `windows_need_repaint` the number of dirty passes that feed a window.
    /// Returns whether a dirty pass names itself as its dependency.
    pub fn compute_passes_to_repaint(
        &mut self,
        passes_todo: &mut Vec<usize>,
        windows_need_repaint: &mut usize,
    ) -> (self_dependency: bool)
        requires
            crate::pass::passes_linked(old(self)@.passes),
            *old(windows_need_repaint) + crate::repaint::window_repaints(
                crate::pass::dirty_closure(old(self)@.passes),
                old(self)@.passes.len(),
            ) <= usize::MAX,
        ensures
            final(self)@ == (CxState {
                passes: crate::pass::dirty_closure(old(self)@.passes),
                ..old(self)@
            }),
            final(passes_todo)@ == crate::repaint::repaint_order(
                final(self)@.passes,
                final(self)@.passes.len(),
            ),
            *final(windows_need_repaint) == *old(windows_need_repaint)
                + crate::repaint::window_repaints(final(self)@.passes, final(self)@.passes.len()),
            self_dependency == crate::repaint::self_dependent(
                final(self)@.passes,
                final(self)@.passes.len(),
            ),
    {
        crate::pass::propagate_dirty(&mut self.passes);
        crate::repaint::order_dirty_passes(&self.passes, passes_todo, windows_need_repaint)
    }

    /// Asks the root view of pass `pass_id`, and of each pass on its
    /// dependency chain, for a parent-area redraw.
    pub fn redraw_pass_and_dep_of_passes(&mut self, pass_id: usize)
        requires
            crate::pass::chain_ends(old(self)@.passes, pass_id as int, old(self)@.passes.len()),
        ensures
            final(self)@ == (CxState {
                redraw_parent_areas: chain_marked(
                    old(self)@.redraw_parent_areas,
                    old(self)@.passes,
                    pass_id as int,
                    old(self)@.passes.len(),
                ),
                ..old(self)@
            }),
    {
        let ghost before = self@;
        let ghost mut n: nat = self.passes@.len();
        let mut walk_pass_id = pass_id;
        loop
            invariant_except_break
                crate::pass::chain_ends(before.passes, walk_pass_id as int, n),
                self@ == (CxState { redraw_parent_areas: self@.redraw_parent_areas, ..before }),
                chain_marked(self@.redraw_parent_areas, before.passes, walk_pass_id as int, n)
                    == chain_marked(
                    before.redraw_parent_areas,
                    before.passes,
                    pass_id as int,
                    before.passes.len(),
                ),
            ensures
                self@ == (CxState {
                    redraw_parent_areas: chain_marked(
                        before.redraw_parent_areas,
                        before.passes,
                        pass_id as int,
                        before.passes.len(),
                    ),
                    ..before
                }),
            decreases n,
        {
            let pass = self.passes[walk_pass_id];
            if let Some(main_view_id) = pass.main_view_id {
                self.redraw_parent_area(Area::View(ViewArea { redraw_id: 0, view_id: main_view_id }));
            }
            match pass.dep_of {
                CxPassDepOf::Pass(next_pass_id) => {
                    proof {
                        n = (n - 1) as nat;
                    }
                    walk_pass_id = next_pass_id;
                },
                _ => {
                    break ;
                },
            }
        }
    }

    fn redraw_sub_passes(&mut self, pass_id: usize, Ghost(fuel): Ghost<nat>)
        requires
            pass_id < old(self)@.passes.len(),
            crate::pass::passes_acyclic(old(self)@.passes),
            fuel + chain_length(old(self)@.passes, pass_id as int, old(self)@.passes.len()) >= old(self)@.passes.len(),
        ensures
            final(self)@ == (CxState {
                redraw_parent_areas: sub_passes_marked(
                    old(self)@.redraw_parent_areas,
                    old(self)@.passes,
                    pass_id as int,
                    fuel,
                ),
                ..old(self)@
            }),
        decreases fuel,
    {
        let ghost before = self@;
        proof {
            lemma_chain_length(before.passes, pass_id as int, before.passes.len(), before.passes.len());
        }
        let cxpass = self.passes[pass_id];
        if let Some(main_view_id) = cxpass.main_view_id {
            self.redraw_parent_area(Area::View(ViewArea { redraw_id: 0, view_id: main_view_id }));
        }
        let ghost marked = self@.redraw_parent_areas;
        let mut sub_pass_id: usize = 0;
        while sub_pass_id < self.passes.len()
            invariant
                sub_pass_id <= self.passes.len(),
                pass_id < before.passes.len(),
                fuel > 0,
                crate::pass::passes_acyclic(before.passes),
                fuel + chain_length(before.passes, pass_id as int, before.passes.len())
                    >= before.passes.len(),
                self@ == (CxState { redraw_parent_areas: self@.redraw_parent_areas, ..before }),
                sub_passes_marked_from(
                    self@.redraw_parent_areas,
                    before.passes,
                    pass_id as int,
                    sub_pass_id as nat,
                    fuel,
                ) == sub_passes_marked_from(marked, before.passes, pass_id as int, 0, fuel),
            decreases self.passes.len() - sub_pass_id,
        {
            if let CxPassDepOf::Pass(dep_pass_id) = self.passes[sub_pass_id].dep_of {
                if dep_pass_id == pass_id {
                    proof {
                        let len = before.passes.len();
                        assert(crate::pass::chain_ends(before.passes, sub_pass_id as int, len));
                        assert(crate::pass::dependency(before.passes, sub_pass_id as int) == Some(
                            pass_id as int,
                        ));
                        lemma_chain_length(before.passes, pass_id as int, (len - 1) as nat, len);
                        lemma_chain_length(before.passes, sub_pass_id as int, len, len);
                    }
                    self.redraw_sub_passes(sub_pass_id, Ghost((fuel - 1) as nat));
                }
            }
            sub_pass_id += 1;
        }
    }

    /// Asks the root view of pass `pass_id`, and of every pass that depends
    /// on it, directly or through other passes, for a parent-area redraw.
    pub fn redraw_pass_and_sub_passes(&mut self, pass_id: usize)
        requires
            pass_id < old(self)@.passes.len(),
            crate::pass::passes_acyclic(old(self)@.passes),
        ensures
            final(self)@ == (CxState {
                redraw_parent_areas: sub_passes_marked(
                    old(self)@.redraw_parent_areas,
                    old(self)@.passes,
                    pass_id as int,
                    old(self)@.passes.len(),
                ),
                ..old(self)@
            }),
    {
        self.redraw_sub_passes(pass_id, Ghost(self.passes@.len()));
    }

    /// Invalidates the pass that `area` is drawn in, and the passes on its
    /// dependency chain; for `All`, the main pass of every window that is
    /// wanted or on screen.
    pub fn redraw_pass_of(&mut self, area: Area)
        requires
            old(self)@.pass_of_valid(area),
        ensures
            final(self)@ == (CxState {
                redraw_parent_areas: old(self)@.pass_of_marked(area),
                ..old(self)@
            }),
    {
        let ghost before = self@;
        match area {
            Area::All => {
                let mut window_id: usize = 0;
                while window_id < self.windows.len()
                    invariant
                        window_id <= self.windows.len(),
                        before.window_passes_valid(),
                        self@ == (CxState {
                            redraw_parent_areas: before.window_passes_marked(window_id as nat),
                            ..before
                        }),
                    decreases self.windows.len() - window_id,
                {
                    let redraw = match self.windows[window_id].window_state {
                        CxWindowState::Create { .. } | CxWindowState::Created => true,
                        _ => false,
                    };
                    assert(redraw == before.windows[window_id as int].is_live());
                    if redraw {
                        if let Some(pass_id) = self.windows[window_id].main_pass_id {
                            assert(before.live_main_pass(window_id as int) == Some(pass_id));
                            self.redraw_pass_and_dep_of_passes(pass_id);
                        }
                    }
                    window_id += 1;
                }
            },
            Area::Empty => (),
            Area::Instance(instance) => {
                let pass_id = self.views[instance.view_id].pass_id;
                self.redraw_pass_and_dep_of_passes(pass_id);
            },
            Area::View(viewarea) => {
                let pass_id = self.views[viewarea.view_id].pass_id;
                self.redraw_pass_and_dep_of_passes(pass_id);
            },
        }
    }

    /// The scale factor that pass `pass_id` inherits from the window at the
    /// end of its dependency chain.
    pub fn get_delegated_dpi_factor(&mut self, pass_id: usize) -> (dpi_factor: u32)
        requires
            old(self)@.dpi_walk_defined(pass_id as int, DPI_WALK_LIMIT as nat),
        ensures
            final(self)@ == old(self)@,
            dpi_factor == delegated_dpi_factor(
                old(self)@.passes,
                old(self)@.windows,
                old(self)@.default_dpi_factor,
                pass_id as int,
                DPI_WALK_LIMIT as nat,
            ),
    {
        let mut dpi_factor = crate::math::DPI_FACTOR_ONE;
        let mut pass_id_walk = pass_id;
        let mut hop: usize = 0;
        while hop < DPI_WALK_LIMIT
            invariant_except_break
                hop <= DPI_WALK_LIMIT,
                self@ == old(self)@,
                self@.dpi_walk_defined(pass_id_walk as int, (DPI_WALK_LIMIT - hop) as nat),
                dpi_factor == crate::math::DPI_FACTOR_ONE,
                delegated_dpi_factor(
                    self@.passes,
                    self@.windows,
                    self@.default_dpi_factor,
                    pass_id_walk as int,
                    (DPI_WALK_LIMIT - hop) as nat,
                ) == delegated_dpi_factor(
                    self@.passes,
                    self@.windows,
                    self@.default_dpi_factor,
                    pass_id as int,
                    DPI_WALK_LIMIT as nat,
                ),
            ensures
                self@ == old(self)@,
                dpi_factor == delegated_dpi_factor(
                    self@.passes,
                    self@.windows,
                    self@.default_dpi_factor,
                    pass_id as int,
                    DPI_WALK_LIMIT as nat,
                ),
            decreases DPI_WALK_LIMIT - hop,
        {
            assert(self@.passes[pass_id_walk as int] == self.passes@[pass_id_walk as int]);
            match self.passes[pass_id_walk].dep_of {
                CxPassDepOf::Window(window_id) => {
                    dpi_factor =
                    match self.windows[window_id].window_state {
                        CxWindowState::Create { .. } => self.default_dpi_factor,
                        CxWindowState::Created => self.windows[window_id].window_geom.dpi_factor,
                        _ => crate::math::DPI_FACTOR_ONE,
                    };
                    break ;
                },
                CxPassDepOf::Pass(next_pass_id) => {
                    pass_id_walk = next_pass_id;
                },
                _ => {
                    break ;
                },
            }
            hop += 1;
        }
        dpi_factor
    }

    /// The scale factor for content drawn in `area`.
    pub fn get_dpi_factor_of(&mut self, area: &Area) -> (dpi_factor: u32)
        requires
            old(self)@.dpi_factor_defined(*area),
        ensures
            final(self)@ == old(self)@,
            dpi_factor == old(self)@.dpi_factor_of(*area),
    {
        match area {
            Area::Instance(ia) => {
                let pass_id = self.views[ia.view_id].pass_id;
                return self.get_delegated_dpi_factor(pass_id);
            },
            Area::View(va) => {
                let pass_id = self.views[va.view_id].pass_id;
                return self.get_delegated_dpi_factor(pass_id);
            },
            _ => (),
        }
        crate::math::DPI_FACTOR_ONE
    }

    /// Whether the window being drawn is presented on an XR device.
    pub fn is_xr_presenting(&mut self) -> (r: bool)
        requires
            old(self)@.in_redraw_cycle,
            old(self)@.window_stack.len() > 0,
            old(self)@.window_stack.last() < old(self)@.windows.len(),
        ensures
            final(self)@ == old(self)@,
            r == old(self)@.windows[old(self)@.window_stack.last() as int].window_geom.xr_is_presenting,
    {
        let window_id = self.window_stack[self.window_stack.len() - 1];
        self.windows[window_id].window_geom.xr_is_presenting
    }
}

impl Cx {
    /// Whether every pass that feeds a window names a window that exists.
    pub fn windows_are_linked(&self) -> (r: bool)
        ensures
            r == self@.windows_linked(),
    {
        let mut p: usize = 0;
        while p < self.passes.len()
            invariant
                p <= self.passes.len(),
                forall|k: int|
                    0 <= k < p ==> match (#[trigger] self@.passes[k]).dep_of {
                        CxPassDepOf::Window(w) => w < self@.windows.len(),
                        _ => true,
                    },
            decreases self.passes.len() - p,
        {
            if let CxPassDepOf::Window(w) = self.passes[p].dep_of {
                if w >= self.windows.len() {
                    assert(self@.passes[p as int].dep_of == CxPassDepOf::Window(w));
                    return false;
                }
            }
            p += 1;
        }
        true
    }

    /// Whether `redraw_pass_of` can be called for `area`.
    pub fn can_redraw_pass_of(&self, area: Area) -> (r: bool)
        ensures
            r == self@.pass_of_valid(area),
    {
        match area {
            Area::All => {
                let mut window_id: usize = 0;
                while window_id < self.windows.len()
                    invariant
                        window_id <= self.windows.len(),
                        area == Area::All,
                        forall|w: int|
                            0 <= w < window_id ==> match #[trigger] self@.live_main_pass(w) {
                                Some(p) => crate::pass::chain_ends(
                                    self@.passes,
                                    p as int,
                                    self@.passes.len(),
                                ),
                                None => true,
                            },
                    decreases self.windows.len() - window_id,
                {
                    let live = match self.windows[window_id].window_state {
                        CxWindowState::Create { .. } | CxWindowState::Created => true,
                        _ => false,
                    };
                    assert(live == self@.windows[window_id as int].is_live());
                    if live {
                        if let Some(pass_id) = self.windows[window_id].main_pass_id {
                            assert(self@.live_main_pass(window_id as int) == Some(pass_id));
                            if !crate::pass::chain_is_finite(&self.passes, pass_id) {
                                assert(!self@.window_passes_valid()) by {
                                    assert(self@.live_main_pass(window_id as int) is Some);
                                }
                                return false;
                            }
                        }
                    }
                    window_id += 1;
                }
                true
            },
            Area::Empty => true,
            _ => {
                let view_id = area.view_id().unwrap();
                if view_id >= self.views.len() {
                    return false;
                }
                let pass_id = self.views[view_id].pass_id;
                crate::pass::chain_is_finite(&self.passes, pass_id)
            },
        }
    }
}

impl Cx {
    /// Whether the scale factor of pass `pass_id` can be resolved.
    pub fn dpi_walk_is_defined(&self, pass_id: usize) -> (r: bool)
        ensures
            r == self@.dpi_walk_defined(pass_id as int, DPI_WALK_LIMIT as nat),
    {
        let mut walk = pass_id;
        let mut hop: usize = 0;
        while hop < DPI_WALK_LIMIT
            invariant
                hop <= DPI_WALK_LIMIT,
                self@.dpi_walk_defined(pass_id as int, DPI_WALK_LIMIT as nat)
                    == self@.dpi_walk_defined(walk as int, (DPI_WALK_LIMIT - hop) as nat),
            decreases DPI_WALK_LIMIT - hop,
        {
            if walk >= self.passes.len() {
                return false;
            }
            assert(self@.passes[walk as int] == self.passes@[walk as int]);
            match self.passes[walk].dep_of {
                CxPassDepOf::Window(window_id) => {
                    return window_id < self.windows.len();
                },
                CxPassDepOf::Pass(next_pass_id) => {
                    walk = next_pass_id;
                },
                CxPassDepOf::Nothing => {
                    return true;
                },
            }
            hop += 1;
        }
        true
    }

    /// Whether the scale factor of `area` can be resolved.
    pub fn dpi_factor_is_defined(&self, area: &Area) -> (r: bool)
        ensures
            r == self@.dpi_factor_defined(*area),
    {
        match area.view_id() {
            Some(view_id) => view_id < self.views.len() && self.dpi_walk_is_defined(
                self.views[view_id].pass_id,
            ),
            None => true,
        }
    }
}

} // verus!
