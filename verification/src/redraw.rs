//! Redraw requests on the context: the two deduplicated request lists and
//! the query whether a view redraws in the cycle being drawn.

use crate::area::{request_redraw, Area};
use crate::cx::{Cx, CxState};
use crate::view::{view_is_within, CxView};
use vstd::prelude::*;

verus! {

/// Whether a request for the contents of `area` makes view `view_id` redraw:
/// the view is the area's view or nested in it, or the request is for
/// everything.
pub open spec fn child_request_reaches(views: Seq<CxView>, area: Area, view_id: int) -> bool {
    match area {
        Area::All => true,
        Area::Empty => false,
        Area::Instance(ia) => crate::view::is_within(views, view_id, ia.view_id as int),
        Area::View(va) => crate::view::is_within(views, view_id, va.view_id as int),
    }
}

/// Whether a request for the containers of `area` makes view `view_id`
/// redraw: the view is the area's view or one that it is nested in, or the
/// request is for everything.
pub open spec fn parent_request_reaches(views: Seq<CxView>, area: Area, view_id: int) -> bool {
    match area {
        Area::All => true,
        Area::Empty => false,
        Area::Instance(ia) => crate::view::is_within(views, ia.view_id as int, view_id),
        Area::View(va) => crate::view::is_within(views, va.view_id as int, view_id),
    }
}

/// Whether the search that a child request for `area` starts is defined.
pub open spec fn child_request_defined(views: Seq<CxView>, area: Area, view_id: int) -> bool {
    match area.owner_view() {
        Some(w) => crate::view::walk_defined(views, view_id, w as int),
        None => true,
    }
}

/// Whether the search that a parent request for `area` starts is defined.
pub open spec fn parent_request_defined(views: Seq<CxView>, area: Area, view_id: int) -> bool {
    match area.owner_view() {
        Some(w) => crate::view::walk_defined(views, w as int, view_id),
        None => true,
    }
}

impl CxState {
    /// Whether view `view_id` redraws in the cycle being drawn.
    pub open spec fn view_will_redraw(self, view_id: int) -> bool {
        ||| exists|i: int|
            0 <= i < self._redraw_child_areas.len() && child_request_reaches(
                self.views,
                #[trigger] self._redraw_child_areas[i],
                view_id,
            )
        ||| exists|i: int|
            0 <= i < self._redraw_parent_areas.len() && parent_request_reaches(
                self.views,
                #[trigger] self._redraw_parent_areas[i],
                view_id,
            )
    }

    /// Whether every ancestry search that `view_will_redraw` may make for
    /// view `view_id` stays inside the views and ends.
    pub open spec fn ancestry_defined(self, view_id: int) -> bool {
        &&& forall|i: int|
            0 <= i < self._redraw_child_areas.len() ==> child_request_defined(
                self.views,
                #[trigger] self._redraw_child_areas[i],
                view_id,
            )
        &&& forall|i: int|
            0 <= i < self._redraw_parent_areas.len() ==> parent_request_defined(
                self.views,
                #[trigger] self._redraw_parent_areas[i],
                view_id,
            )
    }

    /// Whether every area of the lists of the cycle being drawn lies in a
    /// view that exists.
    pub open spec fn redraw_areas_valid(self) -> bool {
        &&& forall|i: int|
            0 <= i < self._redraw_child_areas.len() ==> match (
            #[trigger] self._redraw_child_areas[i]).owner_view() {
                Some(w) => w < self.views.len(),
                None => true,
            }
        &&& forall|i: int|
            0 <= i < self._redraw_parent_areas.len() ==> match (
            #[trigger] self._redraw_parent_areas[i]).owner_view() {
                Some(w) => w < self.views.len(),
                None => true,
            }
    }
}

/// With a well-formed nesting hierarchy and request lists that name
/// existing views, every query about an existing view is defined.
pub proof fn lemma_ancestry_defined(state: CxState, view_id: int)
    requires
        crate::view::views_nested(state.views),
        state.redraw_areas_valid(),
        0 <= view_id < state.views.len(),
    ensures
        state.ancestry_defined(view_id),
{
    assert forall|i: int| 0 <= i < state._redraw_child_areas.len() implies child_request_defined(
        state.views,
        #[trigger] state._redraw_child_areas[i],
        view_id,
    ) by {
        if let Some(w) = state._redraw_child_areas[i].owner_view() {
            crate::view::lemma_nested_walk_defined(state.views, view_id, w as int);
        }
    }
    assert forall|i: int| 0 <= i < state._redraw_parent_areas.len() implies parent_request_defined(
        state.views,
        #[trigger] state._redraw_parent_areas[i],
        view_id,
    ) by {
        if let Some(w) = state._redraw_parent_areas[i].owner_view() {
            crate::view::lemma_nested_walk_defined(state.views, w as int, view_id);
        }
    }
}

impl Cx {
    /// Asks that the contents of `area` redraw in the next cycle.
    pub fn redraw_child_area(&mut self, area: Area)
        ensures
            final(self)@ == (CxState {
                redraw_child_areas: crate::area::redraw_insert(old(self)@.redraw_child_areas, area),
                ..old(self)@
            }),
    {
        request_redraw(&mut self.redraw_child_areas, area);
    }

    /// Asks that what contains `area` redraws in the next cycle.
    pub fn redraw_parent_area(&mut self, area: Area)
        ensures
            final(self)@ == (CxState {
                redraw_parent_areas: crate::area::redraw_insert(old(self)@.redraw_parent_areas, area),
                ..old(self)@
            }),
    {
        request_redraw(&mut self.redraw_parent_areas, area);
    }

    /// Repeats, for the next cycle, every request of the cycle being drawn.
    pub fn redraw_previous_areas(&mut self)
        ensures
            final(self)@ == (CxState {
                redraw_child_areas: crate::area::redraw_insert_all(
                    old(self)@.redraw_child_areas,
                    old(self)@._redraw_child_areas,
                    old(self)@._redraw_child_areas.len(),
                ),
                redraw_parent_areas: crate::area::redraw_insert_all(
                    old(self)@.redraw_parent_areas,
                    old(self)@._redraw_parent_areas,
                    old(self)@._redraw_parent_areas.len(),
                ),
                ..old(self)@
            }),
    {
        let ghost before = self@;
        let mut i: usize = 0;
        while i < self._redraw_child_areas.len()
            invariant
                i <= self._redraw_child_areas.len(),
                self@ == (CxState {
                    redraw_child_areas: crate::area::redraw_insert_all(
                        before.redraw_child_areas,
                        before._redraw_child_areas,
                        i as nat,
                    ),
                    ..before
                }),
            decreases self._redraw_child_areas.len() - i,
        {
            let area = self._redraw_child_areas[i];
            self.redraw_child_area(area);
            i += 1;
        }
        let ghost middle = self@;
        let mut j: usize = 0;
        while j < self._redraw_parent_areas.len()
            invariant
                j <= self._redraw_parent_areas.len(),
                middle._redraw_parent_areas == before._redraw_parent_areas,
                middle.redraw_parent_areas == before.redraw_parent_areas,
                self@ == (CxState {
                    redraw_parent_areas: crate::area::redraw_insert_all(
                        before.redraw_parent_areas,
                        before._redraw_parent_areas,
                        j as nat,
                    ),
                    ..middle
                }),
            decreases self._redraw_parent_areas.len() - j,
        {
            let area = self._redraw_parent_areas[j];
            self.redraw_parent_area(area);
            j += 1;
        }
    }

    /// Whether view `view_id` redraws in the cycle being drawn: it lies
    /// within an area whose contents were asked to redraw, it contains an
    /// area whose containers were asked to redraw, or everything redraws.
    pub fn view_will_redraw(&self, view_id: usize) -> (r: bool)
        requires
            self@.ancestry_defined(view_id as int),
        ensures
            r == self@.view_will_redraw(view_id as int),
    {
        let mut i: usize = 0;
        while i < self._redraw_child_areas.len()
            invariant
                i <= self._redraw_child_areas.len(),
                self@.ancestry_defined(view_id as int),
                forall|k: int|
                    0 <= k < i ==> !child_request_reaches(
                        self@.views,
                        #[trigger] self@._redraw_child_areas[k],
                        view_id as int,
                    ),
            decreases self._redraw_child_areas.len() - i,
        {
            let area = self._redraw_child_areas[i];
            assert(child_request_defined(self@.views, self@._redraw_child_areas[i as int], view_id as int));
            let reached = match area {
                Area::All => true,
                Area::Empty => false,
                Area::Instance(instance) => view_is_within(&self.views, view_id, instance.view_id),
                Area::View(viewarea) => view_is_within(&self.views, view_id, viewarea.view_id),
            };
            if reached {
                assert(child_request_reaches(
                    self@.views,
                    self@._redraw_child_areas[i as int],
                    view_id as int,
                ));
                return true;
            }
            i += 1;
        }
        let mut j: usize = 0;
        while j < self._redraw_parent_areas.len()
            invariant
                j <= self._redraw_parent_areas.len(),
                self@.ancestry_defined(view_id as int),
                forall|k: int|
                    0 <= k < self@._redraw_child_areas.len() ==> !child_request_reaches(
                        self@.views,
                        #[trigger] self@._redraw_child_areas[k],
                        view_id as int,
                    ),
                forall|k: int|
                    0 <= k < j ==> !parent_request_reaches(
                        self@.views,
                        #[trigger] self@._redraw_parent_areas[k],
                        view_id as int,
                    ),
            decreases self._redraw_parent_areas.len() - j,
        {
            let area = self._redraw_parent_areas[j];
            assert(parent_request_defined(
                self@.views,
                self@._redraw_parent_areas[j as int],
                view_id as int,
            ));
            let reached = match area {
                Area::All => true,
                Area::Empty => false,
                Area::Instance(instance) => view_is_within(&self.views, instance.view_id, view_id),
                Area::View(viewarea) => view_is_within(&self.views, viewarea.view_id, view_id),
            };
            if reached {
                assert(parent_request_reaches(
                    self@.views,
                    self@._redraw_parent_areas[j as int],
                    view_id as int,
                ));
                return true;
            }
            j += 1;
        }
        false
    }
}

/// Whether every area of `list` lies in a view that exists.
fn areas_are_valid(list: &Vec<Area>, views_len: usize) -> (r: bool)
    ensures
        r == forall|i: int|
            0 <= i < list@.len() ==> match (#[trigger] list@[i]).owner_view() {
                Some(w) => w < views_len,
                None => true,
            },
{
    let mut i: usize = 0;
    while i < list.len()
        invariant
            i <= list.len(),
            forall|k: int|
                0 <= k < i ==> match (#[trigger] list@[k]).owner_view() {
                    Some(w) => w < views_len,
                    None => true,
                },
        decreases list.len() - i,
    {
        if let Some(w) = list[i].view_id() {
            if w >= views_len {
                assert(list@[i as int].owner_view() == Some(w));
                return false;
            }
        }
        i += 1;
    }
    true
}

impl Cx {
    /// Whether every area of the lists of the cycle being drawn lies in a
    /// view that exists.
    pub fn redraw_areas_are_valid(&self) -> (r: bool)
        ensures
            r == self@.redraw_areas_valid(),
    {
        areas_are_valid(&self._redraw_child_areas, self.views.len()) && areas_are_valid(
            &self._redraw_parent_areas,
            self.views.len(),
        )
    }

    /// Whether `view_will_redraw` can be asked about view `view_id`: the
    /// view exists, the nesting hierarchy is well formed and the requests of
    /// the cycle name views that exist.
    pub fn ancestry_is_defined(&self, view_id: usize) -> (r: bool)
        ensures
            r == (view_id < self@.views.len() && crate::view::views_nested(self@.views)
                && self@.redraw_areas_valid()),
            r ==> self@.ancestry_defined(view_id as int),
    {
        let r = view_id < self.views.len() && crate::view::views_are_nested(&self.views)
            && self.redraw_areas_are_valid();
        proof {
            if r {
                lemma_ancestry_defined(self@, view_id as int);
            }
        }
        r
    }
}

/// A request for the contents of a view makes the views inside it redraw
/// and no view around it; a request for the containers of a view makes the
/// views around it redraw and no view inside it.
pub proof fn lemma_request_reaches_one_side(views: Seq<CxView>, area: Area, inside: int, outside: int)
    requires
        crate::view::views_nested(views),
        area.owner_view() is Some,
        0 <= inside < views.len(),
        0 <= outside < views.len(),
        area.owner_view().unwrap() < views.len(),
        crate::view::is_within(views, inside, area.owner_view().unwrap() as int),
        crate::view::is_within(views, area.owner_view().unwrap() as int, outside),
    ensures
        child_request_reaches(views, area, inside),
        parent_request_reaches(views, area, outside),
        outside != area.owner_view().unwrap() ==> !child_request_reaches(views, area, outside),
        inside != area.owner_view().unwrap() ==> !parent_request_reaches(views, area, inside),
{
    let view_id = area.owner_view().unwrap() as int;
    if outside != view_id && crate::view::is_within(views, outside, view_id) {
        crate::view::lemma_nesting_is_antisymmetric(views, outside, view_id);
    }
    if inside != view_id && crate::view::is_within(views, view_id, inside) {
        crate::view::lemma_nesting_is_antisymmetric(views, inside, view_id);
    }
}

/// With one request in one of the two lists of the cycle, a view redraws
/// exactly when that request reaches it.
pub proof fn lemma_single_request(state: CxState, area: Area, view_id: int)
    ensures
        state._redraw_child_areas == seq![area] && state._redraw_parent_areas.len() == 0
            ==> state.view_will_redraw(view_id) == child_request_reaches(state.views, area, view_id),
        state._redraw_parent_areas == seq![area] && state._redraw_child_areas.len() == 0
            ==> state.view_will_redraw(view_id) == parent_request_reaches(
            state.views,
            area,
            view_id,
        ),
{
    if state._redraw_child_areas == seq![area] && state._redraw_parent_areas.len() == 0 {
        assert(state._redraw_child_areas[0] == area);
    }
    if state._redraw_parent_areas == seq![area] && state._redraw_child_areas.len() == 0 {
        assert(state._redraw_parent_areas[0] == area);
    }
}

} // verus!
