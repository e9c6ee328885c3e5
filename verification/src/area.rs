//! Handles that name regions of the draw tree, and the deduplicated lists in
//! which redraw requests for them are collected.

use vstd::prelude::*;

verus! {

/// One draw instance inside a view.
#[derive(Clone, Copy, Debug, PartialEq, Eq, Structural)]
pub struct InstanceArea {
    pub view_id: usize,
    pub draw_item_id: usize,
    pub redraw_id: u64,
}

/// A whole view.
#[derive(Clone, Copy, Debug, PartialEq, Eq, Structural)]
pub struct ViewArea {
    pub view_id: usize,
    pub redraw_id: u64,
}

/// A non-owning reference to a region of the draw tree.
///
/// `Empty` names nothing and `All` names every region; the other two are
/// copies of storage indices and go stale when the slot is reused.
#[derive(Clone, Copy, Debug, PartialEq, Eq, Structural)]
pub enum Area {
    Empty,
    All,
    Instance(InstanceArea),
    View(ViewArea),
}

impl Area {
    /// The view an area lies in; `Empty` and `All` lie in none.
    pub open spec fn owner_view(self) -> Option<usize> {
        match self {
            Area::Instance(ia) => Some(ia.view_id),
            Area::View(va) => Some(va.view_id),
            _ => None,
        }
    }

    /// Whether the area refers to storage, so that it has to follow a
    /// reallocation of that storage.
    pub open spec fn is_reference(self) -> bool {
        self != Area::Empty && self != Area::All
    }

    /// What a holder of `self` holds after storage named `old_area` has been
    /// replaced by `new_area`.
    pub open spec fn rewritten(self, old_area: Area, new_area: Area) -> Area {
        if old_area.is_reference() && self == old_area {
            new_area
        } else {
            self
        }
    }

    /// Whether the area names nothing.
    pub fn is_empty(&self) -> (r: bool)
        ensures
            r == (*self == Area::Empty),
    {
        *self == Area::Empty
    }

    /// The view the area lies in, if it refers to storage.
    pub fn view_id(&self) -> (r: Option<usize>)
        ensures
            r == self.owner_view(),
    {
        match self {
            Area::Instance(ia) => Some(ia.view_id),
            Area::View(va) => Some(va.view_id),
            _ => None,
        }
    }
}

/// Whether a redraw list is the sentinel `[All]`.
pub open spec fn is_redraw_all(list: Seq<Area>) -> bool {
    list.len() == 1 && list[0] == Area::All
}

/// The redraw list after a request for `area`.
///
/// A request for `All` replaces the list by `[All]`; a list that is `[All]`
/// absorbs every other request; otherwise the area is added unless present.
pub open spec fn redraw_insert(list: Seq<Area>, area: Area) -> Seq<Area> {
    if area == Area::All {
        seq![Area::All]
    } else if is_redraw_all(list) {
        list
    } else if list.contains(area) {
        list
    } else {
        list.push(area)
    }
}

/// The redraw list after a request for each of the first `n` areas of
/// `requests`, in order.
pub open spec fn redraw_insert_all(list: Seq<Area>, requests: Seq<Area>, n: nat) -> Seq<Area>
    decreases n,
{
    if n == 0 {
        list
    } else {
        redraw_insert(redraw_insert_all(list, requests, (n - 1) as nat), requests[n - 1])
    }
}

/// Whether `list` holds `area`.
fn list_contains(list: &Vec<Area>, area: Area) -> (r: bool)
    ensures
        r == list@.contains(area),
{
    let mut i: usize = 0;
    while i < list.len()
        invariant
            i <= list.len(),
            forall|k: int| 0 <= k < i ==> list@[k] != area,
        decreases list.len() - i,
    {
        if list[i] == area {
            return true;
        }
        i += 1;
    }
    false
}

/// Records a redraw request for `area` in `list`.
pub fn request_redraw(list: &mut Vec<Area>, area: Area)
    ensures
        final(list)@ == redraw_insert(old(list)@, area),
{
    if area == Area::All {
        list.truncate(0);
        assert(list@ =~= Seq::<Area>::empty());
    } else if list.len() == 1 && list[0] == Area::All {
        return ;
    }
    if list_contains(list, area) {
        return ;
    }
    list.push(area);
    proof {
        if area == Area::All {
            assert(list@ =~= seq![Area::All]);
        }
    }
}

/// Once everything is marked for redraw, a further request changes nothing:
/// the list stays exactly `[All]`.
pub proof fn lemma_redraw_all_absorbs(list: Seq<Area>, area: Area)
    ensures
        redraw_insert(list, Area::All) == seq![Area::All],
        redraw_insert(redraw_insert(list, Area::All), area) == seq![Area::All],
{
    let all = redraw_insert(list, Area::All);
    assert(all == seq![Area::All]);
    assert(all.len() == 1 && all[0] == Area::All);
}

/// A request never makes an area occur twice in a redraw list.
pub proof fn lemma_redraw_insert_keeps_distinct(list: Seq<Area>, area: Area)
    requires
        list.no_duplicates(),
    ensures
        redraw_insert(list, area).no_duplicates(),
{
}

/// After a request the area is covered: it is in the list, or the list is
/// `[All]`; and whatever was covered before still is.
pub proof fn lemma_redraw_insert_covers(list: Seq<Area>, area: Area, other: Area)
    ensures
        redraw_insert(list, area).contains(area) || is_redraw_all(redraw_insert(list, area)),
        list.contains(other) ==> redraw_insert(list, area).contains(other) || is_redraw_all(
            redraw_insert(list, area),
        ),
{
    let r = redraw_insert(list, area);
    if area == Area::All {
        assert(r[0] == Area::All);
    } else if is_redraw_all(list) {
    } else if list.contains(area) {
    } else {
        assert(r[list.len() as int] == area);
        if list.contains(other) {
            let k = choose|k: int| 0 <= k < list.len() && list[k] == other;
            assert(r[k] == other);
        }
    }
}

} // verus!
