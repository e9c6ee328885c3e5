//! Views: nested containers of draw items, and the ancestry query on their
//! nesting chain.

use crate::math::Vec2;
use vstd::prelude::*;

verus! {

/// A draw call of a view: a shader and the instance data drawn with it.
#[derive(Clone, Copy, Debug, PartialEq, Eq, Structural)]
pub struct CxDrawCall {
    pub draw_shader_id: usize,
    /// The number of values in the instance buffer.
    pub instances_len: usize,
}

/// One item of a view: a nested view or a draw call.
#[derive(Clone, Copy, Debug, PartialEq, Eq, Structural)]
pub struct CxDrawItem {
    pub sub_view_id: Option<usize>,
    pub draw_call: Option<CxDrawCall>,
}

/// What the core reads of a draw shader.
#[derive(Clone, Debug)]
pub struct CxDrawShader {
    pub name: String,
    /// The number of values per instance.
    pub instance_slots: usize,
}

/// A node of the nesting hierarchy.
#[derive(Clone, Debug)]
pub struct CxView {
    /// The pass the view belongs to.
    pub pass_id: usize,
    /// The view this one is nested in; the root view names view 0.
    pub nesting_view_id: usize,
    pub redraw_id: u64,
    pub draw_items: Vec<CxDrawItem>,
    /// The number of draw items in use.
    pub draw_items_len: usize,
    pub unsnapped_scroll: Vec2,
}

impl CxView {
    /// An empty view of pass 0, nested in the root.
    pub fn new() -> (view: CxView)
        ensures
            view.pass_id == 0,
            view.nesting_view_id == 0,
            view.redraw_id == 0,
            view.draw_items@ == Seq::<CxDrawItem>::empty(),
            view.draw_items_len == 0,
            view.unsnapped_scroll == (Vec2 { x: 0, y: 0 }),
    {
        CxView {
            pass_id: 0,
            nesting_view_id: 0,
            redraw_id: 0,
            draw_items: Vec::new(),
            draw_items_len: 0,
            unsnapped_scroll: Vec2::zero(),
        }
    }
}

/// Whether the walk up the nesting chain from view `v` arrives at the root,
/// view 0, after visiting at most `n` views below it.
pub open spec fn nesting_ends(views: Seq<CxView>, v: int, n: nat) -> bool
    decreases n,
{
    v == 0 || (n > 0 && 0 <= v < views.len() && nesting_ends(
        views,
        views[v].nesting_view_id as int,
        (n - 1) as nat,
    ))
}

/// Every view exists, names an existing view as the one it is nested in, and
/// its nesting chain arrives at the root: the chain never cycles.
pub open spec fn views_nested(views: Seq<CxView>) -> bool {
    forall|v: int| 0 <= v < views.len() ==> #[trigger] nesting_ends(views, v, views.len())
}

/// Whether view `v` is view `ancestor` or is found from `v` within `n` steps
/// up the nesting chain; the walk stops at the root.
pub open spec fn within_hops(views: Seq<CxView>, v: int, ancestor: int, n: nat) -> bool
    decreases n,
{
    v == ancestor || (n > 0 && v != 0 && 0 <= v < views.len() && within_hops(
        views,
        views[v].nesting_view_id as int,
        ancestor,
        (n - 1) as nat,
    ))
}

/// Whether view `v` is view `ancestor` or nested in it, directly or through
/// other views.
pub open spec fn is_within(views: Seq<CxView>, v: int, ancestor: int) -> bool {
    exists|n: nat| within_hops(views, v, ancestor, n)
}

/// Whether the walk from view `v` in search of `ancestor` stays inside the
/// views and ends: it meets `ancestor` or the root after at most `n` steps.
pub open spec fn walk_ends(views: Seq<CxView>, v: int, ancestor: int, n: nat) -> bool
    decreases n,
{
    v == ancestor || v == 0 || (n > 0 && 0 <= v < views.len() && walk_ends(
        views,
        views[v].nesting_view_id as int,
        ancestor,
        (n - 1) as nat,
    ))
}

/// Whether the search for `ancestor` from view `v` is defined.
pub open spec fn walk_defined(views: Seq<CxView>, v: int, ancestor: int) -> bool {
    exists|n: nat| walk_ends(views, v, ancestor, n)
}

/// In a nesting hierarchy that is well formed every search from an existing
/// view is defined.
pub proof fn lemma_nested_walk_defined(views: Seq<CxView>, v: int, ancestor: int)
    requires
        views_nested(views),
        0 <= v < views.len(),
    ensures
        walk_defined(views, v, ancestor),
{
    lemma_nesting_ends_walk(views, v, ancestor, views.len());
}

proof fn lemma_nesting_ends_walk(views: Seq<CxView>, v: int, ancestor: int, n: nat)
    requires
        nesting_ends(views, v, n),
    ensures
        walk_ends(views, v, ancestor, n),
    decreases n,
{
    if v != 0 && v != ancestor {
        lemma_nesting_ends_walk(views, views[v].nesting_view_id as int, ancestor, (n - 1) as nat);
    }
}

proof fn lemma_is_within_step(views: Seq<CxView>, v: int, ancestor: int)
    requires
        v != ancestor,
        v != 0,
        0 <= v < views.len(),
    ensures
        is_within(views, v, ancestor) == is_within(views, views[v].nesting_view_id as int, ancestor),
{
    let up = views[v].nesting_view_id as int;
    if is_within(views, v, ancestor) {
        let n = choose|n: nat| within_hops(views, v, ancestor, n);
        assert(within_hops(views, up, ancestor, (n - 1) as nat));
    }
    if is_within(views, up, ancestor) {
        let n = choose|n: nat| within_hops(views, up, ancestor, n);
        assert(within_hops(views, v, ancestor, n + 1));
    }
}

/// Whether view `view_id` is view `ancestor` or nested in it.
pub fn view_is_within(views: &Vec<CxView>, view_id: usize, ancestor: usize) -> (r: bool)
    requires
        walk_defined(views@, view_id as int, ancestor as int),
    ensures
        r == is_within(views@, view_id as int, ancestor as int),
{
    let mut vw = view_id;
    if vw == ancestor {
        assert(within_hops(views@, vw as int, ancestor as int, 0));
        return true;
    }
    let ghost mut n: nat = choose|n: nat| walk_ends(views@, view_id as int, ancestor as int, n);
    while vw != 0
        invariant
            vw != ancestor,
            walk_ends(views@, vw as int, ancestor as int, n),
            is_within(views@, view_id as int, ancestor as int) == is_within(
                views@,
                vw as int,
                ancestor as int,
            ),
        decreases n,
    {
        proof {
            lemma_is_within_step(views@, vw as int, ancestor as int);
            n = (n - 1) as nat;
        }
        vw = views[vw].nesting_view_id;
        if vw == ancestor {
            assert(within_hops(views@, vw as int, ancestor as int, 0));
            return true;
        }
    }
    assert(!is_within(views@, 0, ancestor as int)) by {
        assert forall|k: nat| !within_hops(views@, 0, ancestor as int, k) by {}
    }
    false
}

/// Whether the nesting chain of view `view_id` stays inside the views and
/// arrives at the root before it has visited more views than there are.
pub fn nesting_is_finite(views: &Vec<CxView>, view_id: usize) -> (r: bool)
    ensures
        r == nesting_ends(views@, view_id as int, views@.len()),
{
    let mut vw = view_id;
    let mut n: usize = views.len();
    while vw != 0
        invariant
            nesting_ends(views@, view_id as int, views@.len()) == nesting_ends(
                views@,
                vw as int,
                n as nat,
            ),
        decreases n,
    {
        if n == 0 || vw >= views.len() {
            return false;
        }
        vw = views[vw].nesting_view_id;
        n -= 1;
    }
    true
}

/// Whether the nesting hierarchy is well formed.
pub fn views_are_nested(views: &Vec<CxView>) -> (r: bool)
    ensures
        r == views_nested(views@),
{
    let mut v: usize = 0;
    while v < views.len()
        invariant
            v <= views.len(),
            forall|k: int| 0 <= k < v ==> #[trigger] nesting_ends(views@, k, views@.len()),
        decreases views.len() - v,
    {
        if !nesting_is_finite(views, v) {
            return false;
        }
        v += 1;
    }
    true
}

/// The number of steps from view `v` up to the root, `n` at most.
pub open spec fn nesting_depth(views: Seq<CxView>, v: int, n: nat) -> nat
    decreases n,
{
    if v == 0 || n == 0 || !(0 <= v < views.len()) {
        0
    } else {
        1 + nesting_depth(views, views[v].nesting_view_id as int, (n - 1) as nat)
    }
}

proof fn lemma_nesting_any_bound(views: Seq<CxView>, v: int, n: nat, m: nat)
    requires
        nesting_ends(views, v, n),
        n <= m,
    ensures
        nesting_ends(views, v, m),
        nesting_depth(views, v, n) == nesting_depth(views, v, m),
    decreases n,
{
    if v != 0 {
        lemma_nesting_any_bound(views, views[v].nesting_view_id as int, (n - 1) as nat, (m - 1) as nat);
    }
}

proof fn lemma_within_is_higher(views: Seq<CxView>, v: int, ancestor: int, hops: nat, n: nat)
    requires
        nesting_ends(views, v, n),
        within_hops(views, v, ancestor, hops),
    ensures
        nesting_ends(views, ancestor, n),
        v != ancestor ==> nesting_depth(views, ancestor, n) < nesting_depth(views, v, n),
    decreases hops,
{
    if v != ancestor {
        let up = views[v].nesting_view_id as int;
        lemma_within_is_higher(views, up, ancestor, (hops - 1) as nat, (n - 1) as nat);
        lemma_nesting_any_bound(views, ancestor, (n - 1) as nat, n);
    }
}

/// In a nesting hierarchy that is well formed two different views are never
/// nested in each other.
pub proof fn lemma_nesting_is_antisymmetric(views: Seq<CxView>, a: int, b: int)
    requires
        views_nested(views),
        0 <= a < views.len(),
        0 <= b < views.len(),
        is_within(views, a, b),
        is_within(views, b, a),
    ensures
        a == b,
{
    let n = views.len();
    let up = choose|k: nat| within_hops(views, a, b, k);
    let down = choose|k: nat| within_hops(views, b, a, k);
    lemma_within_is_higher(views, a, b, up, n);
    lemma_within_is_higher(views, b, a, down, n);
}

/// Being nested is transitive.
pub proof fn lemma_nesting_is_transitive(views: Seq<CxView>, a: int, b: int, c: int)
    requires
        is_within(views, a, b),
        is_within(views, b, c),
    ensures
        is_within(views, a, c),
{
    let first = choose|k: nat| within_hops(views, a, b, k);
    let second = choose|k: nat| within_hops(views, b, c, k);
    lemma_within_hops_chain(views, a, b, c, first, second);
}

proof fn lemma_within_hops_chain(views: Seq<CxView>, a: int, b: int, c: int, first: nat, second: nat)
    requires
        within_hops(views, a, b, first),
        within_hops(views, b, c, second),
    ensures
        within_hops(views, a, c, first + second),
    decreases first,
{
    if a == b {
        lemma_within_more_hops(views, b, c, second, first + second);
    } else if a != c {
        lemma_within_hops_chain(
            views,
            views[a].nesting_view_id as int,
            b,
            c,
            (first - 1) as nat,
            second,
        );
    }
}

proof fn lemma_within_more_hops(views: Seq<CxView>, v: int, ancestor: int, n: nat, m: nat)
    requires
        within_hops(views, v, ancestor, n),
        n <= m,
    ensures
        within_hops(views, v, ancestor, m),
    decreases n,
{
    if v != ancestor {
        lemma_within_more_hops(
            views,
            views[v].nesting_view_id as int,
            ancestor,
            (n - 1) as nat,
            (m - 1) as nat,
        );
    }
}

} // verus!
