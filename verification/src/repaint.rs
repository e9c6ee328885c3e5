//! The order in which dirty passes are repainted.
//!
//! Dirty passes are placed one by one, in id order, into a list: a pass that
//! feeds a window goes to the end, a pass that feeds another pass goes
//! immediately before that pass when it is listed already, and a pass
//! without dependency goes to the front.

use crate::pass::{CxPass, CxPassDepOf};
use vstd::prelude::*;

verus! {

/// The first index at or after `from` at which `order` holds `id`, or the
/// length of `order` when there is none.
pub open spec fn first_index_from(order: Seq<usize>, id: usize, from: int) -> int
    decreases order.len() - from,
{
    if from >= order.len() {
        order.len() as int
    } else if order[from] == id {
        from
    } else {
        first_index_from(order, id, from + 1)
    }
}

/// The first index at which `order` holds `id`, or the length of `order`
/// when it does not hold it.
pub open spec fn position(order: Seq<usize>, id: usize) -> int {
    first_index_from(order, id, 0)
}

/// The repaint order after dirty pass `p` has been placed: at the end when it
/// feeds a window, immediately before its dependency when that is listed
/// already and at the end when it is not, at the front when it has no
/// dependency.
pub open spec fn place_pass(order: Seq<usize>, passes: Seq<CxPass>, p: int) -> Seq<usize> {
    match passes[p].dep_of {
        CxPassDepOf::Window(_) => order.push(p as usize),
        CxPassDepOf::Pass(d) => order.insert(position(order, d), p as usize),
        CxPassDepOf::Nothing => order.insert(0, p as usize),
    }
}

/// The repaint order of the dirty passes among the first `n`, placed one by
/// one in id order.
pub open spec fn repaint_order(passes: Seq<CxPass>, n: nat) -> Seq<usize>
    decreases n,
{
    if n == 0 {
        Seq::empty()
    } else {
        let earlier = repaint_order(passes, (n - 1) as nat);
        if passes[n - 1].paint_dirty {
            place_pass(earlier, passes, n - 1)
        } else {
            earlier
        }
    }
}

/// The number of dirty passes among the first `n` that feed a window.
pub open spec fn window_repaints(passes: Seq<CxPass>, n: nat) -> nat
    decreases n,
{
    if n == 0 {
        0
    } else {
        window_repaints(passes, (n - 1) as nat) + if passes[n - 1].paint_dirty && passes[n
            - 1].dep_of is Window {
            1nat
        } else {
            0nat
        }
    }
}

/// Whether one of the first `n` passes is dirty and names itself as its
/// dependency.
pub open spec fn self_dependent(passes: Seq<CxPass>, n: nat) -> bool {
    exists|p: int|
        0 <= p < n && (#[trigger] passes[p]).paint_dirty && passes[p].dep_of == CxPassDepOf::Pass(
            p as usize,
        )
}

proof fn lemma_first_index_from(order: Seq<usize>, id: usize, from: int, i: int)
    requires
        0 <= from <= i <= order.len(),
        forall|k: int| from <= k < i ==> order[k] != id,
        i < order.len() ==> order[i] == id,
    ensures
        first_index_from(order, id, from) == i,
    decreases i - from,
{
    if from < i {
        lemma_first_index_from(order, id, from + 1, i);
    }
}

proof fn lemma_first_index_from_is_first(order: Seq<usize>, id: usize, from: int)
    requires
        0 <= from <= order.len(),
    ensures
        from <= first_index_from(order, id, from) <= order.len(),
        forall|k: int| from <= k < first_index_from(order, id, from) ==> order[k] != id,
        first_index_from(order, id, from) < order.len() ==> order[first_index_from(order, id, from)]
            == id,
    decreases order.len() - from,
{
    if from < order.len() && order[from] != id {
        lemma_first_index_from_is_first(order, id, from + 1);
    }
}

/// `position` is the first index that holds the id, and the length when no
/// index does.
pub proof fn lemma_position(order: Seq<usize>, id: usize)
    ensures
        0 <= position(order, id) <= order.len(),
        forall|k: int| 0 <= k < position(order, id) ==> order[k] != id,
        position(order, id) < order.len() ==> order[position(order, id)] == id,
        position(order, id) < order.len() <==> order.contains(id),
{
    lemma_first_index_from_is_first(order, id, 0);
    let i = position(order, id);
    if order.contains(id) {
        let k = choose|k: int| 0 <= k < order.len() && order[k] == id;
        assert(!(k < i));
    }
}

/// The first index at which `order` holds `id`.
fn find_position(order: &Vec<usize>, id: usize) -> (i: usize)
    ensures
        i == position(order@, id),
        i <= order.len(),
{
    let mut i: usize = 0;
    while i < order.len()
        invariant
            i <= order.len(),
            forall|k: int| 0 <= k < i ==> order@[k] != id,
        decreases order.len() - i,
    {
        if order[i] == id {
            proof {
                lemma_first_index_from(order@, id, 0, i as int);
            }
            return i;
        }
        i += 1;
    }
    proof {
        lemma_first_index_from(order@, id, 0, i as int);
    }
    i
}

proof fn lemma_window_repaints_bound(passes: Seq<CxPass>, n: nat, m: nat)
    requires
        n <= m,
    ensures
        window_repaints(passes, n) <= window_repaints(passes, m),
        window_repaints(passes, n) <= n,
    decreases m,
{
    if n < m {
        lemma_window_repaints_bound(passes, n, (m - 1) as nat);
    } else if n > 0 {
        lemma_window_repaints_bound(passes, (n - 1) as nat, (n - 1) as nat);
    }
}

/// Lists the dirty passes in repaint order and counts those that feed a
/// window; returns whether a dirty pass names itself as its dependency.
pub fn order_dirty_passes(
    passes: &Vec<CxPass>,
    passes_todo: &mut Vec<usize>,
    windows_need_repaint: &mut usize,
) -> (self_dependency: bool)
    requires
        *old(windows_need_repaint) + window_repaints(passes@, passes@.len()) <= usize::MAX,
    ensures
        final(passes_todo)@ == repaint_order(passes@, passes@.len()),
        *final(windows_need_repaint) == *old(windows_need_repaint) + window_repaints(
            passes@,
            passes@.len(),
        ),
        self_dependency == self_dependent(passes@, passes@.len()),
{
    passes_todo.truncate(0);
    assert(passes_todo@ =~= Seq::<usize>::empty());
    let ghost windows_before = *windows_need_repaint;
    let mut self_dependency = false;
    let mut pass_id: usize = 0;
    while pass_id < passes.len()
        invariant
            pass_id <= passes.len(),
            windows_before + window_repaints(passes@, passes@.len()) <= usize::MAX,
            passes_todo@ == repaint_order(passes@, pass_id as nat),
            *windows_need_repaint == windows_before + window_repaints(passes@, pass_id as nat),
            self_dependency == self_dependent(passes@, pass_id as nat),
        decreases passes.len() - pass_id,
    {
        let cxpass = passes[pass_id];
        let ghost earlier = passes_todo@;
        if cxpass.paint_dirty {
            let mut inserted = false;
            match cxpass.dep_of {
                CxPassDepOf::Window(_) => {
                    proof {
                        lemma_window_repaints_bound(passes@, (pass_id + 1) as nat, passes@.len());
                    }
                    *windows_need_repaint += 1;
                },
                CxPassDepOf::Pass(dep_of_pass_id) => {
                    if pass_id == dep_of_pass_id {
                        self_dependency = true;
                    }
                    let insert_before = find_position(passes_todo, dep_of_pass_id);
                    if insert_before < passes_todo.len() {
                        passes_todo.insert(insert_before, pass_id);
                        inserted = true;
                    } else {
                        assert(earlier.insert(insert_before as int, pass_id) =~= earlier.push(pass_id));
                    }
                },
                CxPassDepOf::Nothing => {
                    passes_todo.insert(0, pass_id);
                    inserted = true;
                },
            }
            if !inserted {
                passes_todo.push(pass_id);
            }
        }
        proof {
            let n = (pass_id + 1) as nat;
            assert(passes_todo@ == repaint_order(passes@, n));
            if self_dependent(passes@, n) && !self_dependent(passes@, pass_id as nat) {
                let p = choose|p: int|
                    0 <= p < n && (#[trigger] passes@[p]).paint_dirty && passes@[p].dep_of
                        == CxPassDepOf::Pass(p as usize);
                assert(p == pass_id);
            }
            if self_dependent(passes@, pass_id as nat) {
                let p = choose|p: int|
                    0 <= p < pass_id && (#[trigger] passes@[p]).paint_dirty && passes@[p].dep_of
                        == CxPassDepOf::Pass(p as usize);
                assert(0 <= p < n && passes@[p].paint_dirty);
            }
            if cxpass.paint_dirty && cxpass.dep_of == CxPassDepOf::Pass(pass_id) {
                assert(passes@[pass_id as int].paint_dirty);
            }
        }
        pass_id += 1;
    }
    self_dependency
}

proof fn lemma_insert_contains(order: Seq<usize>, i: int, x: usize)
    requires
        0 <= i <= order.len(),
    ensures
        forall|y: usize| order.insert(i, x).contains(y) <==> (order.contains(y) || y == x),
        order.no_duplicates() && !order.contains(x) ==> order.insert(i, x).no_duplicates(),
{
    let after = order.insert(i, x);
    assert forall|y: usize| after.contains(y) <==> (order.contains(y) || y == x) by {
        if after.contains(y) {
            let k = choose|k: int| 0 <= k < after.len() && after[k] == y;
            if k < i {
                assert(order[k] == y);
            } else if k > i {
                assert(order[k - 1] == y);
            }
        }
        if order.contains(y) {
            let k = choose|k: int| 0 <= k < order.len() && order[k] == y;
            if k < i {
                assert(after[k] == y);
            } else {
                assert(after[k + 1] == y);
            }
        }
        if y == x {
            assert(after[i] == y);
        }
    }
    if order.no_duplicates() && !order.contains(x) {
        assert forall|a: int, b: int| 0 <= a < after.len() && 0 <= b < after.len() && a != b implies after[a]
            != after[b] by {
            let oa = if a < i {
                a
            } else {
                a - 1
            };
            let ob = if b < i {
                b
            } else {
                b - 1
            };
            if a != i {
                assert(after[a] == order[oa]);
                assert(order.contains(order[oa]));
            }
            if b != i {
                assert(after[b] == order[ob]);
                assert(order.contains(order[ob]));
            }
        }
    }
}

/// Where a listed id stands after another id has been inserted, and where
/// the inserted id stands.
proof fn lemma_insert_position(order: Seq<usize>, i: int, x: usize, a: usize)
    requires
        0 <= i <= order.len(),
        !order.contains(x),
        order.contains(a),
    ensures
        position(order.insert(i, x), a) == position(order, a) + if position(order, a) >= i {
            1int
        } else {
            0int
        },
        position(order.insert(i, x), x) == i,
{
    let after = order.insert(i, x);
    lemma_position(order, a);
    let j = position(order, a);
    if j < i {
        lemma_first_index_from(after, a, 0, j);
    } else {
        assert forall|k: int| 0 <= k < j + 1 implies after[k] != a by {
            if k > i {
                assert(after[k] == order[k - 1]);
            }
        }
        lemma_first_index_from(after, a, 0, j + 1);
    }
    assert forall|k: int| 0 <= k < i implies after[k] != x by {
        assert(order.contains(order[k]));
    }
    lemma_first_index_from(after, x, 0, i);
}

/// The order lists every dirty pass once and no clean pass.
pub proof fn lemma_repaint_order_lists_dirty(passes: Seq<CxPass>, n: nat)
    requires
        n <= passes.len() <= usize::MAX,
    ensures
        repaint_order(passes, n).no_duplicates(),
        forall|id: usize|
            repaint_order(passes, n).contains(id) <==> (id < n && passes[id as int].paint_dirty),
    decreases n,
{
    let order = repaint_order(passes, n);
    if n > 0 {
        let earlier = repaint_order(passes, (n - 1) as nat);
        lemma_repaint_order_lists_dirty(passes, (n - 1) as nat);
        let p = (n - 1) as usize;
        if passes[n - 1].paint_dirty {
            let at = placing_index(earlier, passes, n - 1);
            lemma_placing_index(earlier, passes, n - 1);
            lemma_insert_contains(earlier, at, p);
            assert(order == earlier.insert(at, p));
        } else {
            assert(order == earlier);
        }
        assert forall|id: usize| order.contains(id) <==> (id < n && passes[id as int].paint_dirty) by {
            assert(earlier.contains(id) <==> (id < n - 1 && passes[id as int].paint_dirty));
        }
    } else {
        assert forall|id: usize| !order.contains(id) by {}
    }
}

/// The index at which `place_pass` puts pass `p`.
pub open spec fn placing_index(order: Seq<usize>, passes: Seq<CxPass>, p: int) -> int {
    match passes[p].dep_of {
        CxPassDepOf::Window(_) => order.len() as int,
        CxPassDepOf::Pass(d) => position(order, d),
        CxPassDepOf::Nothing => 0,
    }
}

proof fn lemma_placing_index(order: Seq<usize>, passes: Seq<CxPass>, p: int)
    ensures
        0 <= placing_index(order, passes, p) <= order.len(),
        place_pass(order, passes, p) == order.insert(placing_index(order, passes, p), p as usize),
{
    match passes[p].dep_of {
        CxPassDepOf::Window(_) => {
            assert(order.insert(order.len() as int, p as usize) =~= order.push(p as usize));
        },
        CxPassDepOf::Pass(d) => {
            lemma_position(order, d);
        },
        CxPassDepOf::Nothing => {},
    }
}

/// Two passes that are listed keep their relative order while further
/// passes are placed.
pub proof fn lemma_repaint_order_stable(passes: Seq<CxPass>, n: nat, m: nat, a: usize, b: usize)
    requires
        n <= m <= passes.len() <= usize::MAX,
        a < n,
        b < n,
        passes[a as int].paint_dirty,
        passes[b as int].paint_dirty,
    ensures
        position(repaint_order(passes, m), a) < repaint_order(passes, m).len(),
        position(repaint_order(passes, m), b) < repaint_order(passes, m).len(),
        (position(repaint_order(passes, n), a) < position(repaint_order(passes, n), b)) == (position(
            repaint_order(passes, m),
            a,
        ) < position(repaint_order(passes, m), b)),
    decreases m - n,
{
    lemma_repaint_order_lists_dirty(passes, m);
    lemma_position(repaint_order(passes, m), a);
    lemma_position(repaint_order(passes, m), b);
    if n < m {
        let earlier = repaint_order(passes, (m - 1) as nat);
        lemma_repaint_order_stable(passes, n, (m - 1) as nat, a, b);
        if passes[m - 1].paint_dirty {
            let at = placing_index(earlier, passes, m - 1);
            lemma_placing_index(earlier, passes, m - 1);
            lemma_repaint_order_lists_dirty(passes, (m - 1) as nat);
            lemma_insert_position(earlier, at, (m - 1) as usize, a);
            lemma_insert_position(earlier, at, (m - 1) as usize, b);
        }
    }
}

/// A dirty pass is repainted before the pass it depends on, whenever that
/// pass has the smaller id or feeds a window.
pub proof fn lemma_repaint_order_dependent_first(passes: Seq<CxPass>, p: usize, d: usize)
    requires
        passes.len() <= usize::MAX,
        p < passes.len(),
        d < passes.len(),
        passes[p as int].paint_dirty,
        passes[d as int].paint_dirty,
        passes[p as int].dep_of == CxPassDepOf::Pass(d),
        d < p || passes[d as int].dep_of is Window,
    ensures
        position(repaint_order(passes, passes.len()), p) < position(
            repaint_order(passes, passes.len()),
            d,
        ) < repaint_order(passes, passes.len()).len(),
{
    let later = if d < p {
        p
    } else {
        d
    };
    let earlier = repaint_order(passes, later as nat);
    let placed = repaint_order(passes, (later + 1) as nat);
    lemma_repaint_order_lists_dirty(passes, later as nat);
    lemma_placing_index(earlier, passes, later as int);
    if d < p {
        lemma_position(earlier, d);
        lemma_insert_position(earlier, position(earlier, d), p, d);
    } else {
        lemma_position(earlier, p);
        lemma_insert_position(earlier, earlier.len() as int, d, p);
    }
    assert(placed == earlier.insert(placing_index(earlier, passes, later as int), later));
    lemma_repaint_order_stable(passes, (later + 1) as nat, passes.len(), p, d);
}

/// A dirty pass without dependency is repainted before every dirty pass
/// with a smaller id, the passes that depend on it among them.
pub proof fn lemma_repaint_order_top_level_first(passes: Seq<CxPass>, p: usize, d: usize)
    requires
        passes.len() <= usize::MAX,
        p < d < passes.len(),
        passes[p as int].paint_dirty,
        passes[d as int].paint_dirty,
        passes[d as int].dep_of == CxPassDepOf::Nothing,
    ensures
        position(repaint_order(passes, passes.len()), d) < position(
            repaint_order(passes, passes.len()),
            p,
        ) < repaint_order(passes, passes.len()).len(),
{
    let earlier = repaint_order(passes, d as nat);
    lemma_repaint_order_lists_dirty(passes, d as nat);
    lemma_placing_index(earlier, passes, d as int);
    lemma_position(earlier, p);
    lemma_insert_position(earlier, 0, d, p);
    assert(repaint_order(passes, (d + 1) as nat) == earlier.insert(0, d));
    lemma_repaint_order_stable(passes, (d + 1) as nat, passes.len(), d, p);
}

/// After propagation every pass on the dependency path of a dirty pass is
/// dirty and listed for repaint, up to the pass at which the path leaves the
/// graph.
pub proof fn lemma_repaint_covers_path(passes: Seq<CxPass>, p: int, q: int, n: nat)
    requires
        passes.len() <= usize::MAX,
        crate::pass::passes_linked(passes),
        0 <= p < passes.len(),
        passes[p].paint_dirty,
        crate::pass::leads_to(passes, p, q, n),
    ensures
        0 <= q < passes.len(),
        crate::pass::dirty_closure(passes)[q].paint_dirty,
        repaint_order(crate::pass::dirty_closure(passes), passes.len()).contains(q as usize),
{
    crate::pass::lemma_closure_dirties_path(passes, p, q, n);
    lemma_repaint_order_lists_dirty(crate::pass::dirty_closure(passes), passes.len());
}

} // verus!
