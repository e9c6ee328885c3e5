//! The graph of render passes, and the propagation of the dirty flag along
//! its dependency edges.

use vstd::prelude::*;

verus! {

/// What a pass renders for.
#[derive(Clone, Copy, Debug, PartialEq, Eq, Structural)]
pub enum CxPassDepOf {
    /// The pass feeds the surface of a window.
    Window(usize),
    /// The pass feeds another pass.
    Pass(usize),
    /// The pass is top-level or off-screen: it feeds nothing.
    Nothing,
}

/// One render target.
#[derive(Clone, Copy, Debug, PartialEq, Eq, Structural)]
pub struct CxPass {
    pub paint_dirty: bool,
    pub dep_of: CxPassDepOf,
    pub main_view_id: Option<usize>,
}

impl CxPass {
    /// A clean pass without dependency and without content.
    pub fn new() -> (pass: CxPass)
        ensures
            pass == (CxPass { paint_dirty: false, dep_of: CxPassDepOf::Nothing, main_view_id: None }),
    {
        CxPass { paint_dirty: false, dep_of: CxPassDepOf::Nothing, main_view_id: None }
    }

    /// This pass, marked dirty.
    pub open spec fn dirtied(self) -> CxPass {
        CxPass { paint_dirty: true, ..self }
    }
}

/// The pass that pass `p` depends on, if its dependency is a pass.
pub open spec fn dependency(passes: Seq<CxPass>, p: int) -> Option<int> {
    if 0 <= p < passes.len() {
        match passes[p].dep_of {
            CxPassDepOf::Pass(d) => Some(d as int),
            _ => None,
        }
    } else {
        None
    }
}

/// Every dependency edge ends at a pass that exists.
pub open spec fn passes_linked(passes: Seq<CxPass>) -> bool {
    forall|p: int|
        0 <= p < passes.len() ==> match (#[trigger] passes[p]).dep_of {
            CxPassDepOf::Pass(d) => d < passes.len(),
            _ => true,
        }
}

/// Whether exactly `n` hops along dependency edges lead from pass `p` to
/// pass `q`.
pub open spec fn leads_to(passes: Seq<CxPass>, p: int, q: int, n: nat) -> bool
    decreases n,
{
    if n == 0 {
        p == q
    } else {
        match dependency(passes, p) {
            Some(d) => leads_to(passes, d, q, (n - 1) as nat),
            None => false,
        }
    }
}

/// Whether the dependency chain that starts at pass `p` stays among the
/// passes that exist and leaves the pass graph after visiting at most `n`
/// passes.
pub open spec fn chain_ends(passes: Seq<CxPass>, p: int, n: nat) -> bool
    decreases n,
{
    n > 0 && 0 <= p < passes.len() && match passes[p].dep_of {
        CxPassDepOf::Pass(d) => chain_ends(passes, d as int, (n - 1) as nat),
        _ => true,
    }
}

/// The dependency graph is a forest: every dependency edge ends at a pass
/// that exists, and no pass depends on itself, directly or through other
/// passes.
pub open spec fn passes_acyclic(passes: Seq<CxPass>) -> bool {
    forall|p: int| 0 <= p < passes.len() ==> #[trigger] chain_ends(passes, p, passes.len())
}

/// Whether pass `q` has to be repainted: a dirty pass leads to it.
pub open spec fn needs_repaint(passes: Seq<CxPass>, q: int) -> bool {
    exists|p: int, n: nat|
        0 <= p < passes.len() && passes[p].paint_dirty && #[trigger] leads_to(passes, p, q, n)
}

/// The passes with the dirty flag propagated along every dependency edge.
pub open spec fn dirty_closure(passes: Seq<CxPass>) -> Seq<CxPass> {
    Seq::new(
        passes.len(),
        |q: int| CxPass { paint_dirty: needs_repaint(passes, q), ..passes[q] },
    )
}

/// Whether the dirty flags are closed under dependency edges.
pub open spec fn dirty_closed(passes: Seq<CxPass>) -> bool {
    forall|p: int|
        0 <= p < passes.len() && (#[trigger] passes[p]).paint_dirty ==> match passes[p].dep_of {
            CxPassDepOf::Pass(d) => d < passes.len() ==> passes[d as int].paint_dirty,
            _ => true,
        }
}

/// The number of clean passes.
pub open spec fn clean_count(passes: Seq<CxPass>) -> nat
    decreases passes.len(),
{
    if passes.len() == 0 {
        0
    } else {
        clean_count(passes.drop_last()) + if passes.last().paint_dirty {
            0nat
        } else {
            1nat
        }
    }
}

proof fn lemma_leads_to_extend(passes: Seq<CxPass>, p: int, q: int, n: nat, d: int)
    requires
        leads_to(passes, p, q, n),
        dependency(passes, q) == Some(d),
    ensures
        leads_to(passes, p, d, n + 1),
    decreases n,
{
    if n == 0 {
        assert(leads_to(passes, d, d, 0));
    } else {
        let next = dependency(passes, p).unwrap();
        lemma_leads_to_extend(passes, next, q, (n - 1) as nat, d);
    }
}

proof fn lemma_mark_dirty_clean_count(passes: Seq<CxPass>, i: int)
    requires
        0 <= i < passes.len(),
        !passes[i].paint_dirty,
    ensures
        clean_count(passes.update(i, passes[i].dirtied())) + 1 == clean_count(passes),
    decreases passes.len(),
{
    let after = passes.update(i, passes[i].dirtied());
    if i == passes.len() - 1 {
        assert(after.drop_last() =~= passes.drop_last());
    } else {
        lemma_mark_dirty_clean_count(passes.drop_last(), i);
        assert(after.drop_last() =~= passes.drop_last().update(i, passes[i].dirtied()));
    }
}

/// Along dependency edges the pass graph is the same in `now` as in `before`,
/// and `now` is closed: then whatever a dirty pass of `now` leads to is dirty.
proof fn lemma_closed_reaches(before: Seq<CxPass>, now: Seq<CxPass>, p: int, q: int, n: nat)
    requires
        before.len() == now.len(),
        forall|k: int| 0 <= k < now.len() ==> (#[trigger] now[k]).dep_of == before[k].dep_of,
        dirty_closed(now),
        passes_linked(before),
        0 <= p < now.len(),
        now[p].paint_dirty,
        leads_to(before, p, q, n),
    ensures
        0 <= q < now.len(),
        now[q].paint_dirty,
    decreases n,
{
    if n > 0 {
        let d = dependency(before, p).unwrap();
        assert(now[p].dep_of == before[p].dep_of);
        assert(before[p].dep_of == CxPassDepOf::Pass(d as usize));
        lemma_closed_reaches(before, now, d, q, (n - 1) as nat);
    }
}

/// Marks dirty every pass that a dirty pass depends on, directly or through
/// other passes, by scanning until a scan changes nothing.
pub fn propagate_dirty(passes: &mut Vec<CxPass>)
    requires
        passes_linked(old(passes)@),
    ensures
        final(passes)@ == dirty_closure(old(passes)@),
{
    let ghost before = passes@;
    proof {
        assert forall|k: int| 0 <= k < before.len() && (#[trigger] before[k]).paint_dirty implies needs_repaint(
            before,
            k,
        ) by {
            assert(leads_to(before, k, k, 0));
        }
    }
    loop
        invariant_except_break
            passes.len() == before.len(),
            passes_linked(before),
            forall|k: int|
                0 <= k < passes.len() ==> (#[trigger] passes@[k]).dep_of == before[k].dep_of
                    && passes@[k].main_view_id == before[k].main_view_id,
            forall|k: int| 0 <= k < passes.len() && before[k].paint_dirty ==> (#[trigger] passes@[k]).paint_dirty,
            forall|k: int|
                0 <= k < passes.len() && (#[trigger] passes@[k]).paint_dirty ==> needs_repaint(before, k),
        ensures
            passes.len() == before.len(),
            passes_linked(before),
            forall|k: int|
                0 <= k < passes.len() ==> (#[trigger] passes@[k]).dep_of == before[k].dep_of
                    && passes@[k].main_view_id == before[k].main_view_id,
            forall|k: int| 0 <= k < passes.len() && before[k].paint_dirty ==> (#[trigger] passes@[k]).paint_dirty,
            forall|k: int|
                0 <= k < passes.len() && (#[trigger] passes@[k]).paint_dirty ==> needs_repaint(before, k),
            dirty_closed(passes@),
        decreases clean_count(passes@),
    {
        let mut altered = false;
        let ghost start = passes@;
        let mut pass_id: usize = 0;
        while pass_id < passes.len()
            invariant
                pass_id <= passes.len(),
                passes.len() == before.len(),
                passes_linked(before),
                forall|k: int|
                    0 <= k < passes.len() ==> (#[trigger] passes@[k]).dep_of == before[k].dep_of
                        && passes@[k].main_view_id == before[k].main_view_id,
                forall|k: int|
                    0 <= k < passes.len() && before[k].paint_dirty ==> (#[trigger] passes@[k]).paint_dirty,
                forall|k: int|
                    0 <= k < passes.len() && (#[trigger] passes@[k]).paint_dirty ==> needs_repaint(
                        before,
                        k,
                    ),
                !altered ==> passes@ == start,
                !altered ==> forall|k: int|
                    0 <= k < pass_id && (#[trigger] passes@[k]).paint_dirty ==> match passes@[k].dep_of {
                        CxPassDepOf::Pass(d) => d < passes.len() ==> passes@[d as int].paint_dirty,
                        _ => true,
                    },
                altered ==> clean_count(passes@) < clean_count(start),
            decreases passes.len() - pass_id,
        {
            let pass = passes[pass_id];
            if pass.paint_dirty {
                if let CxPassDepOf::Pass(other) = pass.dep_of {
                    assert(before[pass_id as int].dep_of == pass.dep_of);
                    let target = passes[other];
                    if !target.paint_dirty {
                        proof {
                            let (p0, n0) = choose|p: int, n: nat|
                                0 <= p < before.len() && before[p].paint_dirty && #[trigger] leads_to(
                                    before,
                                    p,
                                    pass_id as int,
                                    n,
                                );
                            lemma_leads_to_extend(before, p0, pass_id as int, n0, other as int);
                            assert(leads_to(before, p0, other as int, n0 + 1));
                            lemma_mark_dirty_clean_count(passes@, other as int);
                        }
                        passes.set(
                            other,
                            CxPass { paint_dirty: true, dep_of: target.dep_of, main_view_id: target.main_view_id },
                        );
                        altered = true;
                    }
                }
            }
            pass_id += 1;
        }
        if !altered {
            break ;
        }
    }
    proof {
        let closure = dirty_closure(before);
        assert forall|q: int| 0 <= q < passes.len() implies passes@[q] == closure[q] by {
            if needs_repaint(before, q) {
                let (p0, n0) = choose|p: int, n: nat|
                    0 <= p < before.len() && before[p].paint_dirty && #[trigger] leads_to(before, p, q, n);
                lemma_closed_reaches(before, passes@, p0, q, n0);
            }
        }
        assert(passes@ =~= closure);
    }
}

/// Propagation dirties every pass on the dependency path of a dirty pass,
/// up to the pass at which the path leaves the graph.
pub proof fn lemma_closure_dirties_path(passes: Seq<CxPass>, p: int, q: int, n: nat)
    requires
        passes_linked(passes),
        0 <= p < passes.len(),
        passes[p].paint_dirty,
        leads_to(passes, p, q, n),
    ensures
        0 <= q < passes.len(),
        dirty_closure(passes)[q].paint_dirty,
    decreases n,
{
    lemma_leads_to_stays_inside(passes, p, q, n);
}

proof fn lemma_leads_to_stays_inside(passes: Seq<CxPass>, p: int, q: int, n: nat)
    requires
        passes_linked(passes),
        0 <= p < passes.len(),
        leads_to(passes, p, q, n),
    ensures
        0 <= q < passes.len(),
    decreases n,
{
    if n > 0 {
        let d = dependency(passes, p).unwrap();
        assert(passes[p].dep_of == CxPassDepOf::Pass(d as usize));
        lemma_leads_to_stays_inside(passes, d, q, (n - 1) as nat);
    }
}

/// Propagation changes nothing but dirty flags, keeps every dirty pass
/// dirty, and leaves the flags closed under dependency edges.
pub proof fn lemma_closure_is_closed(passes: Seq<CxPass>)
    requires
        passes_linked(passes),
    ensures
        dirty_closure(passes).len() == passes.len(),
        forall|k: int|
            0 <= k < passes.len() ==> (#[trigger] dirty_closure(passes)[k]).dep_of == passes[k].dep_of
                && dirty_closure(passes)[k].main_view_id == passes[k].main_view_id,
        forall|k: int|
            0 <= k < passes.len() && passes[k].paint_dirty ==> (#[trigger] dirty_closure(
                passes,
            )[k]).paint_dirty,
        dirty_closed(dirty_closure(passes)),
{
    let closure = dirty_closure(passes);
    assert forall|k: int| 0 <= k < passes.len() && passes[k].paint_dirty implies (#[trigger] closure[k]).paint_dirty by {
        assert(leads_to(passes, k, k, 0));
    }
    assert forall|p: int| 0 <= p < closure.len() && (#[trigger] closure[p]).paint_dirty implies match closure[p].dep_of {
        CxPassDepOf::Pass(d) => d < closure.len() ==> closure[d as int].paint_dirty,
        _ => true,
    } by {
        if let CxPassDepOf::Pass(d) = closure[p].dep_of {
            let (p0, n0) = choose|p0: int, n0: nat|
                0 <= p0 < passes.len() && passes[p0].paint_dirty && #[trigger] leads_to(passes, p0, p, n0);
            lemma_leads_to_extend(passes, p0, p, n0, d as int);
            assert(leads_to(passes, p0, d as int, n0 + 1));
        }
    }
}

/// Flags that are closed already are left as they are.
pub proof fn lemma_closure_of_closed(passes: Seq<CxPass>)
    requires
        passes_linked(passes),
        dirty_closed(passes),
    ensures
        dirty_closure(passes) == passes,
{
    let closure = dirty_closure(passes);
    assert forall|q: int| 0 <= q < passes.len() implies closure[q] == passes[q] by {
        if needs_repaint(passes, q) {
            let (p0, n0) = choose|p0: int, n0: nat|
                0 <= p0 < passes.len() && passes[p0].paint_dirty && #[trigger] leads_to(passes, p0, q, n0);
            lemma_closed_reaches(passes, passes, p0, q, n0);
        } else {
            assert(leads_to(passes, q, q, 0));
        }
    }
    assert(closure =~= passes);
}

/// Whether every dependency edge ends at a pass that exists.
pub fn passes_are_linked(passes: &Vec<CxPass>) -> (r: bool)
    ensures
        r == passes_linked(passes@),
{
    let mut p: usize = 0;
    while p < passes.len()
        invariant
            p <= passes.len(),
            forall|k: int|
                0 <= k < p ==> match (#[trigger] passes@[k]).dep_of {
                    CxPassDepOf::Pass(d) => d < passes.len(),
                    _ => true,
                },
        decreases passes.len() - p,
    {
        if let CxPassDepOf::Pass(d) = passes[p].dep_of {
            if d >= passes.len() {
                assert(passes@[p as int].dep_of == CxPassDepOf::Pass(d));
                return false;
            }
        }
        p += 1;
    }
    true
}

/// Whether the dependency chain that starts at pass `pass_id` stays among
/// the passes that exist and ends: it leaves the graph before it has visited
/// more passes than there are.
pub fn chain_is_finite(passes: &Vec<CxPass>, pass_id: usize) -> (r: bool)
    ensures
        r == chain_ends(passes@, pass_id as int, passes@.len()),
{
    let mut walk = pass_id;
    let mut n: usize = passes.len();
    while n > 0
        invariant
            chain_ends(passes@, pass_id as int, passes@.len()) == chain_ends(
                passes@,
                walk as int,
                n as nat,
            ),
        decreases n,
    {
        if walk >= passes.len() {
            return false;
        }
        match passes[walk].dep_of {
            CxPassDepOf::Pass(d) => {
                walk = d;
                n -= 1;
            },
            _ => {
                return true;
            },
        }
    }
    false
}

/// Whether the dependency graph is a forest.
pub fn passes_are_acyclic(passes: &Vec<CxPass>) -> (r: bool)
    ensures
        r == passes_acyclic(passes@),
{
    let mut p: usize = 0;
    while p < passes.len()
        invariant
            p <= passes.len(),
            forall|k: int| 0 <= k < p ==> #[trigger] chain_ends(passes@, k, passes@.len()),
        decreases passes.len() - p,
    {
        if !chain_is_finite(passes, p) {
            return false;
        }
        p += 1;
    }
    true
}

/// In a forest every dependency edge ends at a pass that exists.
pub proof fn lemma_acyclic_is_linked(passes: Seq<CxPass>)
    requires
        passes_acyclic(passes),
    ensures
        passes_linked(passes),
{
    assert forall|p: int| 0 <= p < passes.len() implies match (#[trigger] passes[p]).dep_of {
        CxPassDepOf::Pass(d) => d < passes.len(),
        _ => true,
    } by {
        assert(chain_ends(passes, p, passes.len()));
        if let CxPassDepOf::Pass(d) = passes[p].dep_of {
            assert(chain_ends(passes, d as int, (passes.len() - 1) as nat));
        }
    }
}

} // verus!
