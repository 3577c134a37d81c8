//! Choice edges of an interactive-game graph, and the rule that a choice may
//! never let a video node reach itself again.

use vstd::prelude::*;

use crate::error::{unit_result, AppError, AppErrorView};
use crate::json::str_eq;

verus! {

/// A stored choice edge, as read from the game's edge table.
#[derive(Debug)]
pub struct GraphEdge {
    pub id: String,
    pub source_node_id: String,
    pub target_node_id: String,
}

/// The view of an optional borrowed text.
pub open spec fn opt_text(o: Option<&str>) -> Option<Seq<char>> {
    match o {
        Some(s) => Some(s@),
        None => None,
    }
}

/// An edge takes part in the check unless it is the edge being rewired.
pub open spec fn counts(edge: GraphEdge, ignored: Option<Seq<char>>) -> bool {
    ignored != Some(edge.id@)
}

/// `edge` is a counted edge from `from` to `to`.
pub open spec fn links(edge: GraphEdge, ignored: Option<Seq<char>>, from: Seq<char>, to: Seq<char>) -> bool {
    &&& counts(edge, ignored)
    &&& edge.source_node_id@ == from
    &&& edge.target_node_id@ == to
}

/// One step along a counted edge.
pub open spec fn edge_step(edges: Seq<GraphEdge>, ignored: Option<Seq<char>>) -> spec_fn(Seq<char>, Seq<char>) -> bool {
    |from: Seq<char>, to: Seq<char>|
        exists|i: int| 0 <= i < edges.len() && #[trigger] links(edges[i], ignored, from, to)
}

/// `step` extended by one more edge from `source` to `target`.
pub open spec fn with_edge(
    step: spec_fn(Seq<char>, Seq<char>) -> bool,
    source: Seq<char>,
    target: Seq<char>,
) -> spec_fn(Seq<char>, Seq<char>) -> bool {
    |from: Seq<char>, to: Seq<char>| step(from, to) || (from == source && to == target)
}

/// `to` is `from`, or follows it within `k` steps.
pub open spec fn reach_within(
    step: spec_fn(Seq<char>, Seq<char>) -> bool,
    from: Seq<char>,
    to: Seq<char>,
    k: nat,
) -> bool
    decreases k,
{
    from == to || (k > 0 && exists|mid: Seq<char>|
        #[trigger] step(mid, to) && reach_within(step, from, mid, (k - 1) as nat))
}

/// `to` follows `from` along some path of steps (a node reaches itself).
pub open spec fn reaches(step: spec_fn(Seq<char>, Seq<char>) -> bool, from: Seq<char>, to: Seq<char>) -> bool {
    exists|k: nat| #[trigger] reach_within(step, from, to, k)
}

/// No step can be followed back to where it started.
pub open spec fn acyclic(step: spec_fn(Seq<char>, Seq<char>) -> bool) -> bool {
    forall|a: Seq<char>, b: Seq<char>| #[trigger] step(a, b) ==> !reaches(step, b, a)
}

/// What the check answers for a new or rewired edge from `source` to `target`.
pub open spec fn edge_check(
    edges: Seq<GraphEdge>,
    ignored: Option<Seq<char>>,
    source: Seq<char>,
    target: Seq<char>,
) -> Result<(), AppErrorView> {
    if source == target {
        Err(AppErrorView::BadRequest("选项不能连接到自身节点"@))
    } else if reaches(edge_step(edges, ignored), target, source) {
        Err(AppErrorView::BadRequest("此连接会形成循环，互动游戏图谱必须保持有向无环图"@))
    } else {
        Ok(())
    }
}

pub proof fn lemma_reach_extend(
    step: spec_fn(Seq<char>, Seq<char>) -> bool,
    from: Seq<char>,
    mid: Seq<char>,
    to: Seq<char>,
)
    requires
        reaches(step, from, mid),
        step(mid, to),
    ensures
        reaches(step, from, to),
{
    let k = choose|k: nat| #[trigger] reach_within(step, from, mid, k);
    assert(reach_within(step, from, to, k + 1));
}

pub proof fn lemma_reach_within_trans(
    step: spec_fn(Seq<char>, Seq<char>) -> bool,
    a: Seq<char>,
    b: Seq<char>,
    c: Seq<char>,
    k1: nat,
    k2: nat,
)
    requires
        reach_within(step, a, b, k1),
        reach_within(step, b, c, k2),
    ensures
        reaches(step, a, c),
    decreases k2,
{
    if b == c {
        assert(reach_within(step, a, c, k1));
    } else {
        let mid = choose|mid: Seq<char>| #[trigger] step(mid, c) && reach_within(step, b, mid, (k2 - 1) as nat);
        lemma_reach_within_trans(step, a, b, mid, k1, (k2 - 1) as nat);
        lemma_reach_extend(step, a, mid, c);
    }
}

pub proof fn lemma_reach_trans(
    step: spec_fn(Seq<char>, Seq<char>) -> bool,
    a: Seq<char>,
    b: Seq<char>,
    c: Seq<char>,
)
    requires
        reaches(step, a, b),
        reaches(step, b, c),
    ensures
        reaches(step, a, c),
{
    let k1 = choose|k: nat| #[trigger] reach_within(step, a, b, k);
    let k2 = choose|k: nat| #[trigger] reach_within(step, b, c, k);
    lemma_reach_within_trans(step, a, b, c, k1, k2);
}

/// A set closed under `step` keeps everything reachable from its members.
pub proof fn lemma_closed_reach(
    step: spec_fn(Seq<char>, Seq<char>) -> bool,
    s: Set<Seq<char>>,
    from: Seq<char>,
    to: Seq<char>,
    k: nat,
)
    requires
        s.contains(from),
        forall|a: Seq<char>, b: Seq<char>| s.contains(a) && #[trigger] step(a, b) ==> s.contains(b),
        reach_within(step, from, to, k),
    ensures
        s.contains(to),
    decreases k,
{
    if from != to {
        let mid = choose|mid: Seq<char>| #[trigger] step(mid, to) && reach_within(step, from, mid, (k - 1) as nat);
        lemma_closed_reach(step, s, from, mid, (k - 1) as nat);
    }
}

/// A path that may use the extra edge either avoids it, or reaches its
/// source first and continues from its target.
pub proof fn lemma_split_path(
    step: spec_fn(Seq<char>, Seq<char>) -> bool,
    source: Seq<char>,
    target: Seq<char>,
    x: Seq<char>,
    y: Seq<char>,
    k: nat,
)
    requires
        reach_within(with_edge(step, source, target), x, y, k),
    ensures
        reaches(step, x, y) || (reaches(step, x, source) && reaches(with_edge(step, source, target), target, y)),
    decreases k,
{
    let bigger = with_edge(step, source, target);
    if x == y {
        assert(reach_within(step, x, y, 0));
    } else {
        let mid = choose|mid: Seq<char>| #[trigger] bigger(mid, y) && reach_within(bigger, x, mid, (k - 1) as nat);
        lemma_split_path(step, source, target, x, mid, (k - 1) as nat);
        if reaches(step, x, mid) {
            if step(mid, y) {
                lemma_reach_extend(step, x, mid, y);
            } else {
                assert(reach_within(bigger, target, target, 0));
            }
        } else {
            lemma_reach_extend(bigger, target, mid, y);
        }
    }
}

/// Adding a choice edge that the check accepts keeps an acyclic graph acyclic:
/// the counted edges plus the new edge still form a directed acyclic graph.
pub proof fn lemma_accepted_edge_keeps_graph_acyclic(
    edges: Seq<GraphEdge>,
    ignored: Option<Seq<char>>,
    source: Seq<char>,
    target: Seq<char>,
)
    requires
        acyclic(edge_step(edges, ignored)),
        edge_check(edges, ignored, source, target) is Ok,
    ensures
        acyclic(with_edge(edge_step(edges, ignored), source, target)),
{
    let step = edge_step(edges, ignored);
    let bigger = with_edge(step, source, target);
    assert forall|a: Seq<char>, b: Seq<char>| #[trigger] bigger(a, b) implies !reaches(bigger, b, a) by {
        if reaches(bigger, b, a) {
            let k = choose|k: nat| #[trigger] reach_within(bigger, b, a, k);
            lemma_split_path(step, source, target, b, a, k);
            if reaches(step, b, a) {
                if step(a, b) {
                    assert(!reaches(step, b, a));
                } else {
                    assert(reaches(step, target, source));
                }
            } else {
                let k2 = choose|k: nat| #[trigger] reach_within(bigger, target, a, k);
                lemma_split_path(step, source, target, target, a, k2);
                if reaches(step, target, a) {
                    if step(a, b) {
                        lemma_reach_extend(step, target, a, b);
                        lemma_reach_trans(step, target, b, source);
                    }
                }
                assert(reaches(step, target, source));
            }
        }
    }
}

/// Number of edges not yet followed.
pub open spec fn unused(flags: Seq<bool>) -> nat
    decreases flags.len(),
{
    if flags.len() == 0 {
        0
    } else {
        unused(flags.drop_last()) + if flags.last() {
            0nat
        } else {
            1nat
        }
    }
}

proof fn lemma_unused_mark(flags: Seq<bool>, i: int)
    requires
        0 <= i < flags.len(),
        !flags[i],
    ensures
        unused(flags.update(i, true)) + 1 == unused(flags),
    decreases flags.len(),
{
    let g = flags.update(i, true);
    if i == flags.len() - 1 {
        assert(g.drop_last() =~= flags.drop_last());
    } else {
        assert(g.drop_last() =~= flags.drop_last().update(i, true));
        lemma_unused_mark(flags.drop_last(), i);
    }
}

fn counts_edge(edge: &GraphEdge, ignored: Option<&str>) -> (r: bool)
    ensures
        r == counts(*edge, opt_text(ignored)),
{
    match ignored {
        Some(id) => !str_eq(edge.id.as_str(), id),
        None => true,
    }
}

/// Whether `goal` can be reached from `from` along the counted edges
/// (every node reaches itself). `ignored_edge_id` names an edge left out.
pub fn reaches_node(edges: &Vec<GraphEdge>, ignored_edge_id: Option<&str>, from: &str, goal: &str) -> (r: bool)
    ensures
        r == reaches(edge_step(edges@, opt_text(ignored_edge_id)), from@, goal@),
{
    let ghost ign = opt_text(ignored_edge_id);
    let ghost step = edge_step(edges@, ign);
    let n = edges.len();
    let mut used: Vec<bool> = Vec::new();
    let mut i: usize = 0;
    while i < n
        invariant
            i <= n,
            used.len() == i,
            forall|j: int| 0 <= j < i ==> !used@[j],
        decreases n - i,
    {
        used.push(false);
        i += 1;
    }
    let mut frontier: Vec<String> = Vec::new();
    frontier.push(from.to_owned());
    let ghost mut processed: Seq<Seq<char>> = Seq::empty();
    let ghost mut fv: Seq<Seq<char>> = seq![from@];
    proof {
        assert(reach_within(step, from@, from@, 0));
        assert(fv[0] == from@);
    }
    while frontier.len() > 0
        invariant
            n == edges.len(),
            used.len() == n,
            ign == opt_text(ignored_edge_id),
            step == edge_step(edges@, ign),
                        fv.len() == frontier.len(),
            forall|j: int| 0 <= j < frontier.len() ==> #[trigger] fv[j] == frontier@[j]@,
            forall|j: int| 0 <= j < fv.len() ==> reaches(step, from@, #[trigger] fv[j]),
            forall|j: int| 0 <= j < processed.len() ==> reaches(step, from@, #[trigger] processed[j]),
            !processed.contains(goal@),
            processed.contains(from@) || fv.contains(from@),
            forall|e: int| 0 <= e < n && #[trigger] used@[e] ==> processed.contains(edges@[e].target_node_id@) || fv.contains(edges@[e].target_node_id@),
            forall|e: int| 0 <= e < n && counts(edges@[e], ign) && processed.contains(#[trigger] edges@[e].source_node_id@) ==> used@[e],
        decreases unused(used@), frontier.len(),
    {
        let ghost before = used@;
        let ghost fv0 = fv;
        let node = frontier.pop().unwrap();
        proof {
            fv = fv.drop_last();
            assert(fv0.last() == node@);
            assert(reaches(step, from@, fv0[fv0.len() - 1]));
        }
        if str_eq(node.as_str(), goal) {
            return true;
        }
        let ghost base = frontier.len();
        let mut e: usize = 0;
        while e < n
            invariant
                n == edges.len(),
                used.len() == n,
                e <= n,
                ign == opt_text(ignored_edge_id),
                step == edge_step(edges@, ign),
                reaches(step, from@, node@),
                base <= frontier.len(),
                before.len() == n,
                fv0.len() == base + 1,
                fv.len() == frontier.len(),
                forall|j: int| 0 <= j < frontier.len() ==> #[trigger] fv[j] == frontier@[j]@,
                forall|j: int| 0 <= j < fv.len() ==> reaches(step, from@, #[trigger] fv[j]),
                forall|j: int| 0 <= j < fv0.len() - 1 ==> fv[j] == #[trigger] fv0[j],
                unused(used@) + (frontier.len() - base) == unused(before),
                forall|x: int| 0 <= x < n && before[x] ==> #[trigger] used@[x],
                forall|x: int| 0 <= x < n && #[trigger] used@[x] && !before[x] ==> fv.contains(edges@[x].target_node_id@),
                forall|x: int| 0 <= x < e && counts(edges@[x], ign) && #[trigger] edges@[x].source_node_id@ == node@ ==> used@[x],
            decreases n - e,
        {
            if !used[e] && counts_edge(&edges[e], ignored_edge_id) && str_eq(
                edges[e].source_node_id.as_str(),
                node.as_str(),
            ) {
                proof {
                    lemma_unused_mark(used@, e as int);
                    assert(links(edges@[e as int], ign, node@, edges@[e as int].target_node_id@));
                    lemma_reach_extend(step, from@, node@, edges@[e as int].target_node_id@);
                }
                used.set(e, true);
                frontier.push(edges[e].target_node_id.clone());
                proof {
                    let t = edges@[e as int].target_node_id@;
                    let fvp = fv;
                    fv = fv.push(t);
                    assert(fv[fv.len() - 1] == t);
                    assert forall|x: int| 0 <= x < n && #[trigger] used@[x] && !before[x] implies fv.contains(edges@[x].target_node_id@) by {
                        if x != e {
                            assert(fvp.contains(edges@[x].target_node_id@));
                            let w = choose|w: int| 0 <= w < fvp.len() && fvp[w] == edges@[x].target_node_id@;
                            assert(fv[w] == fvp[w]);
                        }
                    }
                }
            }
            e += 1;
        }
        proof {
            let old_processed = processed;
            processed = processed.push(node@);
            assert(processed.last() == node@);
            assert forall|x: int| 0 <= x < processed.len() implies reaches(step, from@, #[trigger] processed[x]) by {
                if x < old_processed.len() {
                    assert(processed[x] == old_processed[x]);
                }
            }
            assert forall|y: Seq<char>| old_processed.contains(y) implies processed.contains(y) by {
                let w = choose|w: int| 0 <= w < old_processed.len() && old_processed[w] == y;
                assert(processed[w] == y);
            }
            assert forall|y: Seq<char>| fv0.contains(y) implies processed.contains(y) || fv.contains(y) by {
                let w = choose|w: int| 0 <= w < fv0.len() && fv0[w] == y;
                if w == fv0.len() - 1 {
                    assert(processed[processed.len() - 1] == y);
                } else {
                    assert(fv[w] == y);
                }
            }
            assert(!processed.contains(goal@)) by {
                if processed.contains(goal@) {
                    let w = choose|w: int| 0 <= w < processed.len() && processed[w] == goal@;
                    if w < old_processed.len() {
                        assert(old_processed[w] == goal@);
                    }
                }
            }
            assert forall|x: int| 0 <= x < n && counts(edges@[x], ign) && processed.contains(#[trigger] edges@[x].source_node_id@) implies used@[x] by {
                let w = choose|w: int| 0 <= w < processed.len() && processed[w] == edges@[x].source_node_id@;
                if w < old_processed.len() {
                    assert(old_processed.contains(edges@[x].source_node_id@));
                    assert(before[x]);
                }
            }
            assert forall|x: int| 0 <= x < n && #[trigger] used@[x] implies processed.contains(edges@[x].target_node_id@) || fv.contains(edges@[x].target_node_id@) by {
                if before[x] {
                    assert(old_processed.contains(edges@[x].target_node_id@) || fv0.contains(edges@[x].target_node_id@));
                }
            }
        }
    }
    proof {
        let s = processed.to_set();
        assert forall|a: Seq<char>, b: Seq<char>| s.contains(a) && #[trigger] step(a, b) implies s.contains(b) by {
            let x = choose|x: int| 0 <= x < edges@.len() && #[trigger] links(edges@[x], ign, a, b);
            assert(processed.contains(edges@[x].source_node_id@));
            assert(used@[x]);
        }
        if reaches(step, from@, goal@) {
            let k = choose|k: nat| #[trigger] reach_within(step, from@, goal@, k);
            lemma_closed_reach(step, s, from@, goal@, k);
        }
    }
    false
}


/// Reject a new or rewired choice edge from `source_node_id` to
/// `target_node_id` when it would join a node to itself or let the target
/// reach the source again. `ignored_edge_id` names the edge being rewired.
pub fn ensure_acyclic_edge(
    edges: &Vec<GraphEdge>,
    ignored_edge_id: Option<&str>,
    source_node_id: &str,
    target_node_id: &str,
) -> (r: Result<(), AppError>)
    ensures
        unit_result(r) == edge_check(edges@, opt_text(ignored_edge_id), source_node_id@, target_node_id@),
{
    if str_eq(source_node_id, target_node_id) {
        return Err(AppError::bad_request("选项不能连接到自身节点"));
    }
    if reaches_node(edges, ignored_edge_id, target_node_id, source_node_id) {
        return Err(AppError::bad_request("此连接会形成循环，互动游戏图谱必须保持有向无环图"));
    }
    Ok(())
}

} // verus!
