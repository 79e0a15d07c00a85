use vstd::prelude::*;

use crate::zero::Zero;
use crate::hashing::{
    index_clear, index_contents, index_get, index_insert, index_new, set_clear, set_contains,
    set_contents, set_insert, set_new, Vertex,
};
use fxhash::{FxHashMap, FxHashSet};

verus! {

/// One node of the search tree, stored in the arena.
#[derive(Clone, Copy)]
pub(crate) struct Node {
    pub(crate) vertex: Vertex,
    pub(crate) distance: u64,
    pub(crate) steps: usize,
    pub(crate) parent: Option<usize>,
}

/// The scratch state of a search, kept between searches so that its storage is reused.
pub struct SearchContext {
    node_storage: Vec<Node>,
    open_set: Vec<(usize, u64)>,
    open_set_index: FxHashMap<Vertex, usize>,
    closed_set: FxHashSet<Vertex>,
    neighbours: Vec<(Vertex, u64)>,
    expansions: Ghost<nat>,
}

impl SearchContext {
    /// Holds no state of any search.
    pub closed spec fn is_cleared(&self) -> bool {
        &&& self.node_storage@.len() == 0
        &&& self.open_set@.len() == 0
        &&& index_contents(self.open_set_index).dom().is_empty()
        &&& set_contents(self.closed_set).is_empty()
        &&& self.neighbours@.len() == 0
        &&& self.expansions@ == 0
    }

    /// The number of vertices that the last search expanded.
    pub closed spec fn expansions(&self) -> nat {
        self.expansions@
    }

    /// Forgets every state of the previous search, keeping the storage.
    pub fn clear(&mut self)
        ensures
            final(self).is_cleared(),
    {
        self.open_set.clear();
        set_clear(&mut self.closed_set);
        index_clear(&mut self.open_set_index);
        self.node_storage.clear();
        self.neighbours.clear();
        self.expansions = Ghost(0);
    }
}

impl Default for SearchContext {
    fn default() -> (r: SearchContext)
        ensures
            r.is_cleared(),
    {
        SearchContext {
            node_storage: Vec::new(),
            open_set: Vec::new(),
            open_set_index: index_new(),
            closed_set: set_new(),
            neighbours: Vec::new(),
            expansions: Ghost(0),
        }
    }
}


/// `b` is among the neighbours that `g` reports for `a`.
pub open spec fn is_edge<G: GraphSearch>(g: &G, a: Vertex, b: Vertex) -> bool {
    exists|i: int| 0 <= i < g.spec_neighbours(a).len() && (#[trigger] g.spec_neighbours(a)[i]).0 == b
}

/// Each vertex of `p` is followed by one of its reported neighbours.
pub open spec fn is_walk<G: GraphSearch>(g: &G, p: Seq<Vertex>) -> bool {
    forall|i: int| 0 <= i < p.len() - 1 ==> #[trigger] is_edge(g, p[i], p[i + 1])
}

/// Some walk of `g` leads from `start` to `goal`.
pub open spec fn reaches<G: GraphSearch>(g: &G, start: Vertex, goal: Vertex) -> bool {
    exists|p: Seq<Vertex>|
        p.len() > 0 && p[0] == start && p.last() == goal && #[trigger] is_walk(g, p)
}

/// A walk that starts at `start` shows that its last vertex can be reached from `start`:
/// so a vertex that cannot be reached never ends such a walk.
pub proof fn lemma_walk_reaches<G: GraphSearch>(g: &G, start: Vertex, p: Seq<Vertex>)
    requires
        p.len() > 0,
        p[0] == start,
        is_walk(g, p),
    ensures
        reaches(g, start, p.last()),
{
}

/// `s` read from its last element to its first.
pub(crate) open spec fn reversed(s: Seq<Vertex>) -> Seq<Vertex> {
    Seq::new(s.len(), |i: int| s[s.len() - 1 - i])
}

/// Node `i` hangs correctly in the search tree rooted at `start`.
pub(crate) open spec fn node_ok<G: GraphSearch>(g: &G, nodes: Seq<Node>, i: int, start: Vertex) -> bool {
    match nodes[i].parent {
        None => nodes[i].vertex == start && nodes[i].steps == 0,
        Some(p) => {
            &&& 0 <= p < nodes.len()
            &&& nodes[p as int].steps + 1 == nodes[i].steps
            &&& is_edge(g, nodes[p as int].vertex, nodes[i].vertex)
        },
    }
}

/// The arena is a search tree rooted at `start`, with the root in slot zero.
pub(crate) open spec fn arena_wf<G: GraphSearch>(g: &G, nodes: Seq<Node>, start: Vertex) -> bool {
    &&& nodes.len() > 0
    &&& nodes[0].parent is None
    &&& nodes[0].vertex == start
    &&& forall|i: int| 0 <= i < nodes.len() ==> #[trigger] node_ok(g, nodes, i, start)
}

/// The vertices from the root down to node `k`, following parent links at most `fuel` times.
pub(crate) open spec fn chain(nodes: Seq<Node>, k: int, fuel: nat) -> Seq<Vertex>
    decreases fuel,
{
    if fuel > 0 && nodes[k].parent is Some {
        chain(nodes, nodes[k].parent->0 as int, (fuel - 1) as nat).push(nodes[k].vertex)
    } else {
        seq![nodes[k].vertex]
    }
}

/// In a well-formed arena the chain of every node is a walk from the root to that node.
pub(crate) proof fn lemma_chain_walk<G: GraphSearch>(g: &G, nodes: Seq<Node>, start: Vertex, k: int)
    requires
        arena_wf(g, nodes, start),
        0 <= k < nodes.len(),
    ensures
        chain(nodes, k, nodes[k].steps as nat).len() == nodes[k].steps + 1,
        chain(nodes, k, nodes[k].steps as nat)[0] == start,
        chain(nodes, k, nodes[k].steps as nat).last() == nodes[k].vertex,
        is_walk(g, chain(nodes, k, nodes[k].steps as nat)),
    decreases nodes[k].steps,
{
    assert(node_ok(g, nodes, k, start));
    let c = chain(nodes, k, nodes[k].steps as nat);
    match nodes[k].parent {
        None => {
            assert(c =~= seq![start]);
        },
        Some(p) => {
            let p = p as int;
            lemma_chain_walk(g, nodes, start, p);
            let cp = chain(nodes, p, nodes[p].steps as nat);
            assert(c =~= cp.push(nodes[k].vertex));
            assert forall|i: int| 0 <= i < c.len() - 1 implies #[trigger] is_edge(g, c[i], c[i + 1]) by {
                if i < cp.len() - 1 {
                    assert(is_edge(g, cp[i], cp[i + 1]));
                } else {
                    assert(c[i] == nodes[p].vertex);
                }
            }
        },
    }
}

/// The position of the first token of least priority among the first `n` tokens.
pub(crate) open spec fn first_min(open: Seq<(usize, u64)>, n: int) -> int
    decreases n,
{
    if n <= 1 {
        0
    } else {
        let b = first_min(open, n - 1);
        if open[n - 1].1 < open[b].1 {
            n - 1
        } else {
            b
        }
    }
}

/// What a search holds between two steps: the arena, the frontier, the index of known
/// vertices and the expanded vertices.
pub(crate) struct Snapshot {
    pub(crate) nodes: Seq<Node>,
    pub(crate) open: Seq<(usize, u64)>,
    pub(crate) index: Map<Vertex, usize>,
    pub(crate) closed: Set<Vertex>,
}

/// A sum of costs, held at the largest cost.
pub open spec fn cost_sum(a: u64, b: u64) -> u64 {
    if a + b > u64::MAX {
        u64::MAX
    } else {
        (a + b) as u64
    }
}

/// Adds two costs, holding the sum at the largest cost.
fn add_cost(a: u64, b: u64) -> (r: u64)
    ensures
        r == cost_sum(a, b),
{
    if a > u64::MAX - b {
        u64::MAX
    } else {
        a + b
    }
}

/// The effect of one reported neighbour `nb` of node `id` (whose contents are `cur`).
pub(crate) open spec fn relax<G: GraphSearch>(
    g: &G,
    s: Snapshot,
    goal: Vertex,
    id: usize,
    cur: Node,
    nb: (Vertex, u64),
) -> Snapshot {
    let v = nb.0;
    if s.closed.contains(v) {
        s
    } else {
        let d = cost_sum(cur.distance, nb.1);
        let cost = cost_sum(d, g.spec_heuristic(v, goal));
        let node = Node { vertex: v, distance: d, steps: (cur.steps + 1) as usize, parent: Some(id) };
        if s.index.contains_key(v) {
            let n = s.index[v];
            if d < s.nodes[n as int].distance {
                Snapshot { nodes: s.nodes.update(n as int, node), open: s.open.push((n, cost)), ..s }
            } else {
                s
            }
        } else {
            let n = s.nodes.len() as usize;
            Snapshot {
                nodes: s.nodes.push(node),
                open: s.open.push((n, cost)),
                index: s.index.insert(v, n),
                ..s
            }
        }
    }
}

/// The effect of the first `j` reported neighbours.
pub(crate) open spec fn relax_upto<G: GraphSearch>(
    g: &G,
    s: Snapshot,
    goal: Vertex,
    id: usize,
    cur: Node,
    nbs: Seq<(Vertex, u64)>,
    j: int,
) -> Snapshot
    decreases j,
{
    if j <= 0 {
        s
    } else {
        relax(g, relax_upto(g, s, goal, id, cur, nbs, j - 1), goal, id, cur, nbs[j - 1])
    }
}

/// The path that a search ends with from state `s`, after `iter` expansions.
pub(crate) open spec fn run<G: GraphSearch>(g: &G, s: Snapshot, iter: nat, goal: Vertex, max: usize) -> Seq<Vertex>
    decreases max - iter,
{
    if s.open.len() == 0 {
        Seq::empty()
    } else {
        let b = first_min(s.open, s.open.len() as int);
        let id = s.open[b].0;
        let cur = s.nodes[id as int];
        if cur.vertex == goal || iter >= max {
            chain(s.nodes, id as int, cur.steps as nat)
        } else {
            let popped = Snapshot {
                open: s.open.remove(b),
                closed: s.closed.insert(cur.vertex),
                ..s
            };
            let nbs = g.spec_neighbours(cur.vertex);
            run(
                g,
                relax_upto(g, popped, goal, id, cur, nbs, nbs.len() as int),
                iter + 1,
                goal,
                max,
            )
        }
    }
}

/// The path that a search from `start` to `goal` in `g` returns. It depends on these
/// three alone: on no scratch state and on no earlier search.
pub closed spec fn search_result<G: GraphSearch>(g: &G, start: Vertex, goal: Vertex) -> Seq<Vertex> {
    let s = Snapshot {
        nodes: seq![Node { vertex: start, distance: 0, steps: 0, parent: None }],
        open: seq![(0usize, 0u64)],
        index: Map::empty(),
        closed: Set::empty(),
    };
    run(g, s, 0, goal, g.spec_max_iterations())
}

impl SearchContext {
    pub(crate) closed spec fn snapshot(&self) -> Snapshot {
        Snapshot {
            nodes: self.node_storage@,
            open: self.open_set@,
            index: index_contents(self.open_set_index),
            closed: set_contents(self.closed_set),
        }
    }
}

/// Removes and returns the first frontier token of least priority.
fn pop_min(open: &mut Vec<(usize, u64)>) -> (r: Option<(usize, u64)>)
    ensures
        r is None <==> old(open)@.len() == 0,
        r is None ==> final(open)@ == old(open)@,
        r matches Some(t) ==> {
            &&& t == old(open)@[first_min(old(open)@, old(open)@.len() as int)]
            &&& final(open)@ == old(open)@.remove(first_min(old(open)@, old(open)@.len() as int))
            &&& old(open)@.contains(t)
            &&& forall|j: int| 0 <= j < old(open)@.len() ==> t.1 <= #[trigger] old(open)@[j].1
            &&& final(open)@.len() + 1 == old(open)@.len()
            &&& forall|j: int| 0 <= j < final(open)@.len() ==> old(open)@.contains(#[trigger] final(open)@[j])
        },
{
    if open.len() == 0 {
        return None;
    }
    let mut best: usize = 0;
    let mut i: usize = 1;
    while i < open.len()
        invariant
            best < i <= open@.len(),
            best == first_min(open@, i as int),
            open@ == old(open)@,
            forall|j: int| 0 <= j < i ==> open@[best as int].1 <= #[trigger] open@[j].1,
        decreases open@.len() - i,
    {
        if open[i].1 < open[best].1 {
            best = i;
        }
        i += 1;
    }
    assert(best == first_min(old(open)@, old(open)@.len() as int));
    let t = open.remove(best);
    assert(old(open)@[best as int] == t);
    assert forall|j: int| 0 <= j < open@.len() implies old(open)@.contains(#[trigger] open@[j]) by {
        if j < best {
            assert(open@[j] == old(open)@[j]);
        } else {
            assert(open@[j] == old(open)@[j + 1]);
        }
    }
    Some(t)
}

/// Writes into `path` the vertices from the root of the arena down to node `t`.
fn fill_path<G: GraphSearch>(g: &G, nodes: &Vec<Node>, start: Vertex, t: usize, path: &mut Vec<Vertex>)
    requires
        arena_wf(g, nodes@, start),
        t < nodes@.len(),
        old(path)@.len() == 0,
    ensures
        final(path)@ == chain(nodes@, t as int, nodes@[t as int].steps as nat),
{
    let ghost full = chain(nodes@, t as int, nodes@[t as int].steps as nat);
    let mut rev: Vec<Vertex> = Vec::new();
    let mut cur: usize = t;
    loop
        invariant_except_break
            cur < nodes@.len(),
            full == chain(nodes@, cur as int, nodes@[cur as int].steps as nat) + reversed(rev@),
        invariant
            arena_wf(g, nodes@, start),
            path@.len() == 0,
        ensures
            full == reversed(rev@),
        decreases nodes@[cur as int].steps,
    {
        let nd = nodes[cur];
        assert(node_ok(g, nodes@, cur as int, start));
        let ghost before = rev@;
        rev.push(nd.vertex);
        assert(reversed(rev@) =~= seq![nd.vertex] + reversed(before));
        match nd.parent {
            None => {
                assert(chain(nodes@, cur as int, nd.steps as nat) =~= seq![nd.vertex]);
                assert(full =~= reversed(rev@));
                break;
            },
            Some(p) => {
                let ghost cp = chain(nodes@, p as int, nodes@[p as int].steps as nat);
                assert(chain(nodes@, cur as int, nd.steps as nat) == cp.push(nd.vertex));
                assert(full =~= cp + reversed(rev@));
                cur = p;
            },
        }
    }
    let mut i: usize = rev.len();
    while i > 0
        invariant
            i <= rev@.len(),
            path@ =~= reversed(rev@).subrange(0, rev@.len() - i),
        decreases i,
    {
        i -= 1;
        path.push(rev[i]);
        assert(path@ =~= reversed(rev@).subrange(0, rev@.len() - i));
    }
}

/// A graph to search: how far a vertex seems from another, and which vertices it leads to.
pub trait GraphSearch: Sized {
    /// The neighbours, with the cost of the edge to each, that `neighbours` reports.
    spec fn spec_neighbours(&self, v: Vertex) -> Seq<(Vertex, u64)>;

    /// The estimate that `heuristic` returns.
    spec fn spec_heuristic(&self, from: Vertex, to: Vertex) -> u64;

    /// The number of expansions after which a search stops.
    spec fn spec_max_iterations(&self) -> usize;

    /// An estimate of the cost from `start` to `goal`.
    fn heuristic(&self, start: Vertex, goal: Vertex) -> (r: u64)
        ensures
            r == self.spec_heuristic(start, goal),
    ;

    /// Appends the neighbours of `origin`, with the cost of the edge to each.
    fn neighbours(&self, origin: Vertex, neighbours: &mut Vec<(Vertex, u64)>)
        ensures
            final(neighbours)@ == old(neighbours)@ + self.spec_neighbours(origin),
    ;

    /// The number of expansions after which a search stops at the node it popped last.
    fn max_iterations(&self) -> (r: usize)
        ensures
            r == self.spec_max_iterations(),
    ;
}

/// Finds a path from `start` to `goal` with fresh scratch state.
pub fn find_path<G: GraphSearch>(graph: &G, start: Vertex, goal: Vertex) -> (r: Vec<Vertex>)
    ensures
        r@ == search_result(graph, start, goal),
        start == goal ==> r@ == seq![start],
        r@.len() > 0 ==> r@[0] == start && is_walk(graph, r@),
        !reaches(graph, start, goal) ==> r@.len() == 0 || r@.last() != goal,
{
    let mut context = SearchContext::default();
    let mut path: Vec<Vertex> = Vec::new();
    find_path_with_context(graph, &mut context, start, goal, &mut path);
    path
}

/// Finds a path from `start` to `goal` by A* search, reusing the storage of `context`
/// and `path`.
///
/// The frontier token of least estimated total cost is expanded first; among tokens of
/// equal cost, the one queued first. The path is left empty when the frontier runs out
/// before the goal is popped. When the expansion cap is reached first, the path leads
/// to the vertex popped last. When a cheaper route is found to a vertex that waits in
/// the frontier, its node takes the new distance, parent and step count, and a token
/// for that node is queued again. Costs that would overflow are held at `u64::MAX`.
///
/// The result depends on the graph, `start` and `goal` alone: neither on what `context`
/// held before the call nor on earlier searches.
pub fn find_path_with_context<G: GraphSearch>(
    graph: &G,
    context: &mut SearchContext,
    start: Vertex,
    goal: Vertex,
    path: &mut Vec<Vertex>,
)
    ensures
        final(path)@ == search_result(graph, start, goal),
        start == goal ==> final(path)@ == seq![start],
        final(path)@.len() > 0 ==> final(path)@[0] == start && is_walk(graph, final(path)@),
        !reaches(graph, start, goal) ==> final(path)@.len() == 0 || final(path)@.last() != goal,
        final(path)@.len() > 0 && final(path)@.last() != goal ==> final(context).expansions()
            == graph.spec_max_iterations(),
        final(context).expansions() <= graph.spec_max_iterations(),
{
    context.clear();
    path.clear();
    let max_iter = graph.max_iterations();
    let zero = <u64 as Zero>::zero();
    context.node_storage.push(Node { vertex: start, distance: zero, steps: 0, parent: None });
    context.open_set.push((0, zero));
    let mut iter: usize = 0;
    proof {
        assert(node_ok(graph, context.node_storage@, 0, start));
        assert(index_contents(context.open_set_index) =~= Map::empty());
        assert(set_contents(context.closed_set) =~= Set::empty());
        assert(context.node_storage@ =~= seq![Node { vertex: start, distance: 0, steps: 0, parent: None }]);
        assert(context.open_set@ =~= seq![(0usize, 0u64)]);
    }
    loop
        invariant
            max_iter == graph.spec_max_iterations(),
            iter <= max_iter,
            context.expansions@ == iter,
            arena_wf(graph, context.node_storage@, start),
            forall|i: int| 0 <= i < context.node_storage@.len() ==>
                (#[trigger] context.node_storage@[i]).steps <= iter,
            forall|j: int| 0 <= j < context.open_set@.len() ==>
                (#[trigger] context.open_set@[j]).0 < context.node_storage@.len(),
            forall|v: Vertex| #[trigger] index_contents(context.open_set_index).contains_key(v) ==> {
                &&& 1 <= index_contents(context.open_set_index)[v] < context.node_storage@.len()
                &&& context.node_storage@[index_contents(context.open_set_index)[v] as int].vertex == v
            },
            forall|i: int| 0 <= i < context.node_storage@.len() && (#[trigger] context.node_storage@[i]).parent is Some
                ==> set_contents(context.closed_set).contains(
                    context.node_storage@[context.node_storage@[i].parent->0 as int].vertex,
                ),
            context.neighbours@.len() == 0,
            path@.len() == 0,
            start == goal ==> iter == 0 && context.open_set@ == seq![(0usize, 0u64)],
            run(graph, context.snapshot(), iter as nat, goal, max_iter) == search_result(graph, start, goal),
        ensures
            path@ == search_result(graph, start, goal),
            start != goal,
            path@.len() == 0,
            context.expansions@ <= max_iter,
        decreases max_iter - iter,
    {
        let ghost s0 = context.snapshot();
        let ghost it0 = iter as nat;
        let id = match pop_min(&mut context.open_set) {
            None => break,
            Some(t) => t.0,
        };
        let current = context.node_storage[id];
        if (current.vertex.0 == goal.0 && current.vertex.1 == goal.1) || iter >= max_iter {
            fill_path(graph, &context.node_storage, start, id, path);
            proof {
                lemma_chain_walk(graph, context.node_storage@, start, id as int);
                lemma_walk_reaches(graph, start, path@);
                if start == goal {
                    assert(id == 0);
                    assert(node_ok(graph, context.node_storage@, 0, start));
                    assert(chain(context.node_storage@, 0, 0) =~= seq![start]);
                }
            }
            return;
        }
        let ghost popped = Snapshot {
            open: context.open_set@,
            closed: set_contents(context.closed_set).insert(current.vertex),
            ..s0
        };
        iter += 1;
        context.expansions = Ghost(iter as nat);
        set_insert(&mut context.closed_set, current.vertex);
        let next_steps = current.steps + 1;
        let current_distance = current.distance;
        graph.neighbours(current.vertex, &mut context.neighbours);
        let mut j: usize = 0;
        assert(context.snapshot() == relax_upto(graph, popped, goal, id, current, graph.spec_neighbours(current.vertex), 0));
        while j < context.neighbours.len()
            invariant
                max_iter == graph.spec_max_iterations(),
                iter <= max_iter,
                context.expansions@ == iter,
                arena_wf(graph, context.node_storage@, start),
                id < context.node_storage@.len(),
                context.node_storage@[id as int] == current,
                next_steps == current.steps + 1,
                current_distance == current.distance,
                j <= context.neighbours@.len(),
                current.steps < iter,
                set_contents(context.closed_set).contains(current.vertex),
                context.neighbours@ == graph.spec_neighbours(current.vertex),
                forall|i: int| 0 <= i < context.node_storage@.len() ==>
                    (#[trigger] context.node_storage@[i]).steps <= iter,
                forall|j: int| 0 <= j < context.open_set@.len() ==>
                    (#[trigger] context.open_set@[j]).0 < context.node_storage@.len(),
                forall|v: Vertex| #[trigger] index_contents(context.open_set_index).contains_key(v) ==> {
                    &&& 1 <= index_contents(context.open_set_index)[v] < context.node_storage@.len()
                    &&& context.node_storage@[index_contents(context.open_set_index)[v] as int].vertex == v
                },
                forall|i: int| 0 <= i < context.node_storage@.len() && (#[trigger] context.node_storage@[i]).parent is Some
                    ==> set_contents(context.closed_set).contains(
                        context.node_storage@[context.node_storage@[i].parent->0 as int].vertex,
                    ),
                path@.len() == 0,
                start != goal,
                context.snapshot() == relax_upto(graph, popped, goal, id, current, graph.spec_neighbours(current.vertex), j as int),
                run(graph, s0, it0, goal, max_iter) == search_result(graph, start, goal),
                it0 + 1 == iter,
                s0.open.len() > 0,
                s0.open[first_min(s0.open, s0.open.len() as int)].0 == id,
                s0.nodes[id as int] == current,
                popped == (Snapshot {
                    open: s0.open.remove(first_min(s0.open, s0.open.len() as int)),
                    closed: s0.closed.insert(current.vertex),
                    ..s0
                }),
                current.vertex != goal,
                it0 < max_iter,
            decreases context.neighbours@.len() - j,
        {
            let (vertex, distance) = context.neighbours[j];
            let ghost sj = context.snapshot();
            assert(is_edge(graph, current.vertex, vertex)) by {
                assert(graph.spec_neighbours(current.vertex)[j as int].0 == vertex);
            }
            if !set_contains(&context.closed_set, vertex) {
                let g = add_cost(current_distance, distance);
                let cost = add_cost(g, graph.heuristic(vertex, goal));
                match index_get(&context.open_set_index, vertex) {
                    Some(n) => {
                        if g < context.node_storage[n].distance {
                            let ghost before = context.node_storage@;
                            context.node_storage.set(
                                n,
                                Node { vertex, distance: g, steps: next_steps, parent: Some(id) },
                            );
                            proof {
                                assert(before[id as int].vertex == current.vertex);
                                assert(before[n as int].vertex == vertex);
                                assert(id != n);
                                assert forall|i: int| 0 <= i < context.node_storage@.len() implies
                                    #[trigger] node_ok(graph, context.node_storage@, i, start) by {
                                    assert(node_ok(graph, before, i, start));
                                    if i != n {
                                        if let Some(p) = before[i].parent {
                                            assert(before[i].parent is Some);
                                            if p == n {
                                                assert(set_contents(context.closed_set).contains(before[n as int].vertex));
                                            }
                                        }
                                    }
                                }
                                assert forall|i: int| 0 <= i < context.node_storage@.len()
                                    && (#[trigger] context.node_storage@[i]).parent is Some implies
                                    set_contents(context.closed_set).contains(
                                        context.node_storage@[context.node_storage@[i].parent->0 as int].vertex,
                                    ) by {
                                    if i == n {
                                        assert(context.node_storage@[id as int] == before[id as int]);
                                    } else {
                                        assert(before[i] == context.node_storage@[i]);
                                        assert(before[i].parent is Some);
                                        let p = before[i].parent->0 as int;
                                        assert(set_contents(context.closed_set).contains(before[p].vertex));
                                        assert(node_ok(graph, before, i, start));
                                        if p != n {
                                            assert(context.node_storage@[p] == before[p]);
                                        }
                                    }
                                }
                            }
                            context.open_set.push((n, cost));
                            assert(context.snapshot() == relax(graph, sj, goal, id, current, (vertex, distance)));
                        }
                    },
                    None => {
                        let n = context.node_storage.len();
                        let ghost before = context.node_storage@;
                        context.node_storage.push(
                            Node { vertex, distance: g, steps: next_steps, parent: Some(id) },
                        );
                        proof {
                            assert forall|i: int| 0 <= i < context.node_storage@.len() implies
                                #[trigger] node_ok(graph, context.node_storage@, i, start) by {
                                if i < n {
                                    assert(node_ok(graph, before, i, start));
                                }
                            }
                            assert forall|i: int| 0 <= i < context.node_storage@.len()
                                && (#[trigger] context.node_storage@[i]).parent is Some implies
                                set_contents(context.closed_set).contains(
                                    context.node_storage@[context.node_storage@[i].parent->0 as int].vertex,
                                ) by {
                                if i < n {
                                    assert(before[i] == context.node_storage@[i]);
                                    assert(before[i].parent is Some);
                                    assert(node_ok(graph, before, i, start));
                                } else {
                                    assert(context.node_storage@[id as int] == before[id as int]);
                                }
                            }
                        }
                        index_insert(&mut context.open_set_index, vertex, n);
                        context.open_set.push((n, cost));
                        assert(context.snapshot() == relax(graph, sj, goal, id, current, (vertex, distance)));
                    },
                }
            }
            assert(context.neighbours@[j as int] == (vertex, distance));
            assert(context.snapshot() == relax(graph, sj, goal, id, current, context.neighbours@[j as int]));
            j += 1;
        }
        context.neighbours.clear();
        proof {
            let b = first_min(s0.open, s0.open.len() as int);
            let nbs = graph.spec_neighbours(current.vertex);
            assert(s0.nodes[s0.open[b].0 as int] == current);
            assert(context.snapshot() == relax_upto(graph, popped, goal, id, current, nbs, nbs.len() as int));
            assert(run(graph, s0, it0, goal, max_iter) == run(
                graph,
                relax_upto(graph, popped, goal, id, current, nbs, nbs.len() as int),
                it0 + 1,
                goal,
                max_iter,
            ));
        }
    }
}

} // verus!
