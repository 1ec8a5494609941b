//! Directed graphs of a schedule: paths, reachability and edges that keep a
//! graph free of cycles.

use std::collections::HashSet;

use bevy_ecs::schedule::graph::Dag;
use bevy_ecs::schedule::graph::DiGraph;
use bevy_ecs::schedule::NodeId;
use bevy_ecs::schedule::SystemKey;
use slotmap::Key;
use slotmap::KeyData;
use vstd::prelude::*;

verus! {

broadcast use vstd::std_specs::hash::group_hash_axioms;

// ---------------------------------------------------------------------------
// Paths
// ---------------------------------------------------------------------------

/// `p` is a walk along the edges, of at least one node.
pub open spec fn is_path<T>(edges: Set<(T, T)>, p: Seq<T>) -> bool {
    &&& p.len() >= 1
    &&& forall|i: int, j: int|
        #![trigger p[i], p[j]]
        0 <= i && j == i + 1 && j < p.len() ==> edges.contains((p[i], p[j]))
}

/// A walk leads from `a` to `b`; from every node one leads to itself.
pub open spec fn reaches<T>(edges: Set<(T, T)>, a: T, b: T) -> bool {
    exists|p: Seq<T>| #[trigger] is_path(edges, p) && p.first() == a && p.last() == b
}

/// A walk of at least one edge leads from `a` to `b`.
pub open spec fn leads<T>(edges: Set<(T, T)>, a: T, b: T) -> bool {
    exists|p: Seq<T>|
        #[trigger] is_path(edges, p) && p.len() >= 2 && p.first() == a && p.last() == b
}

/// No walk of at least one edge ends where it starts.
pub open spec fn is_acyclic<T>(edges: Set<(T, T)>) -> bool {
    forall|p: Seq<T>| #[trigger] is_path(edges, p) && p.len() >= 2 ==> p.first() != p.last()
}

/// What can be reached from `a` by at least one edge.
pub open spec fn below<T>(edges: Set<(T, T)>, a: T) -> Set<T> {
    Set::new(|b: T| leads(edges, a, b))
}

/// Two walks make one where the first ends at the start of the second.
pub proof fn lemma_join<T>(edges: Set<(T, T)>, p: Seq<T>, q: Seq<T>)
    requires
        is_path(edges, p),
        is_path(edges, q),
        p.last() == q.first(),
    ensures
        is_path(edges, p + q.skip(1)),
        (p + q.skip(1)).first() == p.first(),
        (p + q.skip(1)).last() == q.last(),
{
    let r = p + q.skip(1);
    assert forall|i: int, j: int|
        #![trigger r[i], r[j]]
        0 <= i && j == i + 1 && j < r.len() implies edges.contains((r[i], r[j])) by {
        if j < p.len() {
            assert(r[i] == p[i] && r[j] == p[j]);
        } else if i < p.len() {
            assert(r[i] == p.last() && p.last() == q[0]);
            assert(r[j] == q[1]);
        } else {
            assert(r[i] == q[i - p.len() + 1]);
            assert(r[j] == q[j - p.len() + 1]);
        }
    }
    if q.len() == 1 {
        assert(r =~= p);
    }
}

/// A part of a walk is a walk.
pub proof fn lemma_part<T>(edges: Set<(T, T)>, p: Seq<T>, from: int, to: int)
    requires
        is_path(edges, p),
        0 <= from < to <= p.len(),
    ensures
        is_path(edges, p.subrange(from, to)),
{
    let r = p.subrange(from, to);
    assert forall|i: int, j: int|
        #![trigger r[i], r[j]]
        0 <= i && j == i + 1 && j < r.len() implies edges.contains((r[i], r[j])) by {
        assert(r[i] == p[from + i] && r[j] == p[from + j]);
    }
}

/// An edge is a walk.
pub proof fn lemma_edge<T>(edges: Set<(T, T)>, a: T, b: T)
    requires
        edges.contains((a, b)),
    ensures
        is_path(edges, seq![a, b]),
        leads(edges, a, b),
        reaches(edges, a, b),
{
    let p = seq![a, b];
    assert forall|i: int, j: int|
        #![trigger p[i], p[j]]
        0 <= i && j == i + 1 && j < p.len() implies edges.contains((p[i], p[j])) by {
        assert(i == 0 && j == 1);
    }
    assert(p.first() == a && p.last() == b);
}

/// A walk can be prolonged by an edge.
pub proof fn lemma_prolong<T>(edges: Set<(T, T)>, a: T, b: T, c: T)
    requires
        reaches(edges, a, b),
        edges.contains((b, c)),
    ensures
        leads(edges, a, c),
        reaches(edges, a, c),
{
    let p = choose|p: Seq<T>| #[trigger]
        is_path(edges, p) && p.first() == a && p.last() == b;
    lemma_edge(edges, b, c);
    lemma_join(edges, p, seq![b, c]);
}

/// A set that holds the start of a walk, and with each node what its edges lead
/// to, holds the end of the walk.
pub proof fn lemma_closed<T>(edges: Set<(T, T)>, s: Set<T>, p: Seq<T>)
    requires
        is_path(edges, p),
        s.contains(p.first()),
        forall|a: T, b: T| s.contains(a) && #[trigger] edges.contains((a, b)) ==> s.contains(b),
    ensures
        s.contains(p.last()),
    decreases p.len(),
{
    if p.len() >= 2 {
        let q = p.drop_last();
        lemma_part(edges, p, 0, p.len() - 1);
        assert(q =~= p.subrange(0, p.len() - 1));
        lemma_closed(edges, s, q);
        let i = p.len() - 2;
        let j = p.len() - 1;
        assert(edges.contains((p[i], p[j])));
    }
}

/// Fewer nodes can be reached from what an edge leads to than from where it
/// starts.
pub proof fn lemma_below<T>(edges: Set<(T, T)>, a: T, b: T)
    requires
        edges.finite(),
        is_acyclic(edges),
        edges.contains((a, b)),
    ensures
        below(edges, a).finite(),
        below(edges, b).len() < below(edges, a).len(),
{
    let end = |e: (T, T)| e.1;
    let ends = edges.map(end);
    edges.lemma_map_finite(end);
    assert forall|n: T, x: T| #[trigger] below(edges, n).contains(x) implies ends.contains(x) by {
        let p = choose|p: Seq<T>| #[trigger]
            is_path(edges, p) && p.len() >= 2 && p.first() == n && p.last() == x;
        let i = p.len() - 2;
        let j = p.len() - 1;
        assert(edges.contains((p[i], p[j])));
        assert(x == end((p[i], p[j])));
    }
    vstd::set_lib::lemma_set_subset_finite(ends, below(edges, a));
    vstd::set_lib::lemma_set_subset_finite(ends, below(edges, b));
    lemma_edge(edges, a, b);
    assert(below(edges, a).contains(b));
    assert(!below(edges, b).contains(b)) by {
        if leads(edges, b, b) {
            let p = choose|p: Seq<T>| #[trigger]
                is_path(edges, p) && p.len() >= 2 && p.first() == b && p.last() == b;
            assert(p.first() != p.last());
        }
    }
    assert forall|x: T| #[trigger] below(edges, b).contains(x) implies below(
        edges,
        a,
    ).remove(b).contains(x) by {
        let p = choose|p: Seq<T>| #[trigger]
            is_path(edges, p) && p.len() >= 2 && p.first() == b && p.last() == x;
        lemma_join(edges, seq![a, b], p);
        if x == b {
            assert(below(edges, b).contains(b));
        }
    }
    vstd::set_lib::lemma_len_subset(below(edges, b), below(edges, a).remove(b));
}

/// A new edge closes no cycle where no walk leads from its end to its start.
pub proof fn lemma_edge_keeps_acyclic<T>(edges: Set<(T, T)>, from: T, to: T)
    requires
        is_acyclic(edges),
        from != to,
        !reaches(edges, to, from),
    ensures
        is_acyclic(edges.insert((from, to))),
{
    let more = edges.insert((from, to));
    assert forall|p: Seq<T>| #[trigger] is_path(more, p) && p.len() >= 2 implies p.first()
        != p.last() by {
        if p.first() == p.last() {
            lemma_cycle_uses(edges, from, to, p);
        }
    }
}

/// A cycle that a new edge closes has a walk from the edge's end to its start.
proof fn lemma_cycle_uses<T>(edges: Set<(T, T)>, from: T, to: T, p: Seq<T>)
    requires
        is_acyclic(edges),
        is_path(edges.insert((from, to)), p),
        p.len() >= 2,
        p.first() == p.last(),
    ensures
        from == to || reaches(edges, to, from),
{
    let more = edges.insert((from, to));
    if forall|i: int, j: int|
        #![trigger p[i], p[j]]
        0 <= i && j == i + 1 && j < p.len() ==> edges.contains((p[i], p[j])) {
        assert(is_path(edges, p));
        assert(false);
    }
    lemma_first_use(edges, from, to, p);
    lemma_last_use(edges, from, to, p);
    let head = choose|q: Seq<T>| #[trigger]
        is_path(edges, q) && q.first() == p.first() && q.last() == from;
    let tail = choose|q: Seq<T>| #[trigger]
        is_path(edges, q) && q.first() == to && q.last() == p.last();
    lemma_join(edges, tail, head);
}

proof fn lemma_first_use<T>(edges: Set<(T, T)>, from: T, to: T, p: Seq<T>)
    requires
        is_path(edges.insert((from, to)), p),
        !is_path(edges, p),
    ensures
        reaches(edges, p.first(), from),
    decreases p.len(),
{
    let more = edges.insert((from, to));
    if p.len() == 1 {
        assert(is_path(edges, p));
    } else {
        let q = p.drop_last();
        assert(q =~= p.subrange(0, p.len() - 1));
        lemma_part(more, p, 0, p.len() - 1);
        if is_path(edges, q) {
            let i = p.len() - 2;
            let j = p.len() - 1;
            assert(more.contains((p[i], p[j])));
            if edges.contains((p[i], p[j])) {
                assert forall|x: int, y: int|
                    #![trigger p[x], p[y]]
                    0 <= x && y == x + 1 && y < p.len() implies edges.contains((p[x], p[y])) by {
                    if y < p.len() - 1 {
                        assert(q[x] == p[x] && q[y] == p[y]);
                    }
                }
                assert(is_path(edges, p));
            }
            assert(p[i] == from);
            assert(q.first() == p.first() && q.last() == from);
        } else {
            lemma_first_use(edges, from, to, q);
        }
    }
}

proof fn lemma_last_use<T>(edges: Set<(T, T)>, from: T, to: T, p: Seq<T>)
    requires
        is_path(edges.insert((from, to)), p),
        !is_path(edges, p),
    ensures
        reaches(edges, to, p.last()),
    decreases p.len(),
{
    let more = edges.insert((from, to));
    if p.len() == 1 {
        assert(is_path(edges, p));
    } else {
        let q = p.drop_first();
        assert(q =~= p.subrange(1, p.len() as int));
        lemma_part(more, p, 1, p.len() as int);
        if is_path(edges, q) {
            assert(more.contains((p[0], p[1])));
            if edges.contains((p[0], p[1])) {
                assert forall|x: int, y: int|
                    #![trigger p[x], p[y]]
                    0 <= x && y == x + 1 && y < p.len() implies edges.contains((p[x], p[y])) by {
                    if x >= 1 {
                        assert(q[x - 1] == p[x] && q[y - 1] == p[y]);
                    }
                }
                assert(is_path(edges, p));
            }
            assert(p[1] == to);
            assert(q.first() == to && q.last() == p.last());
        } else {
            lemma_last_use(edges, from, to, q);
        }
    }
}

// ---------------------------------------------------------------------------
// The graph of systems
// ---------------------------------------------------------------------------

/// Numbers that stand for keys of systems and sets: those whose upper half is
/// odd.
pub open spec fn is_key(k: u64) -> bool {
    (k / 0x1_0000_0000) % 2 == 1
}

/// A graph of systems, each by the number of its key.
#[verifier::external_body]
pub struct SystemGraph {
    dag: Dag<SystemKey>,
}

/// The edges of a graph of systems.
pub uninterp spec fn system_edges(graph: SystemGraph) -> Set<(u64, u64)>;

impl SystemGraph {
    /// `bevy_ecs::schedule::graph::Dag::new`: a graph without edges.
    #[verifier::external_body]
    pub(crate) fn empty() -> (r: SystemGraph)
        ensures
            system_edges(r) == Set::<(u64, u64)>::empty(),
    {
        SystemGraph { dag: Dag::new() }
    }

    /// `bevy_ecs::schedule::graph::Graph::add_edge`: adds an edge, if it is not
    /// there.
    #[verifier::external_body]
    pub(crate) fn insert_edge(&mut self, from: u64, to: u64)
        requires
            is_key(from),
            is_key(to),
        ensures
            system_edges(*final(self)) == system_edges(*old(self)).insert((from, to)),
    {
        self.dag.add_edge(KeyData::from_ffi(from).into(), KeyData::from_ffi(to).into())
    }

    /// `bevy_ecs::schedule::graph::Graph::neighbors_directed` for outgoing
    /// edges: each system that an edge leads to from the given one, once.
    #[verifier::external_body]
    pub(crate) fn following(&self, system: u64) -> (r: Vec<u64>)
        requires
            is_key(system),
        ensures
            r@.no_duplicates(),
            forall|x: u64| #[trigger]
                r@.contains(x) <==> system_edges(*self).contains((system, x)),
            forall|i: int| 0 <= i < r@.len() ==> is_key(#[trigger] r@[i]),
    {
        let outgoing = bevy_ecs::schedule::graph::Direction::Outgoing;
        let neighbors = self.dag.neighbors_directed(KeyData::from_ffi(system).into(), outgoing);
        neighbors.map(|key| key.data().as_ffi()).collect()
    }

    /// `bevy_ecs::schedule::graph::Graph::all_edges`: every edge, once, in no
    /// particular order.
    #[verifier::external_body]
    pub(crate) fn all_edges(&self) -> (r: Vec<(u64, u64)>)
        ensures
            r@.no_duplicates(),
            r@.to_set() == system_edges(*self),
    {
        self.dag.all_edges().map(|(a, b)| (a.data().as_ffi(), b.data().as_ffi())).collect()
    }

    /// A graph without edges.
    pub fn new() -> (r: SystemGraph)
        ensures
            r.wf(),
            system_edges(r) == Set::<(u64, u64)>::empty(),
    {
        SystemGraph::empty()
    }

    /// There are finitely many edges, between keys.
    pub open spec fn wf(self) -> bool {
        &&& system_edges(self).finite()
        &&& forall|a: u64, b: u64| #[trigger]
            system_edges(self).contains((a, b)) ==> is_key(a) && is_key(b)
    }

    /// Adds an edge, if it is not there.
    pub fn add_edge(&mut self, from: u64, to: u64)
        requires
            old(self).wf(),
            is_key(from),
            is_key(to),
        ensures
            final(self).wf(),
            system_edges(*final(self)) == system_edges(*old(self)).insert((from, to)),
    {
        self.insert_edge(from, to);
    }

    /// Every edge once, in no particular order.
    pub fn edges(&self) -> (r: Vec<(u64, u64)>)
        ensures
            r@.no_duplicates(),
            r@.to_set() == system_edges(*self),
    {
        self.all_edges()
    }
}

/// Whether a walk leads from one system to another.
pub fn has_path(graph: &SystemGraph, from: u64, to: u64) -> (r: bool)
    requires
        graph.wf(),
        is_key(from),
    ensures
        r == reaches(system_edges(*graph), from, to),
{
    let ghost edges = system_edges(*graph);
    let ghost start = |e: (u64, u64)| e.0;
    let ghost starts = edges.map(start);
    let mut stack: Vec<u64> = Vec::new();
    stack.push(from);
    let mut visited: HashSet<u64> = HashSet::new();
    proof {
        edges.lemma_map_finite(start);
        assert forall|a: u64, b: u64| #[trigger] edges.contains((a, b)) implies starts.contains(
            a,
        ) by {
            assert(start((a, b)) == a);
        }
        assert(is_path(edges, seq![from]));
        assert(seq![from].first() == from && seq![from].last() == from);
        assert(stack@[0] == from);
        assert(stack@.contains(from));
    }
    while stack.len() > 0
        invariant
            graph.wf(),
            edges == system_edges(*graph),
            starts.finite(),
            forall|a: u64, b: u64| #[trigger] edges.contains((a, b)) ==> starts.contains(a),
            visited@.finite(),
            !visited@.contains(to),
            visited@.contains(from) || stack@.contains(from),
            forall|i: int| 0 <= i < stack@.len() ==> is_key(#[trigger] stack@[i]),
            forall|i: int| 0 <= i < stack@.len() ==> reaches(edges, from, #[trigger] stack@[i]),
            forall|a: u64, b: u64|
                visited@.contains(a) && #[trigger] edges.contains((a, b)) ==> visited@.contains(b)
                    || stack@.contains(b),
        decreases starts.difference(visited@).len(), stack@.len(),
    {
        let ghost before = stack@;
        let ghost seen = visited@;
        let system: u64 = stack.pop().unwrap();
        assert(before =~= stack@.push(system));
        assert(before[before.len() - 1] == system);
        assert forall|x: u64| before.contains(x) implies x == system || stack@.contains(x) by {
            let i = choose|i: int| 0 <= i < before.len() && before[i] == x;
            if i < stack@.len() {
                assert(stack@[i] == x);
            }
        }
        if system == to {
            return true;
        }
        if !visited.insert(system) {
            assert(visited@ =~= seen);
            continue;
        }
        let mut next = graph.following(system);
        let ghost kept = stack@;
        let ghost added = next@;
        stack.append(&mut next);
        proof {
            assert(stack@ =~= kept + added);
            assert forall|i: int| 0 <= i < stack@.len() implies reaches(
                edges,
                from,
                #[trigger] stack@[i],
            ) by {
                if i < kept.len() {
                    assert(stack@[i] == before[i]);
                } else {
                    let x = added[i - kept.len()];
                    assert(added.contains(x));
                    lemma_prolong(edges, from, system, x);
                }
            }
            assert forall|x: u64| kept.contains(x) || added.contains(x) implies stack@.contains(
                x,
            ) by {
                if kept.contains(x) {
                    let i = choose|i: int| 0 <= i < kept.len() && kept[i] == x;
                    assert(stack@[i] == x);
                } else {
                    let i = choose|i: int| 0 <= i < added.len() && added[i] == x;
                    assert(stack@[kept.len() + i] == x);
                }
            }
            assert forall|a: u64, b: u64|
                visited@.contains(a) && #[trigger] edges.contains(
                    (a, b),
                ) implies visited@.contains(b) || stack@.contains(b) by {
                if a == system {
                    assert(added.contains(b));
                }
            }
            if added.len() > 0 {
                assert(added.contains(added[0]));
                assert(edges.contains((system, added[0])));
                assert(starts.difference(seen).contains(system));
                assert(starts.difference(visited@) =~= starts.difference(seen).remove(system));
            } else {
                if starts.contains(system) {
                    assert(starts.difference(visited@) =~= starts.difference(seen).remove(system));
                } else {
                    assert(starts.difference(visited@) =~= starts.difference(seen));
                }
                assert(stack@.len() < before.len());
            }
        }
    }
    proof {
        if reaches(edges, from, to) {
            let p = choose|p: Seq<u64>| #[trigger]
                is_path(edges, p) && p.first() == from && p.last() == to;
            lemma_closed(edges, visited@, p);
        }
    }
    false
}

/// Adds an edge where it closes no cycle.
pub fn add_edge_if_acyclic(graph: &mut SystemGraph, from: u64, to: u64)
    requires
        old(graph).wf(),
        is_key(from),
        is_key(to),
    ensures
        final(graph).wf(),
        system_edges(*final(graph)) == with_edge_if_acyclic(system_edges(*old(graph)), from, to),
{
    if from == to || has_path(graph, to, from) {
        return;
    }
    graph.add_edge(from, to);
}

pub open spec fn with_edge_if_acyclic(edges: Set<(u64, u64)>, from: u64, to: u64) -> Set<
    (u64, u64),
> {
    if from == to || reaches(edges, to, from) {
        edges
    } else {
        edges.insert((from, to))
    }
}

/// An edge is added unless it closes a cycle, and no other edge is added or taken
/// away.
pub proof fn law_edges_that_close_cycles_are_left_out(
    edges: Set<(u64, u64)>,
    from: u64,
    to: u64,
    e: (u64, u64),
)
    ensures
        e != (from, to) ==> (with_edge_if_acyclic(edges, from, to).contains(e) <==> edges.contains(
            e,
        )),
        with_edge_if_acyclic(edges, from, to).contains((from, to)) <==> edges.contains((from, to))
            || (from != to && !reaches(edges, to, from)),
        is_acyclic(edges) ==> is_acyclic(with_edge_if_acyclic(edges, from, to)),
{
    if is_acyclic(edges) && from != to && !reaches(edges, to, from) {
        lemma_edge_keeps_acyclic(edges, from, to);
    }
}

// ---------------------------------------------------------------------------
// The graph of systems and sets
// ---------------------------------------------------------------------------

/// A system or a set of systems, by the number of its key.
#[derive(Debug, Clone, Copy, PartialEq, Eq, Structural)]
pub enum Node {
    System(u64),
    SystemSet(u64),
}

impl Node {
    /// The number stands for a key.
    pub open spec fn wf(self) -> bool {
        match self {
            Node::System(k) => is_key(k),
            Node::SystemSet(k) => is_key(k),
        }
    }
}

/// Which edges of a node are followed.
#[derive(Debug, Clone, Copy, PartialEq, Eq, Structural)]
pub enum Direction {
    Incoming,
    Outgoing,
}

/// A graph of systems and sets: the members of the sets, or the order that was
/// asked for.
#[verifier::external_body]
pub struct NodeGraph {
    graph: DiGraph<NodeId>,
}

/// The edges of a graph of systems and sets.
pub uninterp spec fn node_edges(graph: NodeGraph) -> Set<(Node, Node)>;

impl NodeGraph {
    /// `bevy_ecs::schedule::graph::Graph::default`: a graph without edges.
    #[verifier::external_body]
    pub(crate) fn empty() -> (r: NodeGraph)
        ensures
            node_edges(r) == Set::<(Node, Node)>::empty(),
    {
        NodeGraph { graph: DiGraph::default() }
    }

    /// `bevy_ecs::schedule::graph::Graph::add_edge`: adds an edge, if it is not
    /// there.
    #[verifier::external_body]
    pub(crate) fn insert_edge(&mut self, from: Node, to: Node)
        requires
            from.wf(),
            to.wf(),
        ensures
            node_edges(*final(self)) == node_edges(*old(self)).insert((from, to)),
    {
        let node_id = |node: Node| match node {
            Node::System(key) => NodeId::System(KeyData::from_ffi(key).into()),
            Node::SystemSet(key) => NodeId::Set(KeyData::from_ffi(key).into()),
        };
        self.graph.add_edge(node_id(from), node_id(to))
    }

    /// `bevy_ecs::schedule::graph::Graph::neighbors_directed`: each node at the
    /// other end of an edge of the given node, once.
    #[verifier::external_body]
    pub(crate) fn adjacent(&self, node: Node, direction: Direction) -> (r: Vec<Node>)
        requires
            node.wf(),
        ensures
            r@.no_duplicates(),
            forall|x: Node| #[trigger]
                r@.contains(x) <==> node_edges(*self).contains(
                    match direction {
                        Direction::Incoming => (x, node),
                        Direction::Outgoing => (node, x),
                    },
                ),
            forall|i: int| 0 <= i < r@.len() ==> (#[trigger] r@[i]).wf(),
    {
        let id = match node {
            Node::System(key) => NodeId::System(KeyData::from_ffi(key).into()),
            Node::SystemSet(key) => NodeId::Set(KeyData::from_ffi(key).into()),
        };
        let side = match direction {
            Direction::Incoming => bevy_ecs::schedule::graph::Direction::Incoming,
            Direction::Outgoing => bevy_ecs::schedule::graph::Direction::Outgoing,
        };
        self.graph.neighbors_directed(id, side).map(|found| match found {
            NodeId::System(key) => Node::System(key.data().as_ffi()),
            NodeId::Set(key) => Node::SystemSet(key.data().as_ffi()),
        }).collect()
    }

    /// There are finitely many edges, between keys.
    pub open spec fn wf(self) -> bool {
        &&& node_edges(self).finite()
        &&& forall|a: Node, b: Node| #[trigger]
            node_edges(self).contains((a, b)) ==> a.wf() && b.wf()
    }

    /// A graph without edges.
    pub fn new() -> (r: NodeGraph)
        ensures
            r.wf(),
            node_edges(r) == Set::<(Node, Node)>::empty(),
    {
        NodeGraph::empty()
    }

    /// Adds an edge, if it is not there.
    pub fn add_edge(&mut self, from: Node, to: Node)
        requires
            old(self).wf(),
            from.wf(),
            to.wf(),
        ensures
            final(self).wf(),
            node_edges(*final(self)) == node_edges(*old(self)).insert((from, to)),
    {
        self.insert_edge(from, to);
    }
}

/// The steps from a set to a set that it is a member of.
pub open spec fn parent_steps(edges: Set<(Node, Node)>) -> Set<(u64, u64)> {
    Set::new(|e: (u64, u64)| edges.contains((Node::SystemSet(e.1), Node::SystemSet(e.0))))
}

/// The sets that a set is a member of, directly or through other sets, each
/// once.
pub fn ancestor_sets(hierarchy: &NodeGraph, set: u64) -> (r: Vec<u64>)
    requires
        hierarchy.wf(),
        is_key(set),
    ensures
        r@.no_duplicates(),
        forall|x: u64| #[trigger]
            r@.contains(x) <==> leads(parent_steps(node_edges(*hierarchy)), set, x),
        forall|i: int| 0 <= i < r@.len() ==> is_key(#[trigger] r@[i]),
{
    let ghost edges = node_edges(*hierarchy);
    let ghost steps = parent_steps(edges);
    let ghost end = |e: (Node, Node)| e.1;
    let ghost ends = edges.map(end);
    let mut found: Vec<u64> = Vec::new();
    let mut visited: HashSet<u64> = HashSet::new();
    let mut to_visit = hierarchy.adjacent(Node::SystemSet(set), Direction::Incoming);
    let ghost nodes = Set::new(|n: Node| n is SystemSet && visited@.contains(n->SystemSet_0));
    proof {
        edges.lemma_map_finite(end);
        assert forall|a: Node, b: Node| #[trigger] edges.contains((a, b)) implies ends.contains(
            b,
        ) by {
            assert(end((a, b)) == b);
        }
        assert(nodes =~= Set::empty());
        assert forall|i: int| 0 <= i < to_visit@.len() implies match #[trigger] to_visit@[i] {
            Node::System(_) => true,
            Node::SystemSet(x) => leads(steps, set, x),
        } by {
            assert(to_visit@.contains(to_visit@[i]));
            if let Node::SystemSet(x) = to_visit@[i] {
                assert(steps.contains((set, x)));
                lemma_edge(steps, set, x);
            }
        }
    }
    while to_visit.len() > 0
        invariant
            hierarchy.wf(),
            edges == node_edges(*hierarchy),
            steps == parent_steps(edges),
            ends.finite(),
            forall|a: Node, b: Node| #[trigger] edges.contains((a, b)) ==> ends.contains(b),
            nodes == Set::new(|n: Node| n is SystemSet && visited@.contains(n->SystemSet_0)),
            found@.no_duplicates(),
            forall|x: u64| found@.contains(x) <==> #[trigger] visited@.contains(x),
            forall|i: int| 0 <= i < found@.len() ==> is_key(#[trigger] found@[i]),
            forall|i: int| 0 <= i < found@.len() ==> leads(steps, set, #[trigger] found@[i]),
            forall|i: int| 0 <= i < to_visit@.len() ==> (#[trigger] to_visit@[i]).wf(),
            forall|i: int|
                0 <= i < to_visit@.len() ==> match #[trigger] to_visit@[i] {
                    Node::System(_) => true,
                    Node::SystemSet(x) => leads(steps, set, x),
                },
            forall|a: u64, b: u64|
                (a == set || visited@.contains(a)) && #[trigger] steps.contains((a, b))
                    ==> visited@.contains(b) || to_visit@.contains(Node::SystemSet(b)),
        decreases ends.difference(nodes).len(), to_visit@.len(),
    {
        let ghost before = to_visit@;
        let ghost seen = visited@;
        let ghost seen_nodes = nodes;
        let ancestor = to_visit.pop().unwrap();
        assert(before =~= to_visit@.push(ancestor));
        assert(before[before.len() - 1] == ancestor);
        assert forall|x: Node| before.contains(x) implies x == ancestor || to_visit@.contains(
            x,
        ) by {
            let i = choose|i: int| 0 <= i < before.len() && before[i] == x;
            if i < to_visit@.len() {
                assert(to_visit@[i] == x);
            }
        }
        let key: u64 = match ancestor {
            Node::System(_) => {
                continue;
            },
            Node::SystemSet(key) => key,
        };
        if !visited.insert(key) {
            assert(visited@ =~= seen);
            continue;
        }
        let ghost listed = found@;
        found.push(key);
        let mut next = hierarchy.adjacent(ancestor, Direction::Incoming);
        let ghost kept = to_visit@;
        let ghost added = next@;
        to_visit.append(&mut next);
        proof {
            nodes = Set::new(|n: Node| n is SystemSet && visited@.contains(n->SystemSet_0));
            assert(to_visit@ =~= kept + added);
            assert forall|x: u64| found@.contains(x) <==> #[trigger] visited@.contains(x) by {
                if listed.contains(x) {
                    let i = choose|i: int| 0 <= i < listed.len() && listed[i] == x;
                    assert(found@[i] == x);
                }
                if x == key {
                    assert(found@[listed.len() as int] == x);
                }
                if found@.contains(x) && x != key {
                    let i = choose|i: int| 0 <= i < found@.len() && found@[i] == x;
                    assert(listed[i] == x);
                }
            }
            assert(!listed.contains(key));
            assert forall|i: int| 0 <= i < to_visit@.len() implies match #[trigger] to_visit@[i] {
                Node::System(_) => true,
                Node::SystemSet(x) => leads(steps, set, x),
            } by {
                if i < kept.len() {
                    assert(to_visit@[i] == before[i]);
                } else {
                    let n = added[i - kept.len()];
                    assert(added.contains(n));
                    if let Node::SystemSet(x) = n {
                        assert(steps.contains((key, x)));
                        let p = choose|p: Seq<u64>| #[trigger]
                            is_path(steps, p) && p.len() >= 2 && p.first() == set && p.last()
                                == key;
                        assert(reaches(steps, set, key));
                        lemma_prolong(steps, set, key, x);
                    }
                }
            }
            assert forall|x: Node| kept.contains(x) || added.contains(x) implies to_visit@.contains(
                x,
            ) by {
                if kept.contains(x) {
                    let i = choose|i: int| 0 <= i < kept.len() && kept[i] == x;
                    assert(to_visit@[i] == x);
                } else {
                    let i = choose|i: int| 0 <= i < added.len() && added[i] == x;
                    assert(to_visit@[kept.len() + i] == x);
                }
            }
            assert forall|a: u64, b: u64|
                (a == set || visited@.contains(a)) && #[trigger] steps.contains(
                    (a, b),
                ) implies visited@.contains(b) || to_visit@.contains(Node::SystemSet(b)) by {
                if a == key {
                    assert(added.contains(Node::SystemSet(b)));
                }
            }
            if added.len() > 0 {
                assert(added.contains(added[0]));
                assert(edges.contains((added[0], ancestor)));
                assert(ends.difference(seen_nodes).contains(ancestor));
                assert(ends.difference(nodes) =~= ends.difference(seen_nodes).remove(ancestor));
            } else {
                if ends.contains(ancestor) {
                    assert(ends.difference(nodes) =~= ends.difference(seen_nodes).remove(ancestor));
                } else {
                    assert(ends.difference(nodes) =~= ends.difference(seen_nodes));
                }
                assert(to_visit@.len() < before.len());
            }
        }
    }
    proof {
        assert forall|x: u64| leads(steps, set, x) implies #[trigger] found@.contains(x) by {
            let p = choose|p: Seq<u64>| #[trigger]
                is_path(steps, p) && p.len() >= 2 && p.first() == set && p.last() == x;
            assert(steps.contains((p[0], p[1])));
            lemma_part(steps, p, 1, p.len() as int);
            let q = p.subrange(1, p.len() as int);
            assert(q.first() == p[1] && q.last() == x);
            lemma_closed(steps, visited@, q);
        }
        assert forall|x: u64| #[trigger] found@.contains(x) implies leads(steps, set, x) by {
            let i = choose|i: int| 0 <= i < found@.len() && found@[i] == x;
        }
    }
    found
}

} // verus!
