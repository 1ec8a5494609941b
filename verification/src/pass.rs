//! Order of the systems of a schedule that is split into submission sets and
//! render sets.
//!
//! A submission set has a system that runs before its other systems, the
//! prelude, and one that runs after them, the submission. A render set has a
//! system that opens it, its configuration, and one that closes it, its ending.

use std::collections::BTreeMap;
use std::collections::HashMap;
use std::collections::HashSet;

use crate::graph;
use crate::graph::ancestor_sets;
use crate::graph::Direction;
use crate::graph::Node;
use crate::graph::NodeGraph;
use crate::graph::SystemGraph;
use crate::grouping;
use crate::grouping::add_render_grouping_edges;
use crate::text;
use crate::text::trim;
use vstd::prelude::*;

verus! {

broadcast use {
    vstd::std_specs::hash::group_hash_axioms,
    vstd::std_specs::btree::group_btree_axioms,
};

/// The systems that open and close a submission set, and the resource that
/// holds its state.
#[derive(Debug, Clone, Copy, PartialEq, Eq, Structural)]
pub struct RenderSetMetaSystems {
    pub prelude: u64,
    pub submission: u64,
    pub state_id: usize,
}

/// The numbers that a map gives stand for keys.
pub open spec fn endings_wf(endings: Map<u64, u64>) -> bool {
    forall|k: u64| #[trigger] endings.contains_key(k) ==> graph::is_key(endings[k])
}

pub open spec fn metas_wf(metas: Map<u64, RenderSetMetaSystems>) -> bool {
    forall|k: u64| #[trigger]
        metas.contains_key(k) ==> graph::is_key(metas[k].prelude) && graph::is_key(
            metas[k].submission,
        )
}

// ---------------------------------------------------------------------------
// Members of a set
// ---------------------------------------------------------------------------

/// `p` leads from a node down to one of its members, through sets.
pub open spec fn is_descent(edges: Set<(Node, Node)>, p: Seq<Node>) -> bool {
    &&& graph::is_path(edges, p)
    &&& p.len() >= 2
    &&& forall|i: int| 1 <= i < p.len() - 1 ==> (#[trigger] p[i]) is SystemSet
}

pub open spec fn is_render_set(endings: Map<u64, u64>, n: Node) -> bool {
    n is SystemSet && endings.contains_key(n->SystemSet_0)
}

/// A descent goes through a render set.
pub open spec fn crosses_render_set(endings: Map<u64, u64>, p: Seq<Node>) -> bool {
    exists|i: int| 1 <= i < p.len() - 1 && is_render_set(endings, #[trigger] p[i])
}

/// The descent `p` makes `system` a render system: it ends at the system,
/// inside of a render set, or at a render set that the system closes.
pub open spec fn renders(
    endings: Map<u64, u64>,
    skipped: Set<u64>,
    in_render: bool,
    p: Seq<Node>,
    system: u64,
) -> bool {
    match p.last() {
        Node::System(s) => s == system && !skipped.contains(s) && (in_render || crosses_render_set(
            endings,
            p,
        )),
        Node::SystemSet(k) => endings.contains_key(k) && endings[k] == system,
    }
}

/// The descent `p` ends at `system`, outside of every render set.
pub open spec fn works(
    endings: Map<u64, u64>,
    skipped: Set<u64>,
    in_render: bool,
    p: Seq<Node>,
    system: u64,
) -> bool {
    p.last() == Node::System(system) && !skipped.contains(system) && !in_render
        && !crosses_render_set(endings, p)
}

/// `system` is below `node`, in a render set or closing one. `in_render` says
/// that `node` is in a render set itself.
pub open spec fn is_render_member(
    edges: Set<(Node, Node)>,
    endings: Map<u64, u64>,
    skipped: Set<u64>,
    node: Node,
    in_render: bool,
    system: u64,
) -> bool {
    exists|p: Seq<Node>| #[trigger]
        is_descent(edges, p) && p.first() == node && renders(
            endings,
            skipped,
            in_render,
            p,
            system,
        )
}

/// `system` is below `node`, outside of render sets.
pub open spec fn is_nonrender_member(
    edges: Set<(Node, Node)>,
    endings: Map<u64, u64>,
    skipped: Set<u64>,
    node: Node,
    in_render: bool,
    system: u64,
) -> bool {
    exists|p: Seq<Node>| #[trigger]
        is_descent(edges, p) && p.first() == node && works(endings, skipped, in_render, p, system)
}

/// `system` is below `node`.
pub open spec fn is_member(
    edges: Set<(Node, Node)>,
    endings: Map<u64, u64>,
    skipped: Set<u64>,
    node: Node,
    in_render: bool,
    system: u64,
) -> bool {
    ||| is_render_member(edges, endings, skipped, node, in_render, system)
    ||| is_nonrender_member(edges, endings, skipped, node, in_render, system)
}

/// A child that is a system makes itself a member.
proof fn lemma_system_child(
    edges: Set<(Node, Node)>,
    endings: Map<u64, u64>,
    skipped: Set<u64>,
    node: Node,
    in_render: bool,
    system: u64,
)
    requires
        edges.contains((node, Node::System(system))),
        !skipped.contains(system),
    ensures
        in_render ==> is_render_member(edges, endings, skipped, node, in_render, system),
        !in_render ==> is_nonrender_member(edges, endings, skipped, node, in_render, system),
{
    let p = seq![node, Node::System(system)];
    graph::lemma_edge(edges, node, Node::System(system));
    assert(is_descent(edges, p));
    assert(p.first() == node && p.last() == Node::System(system));
}

/// What is below a child set is below the node.
proof fn lemma_set_child(
    edges: Set<(Node, Node)>,
    endings: Map<u64, u64>,
    skipped: Set<u64>,
    node: Node,
    in_render: bool,
    set: u64,
    system: u64,
)
    requires
        edges.contains((node, Node::SystemSet(set))),
    ensures
        is_render_member(
            edges,
            endings,
            skipped,
            Node::SystemSet(set),
            in_render || endings.contains_key(set),
            system,
        ) ==> is_render_member(edges, endings, skipped, node, in_render, system),
        is_nonrender_member(
            edges,
            endings,
            skipped,
            Node::SystemSet(set),
            in_render || endings.contains_key(set),
            system,
        ) ==> is_nonrender_member(edges, endings, skipped, node, in_render, system),
        endings.contains_key(set) && endings[set] == system ==> is_render_member(
            edges,
            endings,
            skipped,
            node,
            in_render,
            system,
        ),
{
    let child = Node::SystemSet(set);
    let deeper = in_render || endings.contains_key(set);
    graph::lemma_edge(edges, node, child);
    let step = seq![node, child];
    assert(is_descent(edges, step) && step.first() == node && step.last() == child);
    if is_render_member(edges, endings, skipped, child, deeper, system) {
        let q = choose|q: Seq<Node>| #[trigger]
            is_descent(edges, q) && q.first() == child && renders(
                endings,
                skipped,
                deeper,
                q,
                system,
            );
        lemma_descend(edges, endings, node, q);
        let p = seq![node] + q;
        assert(renders(endings, skipped, in_render, p, system));
        assert(is_descent(edges, p) && p.first() == node);
    }
    if is_nonrender_member(edges, endings, skipped, child, deeper, system) {
        let q = choose|q: Seq<Node>| #[trigger]
            is_descent(edges, q) && q.first() == child && works(
                endings,
                skipped,
                deeper,
                q,
                system,
            );
        lemma_descend(edges, endings, node, q);
        let p = seq![node] + q;
        assert(works(endings, skipped, in_render, p, system));
        assert(is_descent(edges, p) && p.first() == node);
    }
}

/// A descent from a set is prolonged at its start.
proof fn lemma_descend(
    edges: Set<(Node, Node)>,
    endings: Map<u64, u64>,
    node: Node,
    q: Seq<Node>,
)
    requires
        is_descent(edges, q),
        q.first() is SystemSet,
        edges.contains((node, q.first())),
    ensures
        is_descent(edges, seq![node] + q),
        (seq![node] + q).first() == node,
        (seq![node] + q).last() == q.last(),
        crosses_render_set(endings, seq![node] + q) <==> (is_render_set(endings, q.first())
            || crosses_render_set(endings, q)),
{
    let p = seq![node] + q;
    let step = seq![node, q.first()];
    graph::lemma_edge(edges, node, q.first());
    graph::lemma_join(edges, step, q);
    assert(p =~= step + q.skip(1));
    assert forall|i: int| 1 <= i < p.len() - 1 implies (#[trigger] p[i]) is SystemSet by {
        assert(p[i] == q[i - 1]);
    }
    if is_render_set(endings, q.first()) {
        assert(p[1] == q.first());
        assert(crosses_render_set(endings, p));
    }
    if crosses_render_set(endings, q) {
        let i = choose|i: int| 1 <= i < q.len() - 1 && is_render_set(endings, #[trigger] q[i]);
        assert(p[i + 1] == q[i]);
    }
    if crosses_render_set(endings, p) {
        let i = choose|i: int| 1 <= i < p.len() - 1 && is_render_set(endings, #[trigger] p[i]);
        assert(p[i] == q[i - 1]);
    }
}

/// What is below a node is one of its children, or below a child set.
pub open spec fn through_child(
    edges: Set<(Node, Node)>,
    endings: Map<u64, u64>,
    skipped: Set<u64>,
    child: Node,
    in_render: bool,
    system: u64,
    render: bool,
) -> bool {
    match child {
        Node::System(s) => s == system && !skipped.contains(s) && render == in_render,
        Node::SystemSet(k) => {
            ||| render && endings.contains_key(k) && endings[k] == system
            ||| render && is_render_member(
                edges,
                endings,
                skipped,
                child,
                in_render || endings.contains_key(k),
                system,
            )
            ||| !render && is_nonrender_member(
                edges,
                endings,
                skipped,
                child,
                in_render || endings.contains_key(k),
                system,
            )
        },
    }
}

proof fn lemma_first_child(
    edges: Set<(Node, Node)>,
    endings: Map<u64, u64>,
    skipped: Set<u64>,
    node: Node,
    in_render: bool,
    system: u64,
    render: bool,
) -> (child: Node)
    requires
        render ==> is_render_member(edges, endings, skipped, node, in_render, system),
        !render ==> is_nonrender_member(edges, endings, skipped, node, in_render, system),
    ensures
        edges.contains((node, child)),
        through_child(edges, endings, skipped, child, in_render, system, render),
{
    let p = if render {
        choose|p: Seq<Node>| #[trigger]
            is_descent(edges, p) && p.first() == node && renders(
                endings,
                skipped,
                in_render,
                p,
                system,
            )
    } else {
        choose|p: Seq<Node>| #[trigger]
            is_descent(edges, p) && p.first() == node && works(
                endings,
                skipped,
                in_render,
                p,
                system,
            )
    };
    let child = p[1];
    assert(edges.contains((p[0], p[1])));
    if p.len() == 2 {
        assert(!crosses_render_set(endings, p));
    } else {
        let q = p.skip(1);
        assert(q =~= p.subrange(1, p.len() as int));
        graph::lemma_part(edges, p, 1, p.len() as int);
        assert forall|i: int| 1 <= i < q.len() - 1 implies (#[trigger] q[i]) is SystemSet by {
            assert(q[i] == p[i + 1]);
        }
        assert(child is SystemSet);
        assert(is_descent(edges, q) && q.first() == child && q.last() == p.last());
        lemma_descend(edges, endings, node, q);
        assert(seq![node] + q =~= p);
        let deeper = in_render || endings.contains_key(child->SystemSet_0);
        if render {
            assert(renders(endings, skipped, deeper, q, system));
        } else {
            assert(works(endings, skipped, deeper, q, system));
        }
    }
    child
}

/// Lists the systems below a node: those in render sets and the systems that
/// close the render sets on the one side, all others on the other.
pub fn collect_descendant_systems(
    hierarchy: &NodeGraph,
    node: Node,
    render_sets_to_ending_systems: &BTreeMap<u64, u64>,
    in_render_set: bool,
    meta_systems: &HashSet<u64>,
    render_systems: &mut Vec<u64>,
    nonrender_systems: &mut Vec<u64>,
)
    requires
        hierarchy.wf(),
        graph::is_acyclic(graph::node_edges(*hierarchy)),
        node.wf(),
        endings_wf(render_sets_to_ending_systems@),
        forall|i: int|
            0 <= i < old(render_systems)@.len() ==> graph::is_key(
                #[trigger] old(render_systems)@[i],
            ),
        forall|i: int|
            0 <= i < old(nonrender_systems)@.len() ==> graph::is_key(
                #[trigger] old(nonrender_systems)@[i],
            ),
    ensures
        forall|s: u64| #[trigger]
            final(render_systems)@.contains(s) <==> old(render_systems)@.contains(s)
                || is_render_member(
                graph::node_edges(*hierarchy),
                render_sets_to_ending_systems@,
                meta_systems@,
                node,
                in_render_set,
                s,
            ),
        forall|s: u64| #[trigger]
            final(nonrender_systems)@.contains(s) <==> old(nonrender_systems)@.contains(s)
                || is_nonrender_member(
                graph::node_edges(*hierarchy),
                render_sets_to_ending_systems@,
                meta_systems@,
                node,
                in_render_set,
                s,
            ),
        forall|i: int|
            0 <= i < final(render_systems)@.len() ==> graph::is_key(
                #[trigger] final(render_systems)@[i],
            ),
        forall|i: int|
            0 <= i < final(nonrender_systems)@.len() ==> graph::is_key(
                #[trigger] final(nonrender_systems)@[i],
            ),
    decreases graph::below(graph::node_edges(*hierarchy), node).len(),
{
    let ghost edges = graph::node_edges(*hierarchy);
    let ghost endings = render_sets_to_ending_systems@;
    let ghost skipped = meta_systems@;
    let ghost render_before = render_systems@;
    let ghost nonrender_before = nonrender_systems@;
    let children = hierarchy.adjacent(node, Direction::Outgoing);
    let mut i: usize = 0;
    while i < children.len()
        invariant
            hierarchy.wf(),
            graph::is_acyclic(edges),
            edges == graph::node_edges(*hierarchy),
            endings == render_sets_to_ending_systems@,
            skipped == meta_systems@,
            endings_wf(endings),
            i <= children@.len(),
            forall|x: Node| #[trigger] children@.contains(x) <==> edges.contains((node, x)),
            forall|j: int| 0 <= j < children@.len() ==> (#[trigger] children@[j]).wf(),
            forall|s: u64| #[trigger]
                render_systems@.contains(s) <==> render_before.contains(s) || exists|j: int|
                    0 <= j < i && through_child(
                        edges,
                        endings,
                        skipped,
                        #[trigger] children@[j],
                        in_render_set,
                        s,
                        true,
                    ),
            forall|s: u64| #[trigger]
                nonrender_systems@.contains(s) <==> nonrender_before.contains(s) || exists|j: int|
                    0 <= j < i && through_child(
                        edges,
                        endings,
                        skipped,
                        #[trigger] children@[j],
                        in_render_set,
                        s,
                        false,
                    ),
            forall|j: int|
                0 <= j < render_systems@.len() ==> graph::is_key(#[trigger] render_systems@[j]),
            forall|j: int|
                0 <= j < nonrender_systems@.len() ==> graph::is_key(
                    #[trigger] nonrender_systems@[j],
                ),
        decreases children@.len() - i,
    {
        let ghost render_now = render_systems@;
        let ghost nonrender_now = nonrender_systems@;
        let child: Node = children[i];
        assert(children@.contains(child));
        match child {
            Node::System(sys) => {
                if !meta_systems.contains(&sys) {
                    if in_render_set {
                        render_systems.push(sys);
                        proof {
                            lemma_pushed(render_now, sys);
                        }
                    } else {
                        nonrender_systems.push(sys);
                        proof {
                            lemma_pushed(nonrender_now, sys);
                        }
                    }
                }
            },
            Node::SystemSet(set_key) => {
                let mut child_in_render = in_render_set;
                if let Some(ending_system) = render_sets_to_ending_systems.get(&set_key) {
                    render_systems.push(*ending_system);
                    child_in_render = true;
                    proof {
                        lemma_pushed(render_now, *ending_system);
                    }
                }
                proof {
                    graph::lemma_below(edges, node, child);
                }
                collect_descendant_systems(
                    hierarchy,
                    child,
                    render_sets_to_ending_systems,
                    child_in_render,
                    meta_systems,
                    render_systems,
                    nonrender_systems,
                );
            },
        }
        proof {
            assert forall|s: u64| #[trigger]
                render_systems@.contains(s) <==> render_before.contains(s) || exists|j: int|
                    0 <= j < i + 1 && through_child(
                        edges,
                        endings,
                        skipped,
                        #[trigger] children@[j],
                        in_render_set,
                        s,
                        true,
                    ) by {
                assert(render_systems@.contains(s) <==> render_now.contains(s) || through_child(
                    edges,
                    endings,
                    skipped,
                    child,
                    in_render_set,
                    s,
                    true,
                ));
                if through_child(edges, endings, skipped, child, in_render_set, s, true) {
                    assert(children@[i as int] == child);
                }
            }
            assert forall|s: u64| #[trigger]
                nonrender_systems@.contains(s) <==> nonrender_before.contains(s) || exists|j: int|
                    0 <= j < i + 1 && through_child(
                        edges,
                        endings,
                        skipped,
                        #[trigger] children@[j],
                        in_render_set,
                        s,
                        false,
                    ) by {
                assert(nonrender_systems@.contains(s) <==> nonrender_now.contains(s)
                    || through_child(
                    edges,
                    endings,
                    skipped,
                    child,
                    in_render_set,
                    s,
                    false,
                ));
                if through_child(edges, endings, skipped, child, in_render_set, s, false) {
                    assert(children@[i as int] == child);
                }
            }
        }
        i += 1;
    }
    proof {
        assert forall|s: u64, render: bool|
            (exists|j: int|
                0 <= j < i && through_child(
                    edges,
                    endings,
                    skipped,
                    #[trigger] children@[j],
                    in_render_set,
                    s,
                    render,
                )) <==> #[trigger] is_kind_member(
                edges,
                endings,
                skipped,
                node,
                in_render_set,
                s,
                render,
            ) by {
            if exists|j: int|
                0 <= j < i && through_child(
                    edges,
                    endings,
                    skipped,
                    #[trigger] children@[j],
                    in_render_set,
                    s,
                    render,
                ) {
                let j = choose|j: int|
                    0 <= j < i && through_child(
                        edges,
                        endings,
                        skipped,
                        #[trigger] children@[j],
                        in_render_set,
                        s,
                        render,
                    );
                assert(children@.contains(children@[j]));
                match children@[j] {
                    Node::System(sys) => {
                        lemma_system_child(edges, endings, skipped, node, in_render_set, sys);
                    },
                    Node::SystemSet(k) => {
                        lemma_set_child(edges, endings, skipped, node, in_render_set, k, s);
                    },
                }
            }
            if is_kind_member(edges, endings, skipped, node, in_render_set, s, render) {
                let child = lemma_first_child(
                    edges,
                    endings,
                    skipped,
                    node,
                    in_render_set,
                    s,
                    render,
                );
                assert(children@.contains(child));
                let j = choose|j: int| 0 <= j < children@.len() && children@[j] == child;
                assert(through_child(
                    edges,
                    endings,
                    skipped,
                    children@[j],
                    in_render_set,
                    s,
                    render,
                ));
            }
        }
        assert forall|s: u64| #[trigger]
            render_systems@.contains(s) <==> render_before.contains(s) || is_render_member(
                edges,
                endings,
                skipped,
                node,
                in_render_set,
                s,
            ) by {
            assert(is_kind_member(edges, endings, skipped, node, in_render_set, s, true)
                == is_render_member(edges, endings, skipped, node, in_render_set, s));
        }
        assert forall|s: u64| #[trigger]
            nonrender_systems@.contains(s) <==> nonrender_before.contains(s) || is_nonrender_member(
                edges,
                endings,
                skipped,
                node,
                in_render_set,
                s,
            ) by {
            assert(is_kind_member(edges, endings, skipped, node, in_render_set, s, false)
                == is_nonrender_member(edges, endings, skipped, node, in_render_set, s));
        }
    }
}

spec fn is_kind_member(
    edges: Set<(Node, Node)>,
    endings: Map<u64, u64>,
    skipped: Set<u64>,
    node: Node,
    in_render: bool,
    system: u64,
    render: bool,
) -> bool {
    if render {
        is_render_member(edges, endings, skipped, node, in_render, system)
    } else {
        is_nonrender_member(edges, endings, skipped, node, in_render, system)
    }
}

/// What a list holds after one more item.
proof fn lemma_pushed<T>(list: Seq<T>, item: T)
    ensures
        forall|x: T| #[trigger] list.push(item).contains(x) <==> list.contains(x) || x == item,
{
    assert forall|x: T| #[trigger] list.push(item).contains(x) <==> list.contains(x) || x
        == item by {
        let longer = list.push(item);
        if list.contains(x) {
            let i = choose|i: int| 0 <= i < list.len() && list[i] == x;
            assert(longer[i] == x);
        }
        if x == item {
            assert(longer[list.len() as int] == x);
        }
        if longer.contains(x) {
            let i = choose|i: int| 0 <= i < longer.len() && longer[i] == x;
            if i < list.len() {
                assert(list[i] == x);
            }
        }
    }
}

/// What two lists hold together.
proof fn lemma_joined<T>(a: Seq<T>, b: Seq<T>)
    ensures
        forall|x: T| #[trigger] (a + b).contains(x) <==> a.contains(x) || b.contains(x),
{
    assert forall|x: T| #[trigger] (a + b).contains(x) <==> a.contains(x) || b.contains(x) by {
        let both = a + b;
        if a.contains(x) {
            let i = choose|i: int| 0 <= i < a.len() && a[i] == x;
            assert(both[i] == x);
        }
        if b.contains(x) {
            let i = choose|i: int| 0 <= i < b.len() && b[i] == x;
            assert(both[a.len() + i] == x);
        }
        if both.contains(x) {
            let i = choose|i: int| 0 <= i < both.len() && both[i] == x;
            if i < a.len() {
                assert(a[i] == x);
            } else {
                assert(b[i - a.len()] == x);
            }
        }
    }
}

/// Lists the systems below a node.
pub fn collect_descendant_systems_flat(
    hierarchy: &NodeGraph,
    node: Node,
    render_sets_to_ending_systems: &BTreeMap<u64, u64>,
    in_render_set: bool,
    meta_systems: &HashSet<u64>,
) -> (r: Vec<u64>)
    requires
        hierarchy.wf(),
        graph::is_acyclic(graph::node_edges(*hierarchy)),
        node.wf(),
        endings_wf(render_sets_to_ending_systems@),
    ensures
        forall|s: u64| #[trigger]
            r@.contains(s) <==> is_member(
                graph::node_edges(*hierarchy),
                render_sets_to_ending_systems@,
                meta_systems@,
                node,
                in_render_set,
                s,
            ),
        forall|i: int| 0 <= i < r@.len() ==> graph::is_key(#[trigger] r@[i]),
{
    let mut render_systems: Vec<u64> = Vec::new();
    let mut nonrender_systems: Vec<u64> = Vec::new();
    collect_descendant_systems(
        hierarchy,
        node,
        render_sets_to_ending_systems,
        in_render_set,
        meta_systems,
        &mut render_systems,
        &mut nonrender_systems,
    );
    proof {
        lemma_joined(render_systems@, nonrender_systems@);
    }
    render_systems.append(&mut nonrender_systems);
    render_systems
}

// ---------------------------------------------------------------------------
// Edges
// ---------------------------------------------------------------------------

/// The sets of a schedule: who is a member of whom, the order that was asked
/// for, and the systems that open and close submission sets and close render
/// sets.
pub struct ScheduleSets {
    pub hierarchy: NodeGraph,
    pub dependency: NodeGraph,
    pub submission_sets_to_meta_systems: HashMap<u64, RenderSetMetaSystems>,
    pub render_sets_to_ending_systems: BTreeMap<u64, u64>,
}

impl ScheduleSets {
    pub open spec fn wf(self) -> bool {
        &&& self.hierarchy.wf()
        &&& graph::is_acyclic(graph::node_edges(self.hierarchy))
        &&& self.dependency.wf()
        &&& metas_wf(self.submission_sets_to_meta_systems@)
        &&& endings_wf(self.render_sets_to_ending_systems@)
    }

    /// `system` is below `node`.
    pub open spec fn member(self, skipped: Set<u64>, node: Node, in_render: bool, system: u64) -> bool {
        is_member(
            graph::node_edges(self.hierarchy),
            self.render_sets_to_ending_systems@,
            skipped,
            node,
            in_render,
            system,
        )
    }

    /// What runs before `node` is left: the system itself, the submission of a
    /// submission set, or every system of another set.
    pub open spec fn source(self, node: Node, system: u64) -> bool {
        match node {
            Node::System(s) => s == system,
            Node::SystemSet(k) => if self.submission_sets_to_meta_systems@.contains_key(k) {
                system == self.submission_sets_to_meta_systems@[k].submission
            } else {
                self.member(Set::empty(), node, false, system)
            },
        }
    }

    /// What runs when `node` is entered: the system itself, the prelude of a
    /// submission set, or every system of another set.
    pub open spec fn target(self, node: Node, system: u64) -> bool {
        match node {
            Node::System(s) => s == system,
            Node::SystemSet(k) => if self.submission_sets_to_meta_systems@.contains_key(k) {
                system == self.submission_sets_to_meta_systems@[k].prelude
            } else {
                self.member(Set::empty(), node, false, system)
            },
        }
    }

    /// The order asked for on the set is passed on to the systems that open
    /// (`entry`) and close (`exit`) something.
    pub open spec fn forwards(self, set: u64, entry: u64, exit: u64, a: u64, b: u64) -> bool {
        let asked = graph::node_edges(self.dependency);
        ||| b == entry && exists|n: Node| #[trigger]
            asked.contains((n, Node::SystemSet(set))) && self.source(n, a)
        ||| a == exit && exists|n: Node| #[trigger]
            asked.contains((Node::SystemSet(set), n)) && self.target(n, b)
    }

    /// The order asked for on the sets around a set is passed on.
    pub open spec fn forwards_around(
        self,
        set: u64,
        entry: u64,
        exit: u64,
        a: u64,
        b: u64,
    ) -> bool {
        exists|above: u64| #[trigger]
            graph::leads(
                graph::parent_steps(graph::node_edges(self.hierarchy)),
                set,
                above,
            ) && self.forwards(above, entry, exit, a, b)
    }

    /// The edges of a submission set: its prelude, its systems and its
    /// submission run in this order, and what was asked for on the set and on
    /// the sets around it is passed on to the prelude and the submission.
    pub open spec fn submission_edge(self, set: u64, a: u64, b: u64) -> bool {
        let meta = self.submission_sets_to_meta_systems@[set];
        let skipped = set![meta.prelude, meta.submission];
        let node = Node::SystemSet(set);
        ||| a == meta.prelude && self.member(skipped, node, false, b)
        ||| b == meta.submission && self.member(skipped, node, false, a)
        ||| a == meta.prelude && b == meta.submission
        ||| self.forwards(set, meta.prelude, meta.submission, a, b)
        ||| self.forwards_around(set, meta.prelude, meta.submission, a, b)
    }

    /// The edges of a render set: its configuration, its systems and its ending
    /// run in this order, and what was asked for on the set is passed on.
    pub open spec fn render_edge(self, set: u64, config: u64, a: u64, b: u64) -> bool {
        let ending = self.render_sets_to_ending_systems@[set];
        let node = Node::SystemSet(set);
        ||| a == config && b != config && b != ending && self.member(Set::empty(), node, true, b)
        ||| b == ending && a != config && a != ending && self.member(Set::empty(), node, true, a)
        ||| a == config && b == ending
        ||| self.forwards(set, config, ending, a, b)
    }
}

/// The systems that run before a node is left.
pub fn dependency_source_systems(sets: &ScheduleSets, node: Node) -> (r: Vec<u64>)
    requires
        sets.wf(),
        node.wf(),
    ensures
        forall|s: u64| #[trigger] r@.contains(s) <==> sets.source(node, s),
        forall|i: int| 0 <= i < r@.len() ==> graph::is_key(#[trigger] r@[i]),
{
    match node {
        Node::System(system) => single(system),
        Node::SystemSet(set) => match sets.submission_sets_to_meta_systems.get(&set) {
            Some(meta) => single(meta.submission),
            None => {
                let none: HashSet<u64> = HashSet::new();
                collect_descendant_systems_flat(
                    &sets.hierarchy,
                    node,
                    &sets.render_sets_to_ending_systems,
                    false,
                    &none,
                )
            },
        },
    }
}

/// The systems that run when a node is entered.
pub fn dependency_target_systems(sets: &ScheduleSets, node: Node) -> (r: Vec<u64>)
    requires
        sets.wf(),
        node.wf(),
    ensures
        forall|s: u64| #[trigger] r@.contains(s) <==> sets.target(node, s),
        forall|i: int| 0 <= i < r@.len() ==> graph::is_key(#[trigger] r@[i]),
{
    match node {
        Node::System(system) => single(system),
        Node::SystemSet(set) => match sets.submission_sets_to_meta_systems.get(&set) {
            Some(meta) => single(meta.prelude),
            None => {
                let none: HashSet<u64> = HashSet::new();
                collect_descendant_systems_flat(
                    &sets.hierarchy,
                    node,
                    &sets.render_sets_to_ending_systems,
                    false,
                    &none,
                )
            },
        },
    }
}

fn single(system: u64) -> (r: Vec<u64>)
    ensures
        r@ == seq![system],
        forall|s: u64| #[trigger] r@.contains(s) <==> s == system,
{
    let mut r: Vec<u64> = Vec::new();
    r.push(system);
    proof {
        lemma_pushed(Seq::<u64>::empty(), system);
        assert(r@ =~= Seq::<u64>::empty().push(system));
    }
    r
}

/// Adds an edge from each of the systems to `to`.
fn add_edges_to(graph: &mut SystemGraph, systems: &Vec<u64>, to: u64)
    requires
        old(graph).wf(),
        forall|i: int| 0 <= i < systems@.len() ==> graph::is_key(#[trigger] systems@[i]),
        graph::is_key(to),
    ensures
        final(graph).wf(),
        forall|a: u64, b: u64| #[trigger]
            graph::system_edges(*final(graph)).contains((a, b)) <==> graph::system_edges(
                *old(graph),
            ).contains((a, b)) || (b == to && systems@.contains(a)),
{
    let ghost start = graph::system_edges(*graph);
    let mut i: usize = 0;
    while i < systems.len()
        invariant
            i <= systems@.len(),
            graph.wf(),
            start == graph::system_edges(*old(graph)),
            forall|j: int| 0 <= j < systems@.len() ==> graph::is_key(#[trigger] systems@[j]),
            graph::is_key(to),
            forall|a: u64, b: u64| #[trigger]
                graph::system_edges(*graph).contains((a, b)) <==> start.contains((a, b)) || (b == to
                    && systems@.take(i as int).contains(a)),
        decreases systems@.len() - i,
    {
        graph.add_edge(systems[i], to);
        proof {
            lemma_pushed(systems@.take(i as int), systems@[i as int]);
            assert(systems@.take(i + 1) =~= systems@.take(i as int).push(systems@[i as int]));
        }
        i += 1;
    }
    assert(systems@.take(i as int) =~= systems@);
}

/// Adds an edge from `from` to each of the systems.
fn add_edges_from(graph: &mut SystemGraph, from: u64, systems: &Vec<u64>)
    requires
        old(graph).wf(),
        forall|i: int| 0 <= i < systems@.len() ==> graph::is_key(#[trigger] systems@[i]),
        graph::is_key(from),
    ensures
        final(graph).wf(),
        forall|a: u64, b: u64| #[trigger]
            graph::system_edges(*final(graph)).contains((a, b)) <==> graph::system_edges(
                *old(graph),
            ).contains((a, b)) || (a == from && systems@.contains(b)),
{
    let ghost start = graph::system_edges(*graph);
    let mut i: usize = 0;
    while i < systems.len()
        invariant
            i <= systems@.len(),
            graph.wf(),
            start == graph::system_edges(*old(graph)),
            forall|j: int| 0 <= j < systems@.len() ==> graph::is_key(#[trigger] systems@[j]),
            graph::is_key(from),
            forall|a: u64, b: u64| #[trigger]
                graph::system_edges(*graph).contains((a, b)) <==> start.contains((a, b)) || (a
                    == from && systems@.take(i as int).contains(b)),
        decreases systems@.len() - i,
    {
        graph.add_edge(from, systems[i]);
        proof {
            lemma_pushed(systems@.take(i as int), systems@[i as int]);
            assert(systems@.take(i + 1) =~= systems@.take(i as int).push(systems@[i as int]));
        }
        i += 1;
    }
    assert(systems@.take(i as int) =~= systems@);
}

/// Passes the order asked for on a set on to the systems that open and close
/// something.
pub fn add_forwarded_set_dependencies(
    sets: &ScheduleSets,
    dependency_flattened: &mut SystemGraph,
    set_key: u64,
    entry_system: u64,
    exit_system: u64,
)
    requires
        sets.wf(),
        old(dependency_flattened).wf(),
        graph::is_key(set_key),
        graph::is_key(entry_system),
        graph::is_key(exit_system),
    ensures
        final(dependency_flattened).wf(),
        forall|a: u64, b: u64| #[trigger]
            graph::system_edges(*final(dependency_flattened)).contains((a, b))
                <==> graph::system_edges(*old(dependency_flattened)).contains((a, b))
                || sets.forwards(set_key, entry_system, exit_system, a, b),
{
    let ghost start = graph::system_edges(*dependency_flattened);
    let ghost asked = graph::node_edges(sets.dependency);
    let node = Node::SystemSet(set_key);
    let parents = sets.dependency.adjacent(node, Direction::Incoming);
    let mut i: usize = 0;
    while i < parents.len()
        invariant
            i <= parents@.len(),
            sets.wf(),
            dependency_flattened.wf(),
            graph::is_key(entry_system),
            start == graph::system_edges(*old(dependency_flattened)),
            forall|j: int| 0 <= j < parents@.len() ==> (#[trigger] parents@[j]).wf(),
            forall|a: u64, b: u64| #[trigger]
                graph::system_edges(*dependency_flattened).contains((a, b)) <==> start.contains(
                    (a, b),
                ) || (b == entry_system && exists|j: int|
                    0 <= j < i && sets.source(#[trigger] parents@[j], a)),
        decreases parents@.len() - i,
    {
        let ghost now = graph::system_edges(*dependency_flattened);
        let systems = dependency_source_systems(sets, parents[i]);
        add_edges_to(dependency_flattened, &systems, entry_system);
        assert forall|a: u64, b: u64| #[trigger]
            graph::system_edges(*dependency_flattened).contains((a, b)) <==> start.contains((a, b))
                || (b == entry_system && exists|j: int|
                0 <= j < i + 1 && sets.source(#[trigger] parents@[j], a)) by {
            assert(graph::system_edges(*dependency_flattened).contains((a, b)) <==> now.contains(
                (a, b),
            ) || (b == entry_system && systems@.contains(a)));
            assert(systems@.contains(a) <==> sets.source(parents@[i as int], a));
        }
        i += 1;
    }
    let ghost middle = graph::system_edges(*dependency_flattened);
    let children = sets.dependency.adjacent(node, Direction::Outgoing);
    let mut k: usize = 0;
    while k < children.len()
        invariant
            k <= children@.len(),
            sets.wf(),
            dependency_flattened.wf(),
            graph::is_key(exit_system),
            forall|j: int| 0 <= j < children@.len() ==> (#[trigger] children@[j]).wf(),
            forall|a: u64, b: u64| #[trigger]
                graph::system_edges(*dependency_flattened).contains((a, b)) <==> middle.contains(
                    (a, b),
                ) || (a == exit_system && exists|j: int|
                    0 <= j < k && sets.target(#[trigger] children@[j], b)),
        decreases children@.len() - k,
    {
        let ghost now = graph::system_edges(*dependency_flattened);
        let systems = dependency_target_systems(sets, children[k]);
        add_edges_from(dependency_flattened, exit_system, &systems);
        assert forall|a: u64, b: u64| #[trigger]
            graph::system_edges(*dependency_flattened).contains((a, b)) <==> middle.contains((a, b))
                || (a == exit_system && exists|j: int|
                0 <= j < k + 1 && sets.target(#[trigger] children@[j], b)) by {
            assert(graph::system_edges(*dependency_flattened).contains((a, b)) <==> now.contains(
                (a, b),
            ) || (a == exit_system && systems@.contains(b)));
            assert(systems@.contains(b) <==> sets.target(children@[k as int], b));
        }
        k += 1;
    }
    assert forall|a: u64, b: u64| #[trigger]
        graph::system_edges(*dependency_flattened).contains((a, b)) <==> start.contains((a, b))
            || sets.forwards(set_key, entry_system, exit_system, a, b) by {
        assert(graph::system_edges(*dependency_flattened).contains((a, b)) <==> middle.contains(
            (a, b),
        ) || (a == exit_system && exists|j: int|
            0 <= j < k && sets.target(#[trigger] children@[j], b)));
        assert(middle.contains((a, b)) <==> start.contains((a, b)) || (b == entry_system && exists|
            j: int,
        |
            0 <= j < i && sets.source(#[trigger] parents@[j], a)));
        if exists|j: int| 0 <= j < k && sets.target(#[trigger] children@[j], b) {
            let j = choose|j: int| 0 <= j < k && sets.target(#[trigger] children@[j], b);
            assert(children@.contains(children@[j]));
            assert(asked.contains((node, children@[j])));
        }
        if exists|j: int| 0 <= j < i && sets.source(#[trigger] parents@[j], a) {
            let j = choose|j: int| 0 <= j < i && sets.source(#[trigger] parents@[j], a);
            assert(parents@.contains(parents@[j]));
            assert(asked.contains((parents@[j], node)));
        }
        if exists|n: Node| #[trigger] asked.contains((n, node)) && sets.source(n, a) {
            let n = choose|n: Node| #[trigger] asked.contains((n, node)) && sets.source(n, a);
            assert(parents@.contains(n));
            let j = choose|j: int| 0 <= j < parents@.len() && parents@[j] == n;
            assert(sets.source(parents@[j], a));
        }
        if exists|n: Node| #[trigger] asked.contains((node, n)) && sets.target(n, b) {
            let n = choose|n: Node| #[trigger] asked.contains((node, n)) && sets.target(n, b);
            assert(children@.contains(n));
            let j = choose|j: int| 0 <= j < children@.len() && children@[j] == n;
            assert(sets.target(children@[j], b));
        }
    }
}

/// Passes the order asked for on the sets around a set on.
pub fn add_forwarded_ancestor_set_dependencies(
    sets: &ScheduleSets,
    dependency_flattened: &mut SystemGraph,
    set_key: u64,
    entry_system: u64,
    exit_system: u64,
)
    requires
        sets.wf(),
        old(dependency_flattened).wf(),
        graph::is_key(set_key),
        graph::is_key(entry_system),
        graph::is_key(exit_system),
    ensures
        final(dependency_flattened).wf(),
        forall|a: u64, b: u64| #[trigger]
            graph::system_edges(*final(dependency_flattened)).contains((a, b))
                <==> graph::system_edges(*old(dependency_flattened)).contains((a, b))
                || sets.forwards_around(set_key, entry_system, exit_system, a, b),
{
    let ghost start = graph::system_edges(*dependency_flattened);
    let ghost steps = graph::parent_steps(graph::node_edges(sets.hierarchy));
    let ancestors = ancestor_sets(&sets.hierarchy, set_key);
    let mut i: usize = 0;
    while i < ancestors.len()
        invariant
            i <= ancestors@.len(),
            sets.wf(),
            dependency_flattened.wf(),
            graph::is_key(entry_system),
            graph::is_key(exit_system),
            start == graph::system_edges(*old(dependency_flattened)),
            forall|j: int| 0 <= j < ancestors@.len() ==> graph::is_key(#[trigger] ancestors@[j]),
            forall|a: u64, b: u64| #[trigger]
                graph::system_edges(*dependency_flattened).contains((a, b)) <==> start.contains(
                    (a, b),
                ) || exists|j: int|
                    0 <= j < i && sets.forwards(
                        #[trigger] ancestors@[j],
                        entry_system,
                        exit_system,
                        a,
                        b,
                    ),
        decreases ancestors@.len() - i,
    {
        let ghost now = graph::system_edges(*dependency_flattened);
        add_forwarded_set_dependencies(
            sets,
            dependency_flattened,
            ancestors[i],
            entry_system,
            exit_system,
        );
        assert forall|a: u64, b: u64| #[trigger]
            graph::system_edges(*dependency_flattened).contains((a, b)) <==> start.contains((a, b))
                || exists|j: int|
                0 <= j < i + 1 && sets.forwards(
                    #[trigger] ancestors@[j],
                    entry_system,
                    exit_system,
                    a,
                    b,
                ) by {
            assert(graph::system_edges(*dependency_flattened).contains((a, b)) <==> now.contains(
                (a, b),
            ) || sets.forwards(ancestors@[i as int], entry_system, exit_system, a, b));
        }
        i += 1;
    }
    assert forall|a: u64, b: u64| #[trigger]
        graph::system_edges(*dependency_flattened).contains((a, b)) <==> start.contains((a, b))
            || sets.forwards_around(set_key, entry_system, exit_system, a, b) by {
        if exists|j: int|
            0 <= j < i && sets.forwards(
                #[trigger] ancestors@[j],
                entry_system,
                exit_system,
                a,
                b,
            ) {
            let j = choose|j: int|
                0 <= j < i && sets.forwards(
                    #[trigger] ancestors@[j],
                    entry_system,
                    exit_system,
                    a,
                    b,
                );
            assert(ancestors@.contains(ancestors@[j]));
            assert(graph::leads(steps, set_key, ancestors@[j]));
        }
        if sets.forwards_around(set_key, entry_system, exit_system, a, b) {
            let above = choose|above: u64| #[trigger]
                graph::leads(steps, set_key, above) && sets.forwards(
                    above,
                    entry_system,
                    exit_system,
                    a,
                    b,
                );
            assert(ancestors@.contains(above));
            let j = choose|j: int| 0 <= j < ancestors@.len() && ancestors@[j] == above;
            assert(sets.forwards(ancestors@[j], entry_system, exit_system, a, b));
        }
    }
}

// ---------------------------------------------------------------------------
// Sets of a schedule
// ---------------------------------------------------------------------------

/// The sets that are in the schedule and not among the known ones, each once,
/// in order.
pub open spec fn fresh_sets(keys: Seq<Option<u64>>, known: Set<u64>) -> Seq<u64>
    decreases keys.len(),
{
    if keys.len() == 0 {
        Seq::empty()
    } else {
        let earlier = fresh_sets(keys.drop_last(), known);
        match keys.last() {
            Some(k) => if known.contains(k) || earlier.contains(k) {
                earlier
            } else {
                earlier.push(k)
            },
            None => earlier,
        }
    }
}

/// A set is fresh where it is in the schedule and not known yet; each fresh one is
/// listed once.
pub proof fn law_fresh_sets_are_listed_once(keys: Seq<Option<u64>>, known: Set<u64>, set: u64)
    ensures
        fresh_sets(keys, known).contains(set) <==> keys.contains(Some(set)) && !known.contains(set),
        fresh_sets(keys, known).no_duplicates(),
    decreases keys.len(),
{
    if keys.len() > 0 {
        let init = keys.drop_last();
        let last = keys[keys.len() - 1];
        law_fresh_sets_are_listed_once(init, known, set);
        let earlier = fresh_sets(init, known);
        let now = fresh_sets(keys, known);
        if keys.contains(Some(set)) && last != Some(set) {
            let i = choose|i: int| 0 <= i < keys.len() && keys[i] == Some(set);
            assert(init[i] == Some(set));
        }
        if init.contains(Some(set)) {
            let i = choose|i: int| 0 <= i < init.len() && init[i] == Some(set);
            assert(keys[i] == Some(set));
        }
        if last == Some(set) {
            assert(keys.contains(Some(set)));
        }
        if let Some(k) = last {
            if !known.contains(k) && !earlier.contains(k) {
                assert(now == earlier.push(k));
                assert(now[earlier.len() as int] == k);
                if earlier.contains(set) {
                    let i = choose|i: int| 0 <= i < earlier.len() && earlier[i] == set;
                    assert(now[i] == set);
                }
                if now.contains(set) && set != k {
                    let i = choose|i: int| 0 <= i < now.len() && now[i] == set;
                    assert(earlier[i] == set);
                }
                assert(now.no_duplicates()) by {
                    assert forall|i: int, j: int|
                        0 <= i < now.len() && 0 <= j < now.len() && i != j implies now[i] != now[
                        j
                    ] by {
                        if i == earlier.len() {
                            assert(earlier[j] == now[j]);
                        } else if j == earlier.len() {
                            assert(earlier[i] == now[i]);
                        } else {
                            assert(earlier[i] == now[i] && earlier[j] == now[j]);
                        }
                    }
                }
            }
        }
    }
}

/// Whether a list holds an item.
pub(crate) fn is_listed(list: &[u64], item: u64) -> (r: bool)
    ensures
        r == list@.contains(item),
{
    let mut i: usize = 0;
    while i < list.len()
        invariant
            i <= list@.len(),
            forall|j: int| 0 <= j < i ==> list@[j] != item,
        decreases list@.len() - i,
    {
        if list[i] == item {
            assert(list@[i as int] == item);
            return true;
        }
        i += 1;
    }
    false
}

/// The render sets that still need a system that closes them. A set without a
/// key is not in the schedule.
pub fn missing_ending_systems(
    render_sets: &[Option<u64>],
    render_sets_to_ending_systems: &BTreeMap<u64, u64>,
) -> (r: Vec<u64>)
    ensures
        r@ == fresh_sets(render_sets@, render_sets_to_ending_systems@.dom()),
{
    let mut missing: Vec<u64> = Vec::new();
    let mut i: usize = 0;
    while i < render_sets.len()
        invariant
            i <= render_sets@.len(),
            missing@ == fresh_sets(
                render_sets@.take(i as int),
                render_sets_to_ending_systems@.dom(),
            ),
        decreases render_sets@.len() - i,
    {
        assert(render_sets@.take(i + 1).drop_last() =~= render_sets@.take(i as int));
        if let Some(key) = render_sets[i] {
            if !render_sets_to_ending_systems.contains_key(&key) && !is_listed(missing.as_slice(), key) {
                missing.push(key);
            }
        }
        i += 1;
    }
    assert(render_sets@.take(i as int) =~= render_sets@);
    missing
}

/// The submission sets that still need systems that open and close them.
pub fn missing_meta_systems(
    submission_sets: &[Option<u64>],
    submission_sets_to_meta_systems: &HashMap<u64, RenderSetMetaSystems>,
) -> (r: Vec<u64>)
    ensures
        r@ == fresh_sets(submission_sets@, submission_sets_to_meta_systems@.dom()),
{
    let mut missing: Vec<u64> = Vec::new();
    let mut i: usize = 0;
    while i < submission_sets.len()
        invariant
            i <= submission_sets@.len(),
            missing@ == fresh_sets(
                submission_sets@.take(i as int),
                submission_sets_to_meta_systems@.dom(),
            ),
        decreases submission_sets@.len() - i,
    {
        assert(submission_sets@.take(i + 1).drop_last() =~= submission_sets@.take(i as int));
        if let Some(key) = submission_sets[i] {
            if !submission_sets_to_meta_systems.contains_key(&key) && !is_listed(missing.as_slice(), key) {
                missing.push(key);
            }
        }
        i += 1;
    }
    assert(submission_sets@.take(i as int) =~= submission_sets@);
    missing
}

/// A render set is not in exactly one submission set.
#[derive(Debug, Clone, Copy, PartialEq, Eq, Structural)]
pub struct RenderSetParentError {
    /// The render set.
    pub render_set: u64,
    /// The number of submission sets that it is in.
    pub count: usize,
}

/// The submission sets that a set is in.
pub open spec fn submission_parents(
    hierarchy: Set<(Node, Node)>,
    submission_sets: Seq<Option<u64>>,
    set: u64,
) -> Set<u64> {
    Set::new(
        |k: u64|
            graph::leads(graph::parent_steps(hierarchy), set, k) && submission_sets.contains(
                Some(k),
            ),
    )
}

/// Whether a render set is in exactly one submission set.
pub fn validate_render_set_parent(
    hierarchy: &NodeGraph,
    render_set_key: u64,
    submission_sets: &[Option<u64>],
) -> (r: Result<(), RenderSetParentError>)
    requires
        hierarchy.wf(),
        graph::is_key(render_set_key),
    ensures
        submission_parents(
            graph::node_edges(*hierarchy),
            submission_sets@,
            render_set_key,
        ).finite(),
        ({
            let n = submission_parents(
                graph::node_edges(*hierarchy),
                submission_sets@,
                render_set_key,
            ).len();
            match r {
                Ok(_) => n == 1,
                Err(e) => n != 1 && e.render_set == render_set_key && e.count == n,
            }
        }),
{
    let ghost parents = submission_parents(
        graph::node_edges(*hierarchy),
        submission_sets@,
        render_set_key,
    );
    let ancestors = ancestor_sets(hierarchy, render_set_key);
    let ghost mut counted: Set<u64> = Set::empty();
    let mut count: usize = 0;
    let mut i: usize = 0;
    while i < ancestors.len()
        invariant
            i <= ancestors@.len(),
            count <= i,
            ancestors@.no_duplicates(),
            counted.finite(),
            counted.len() == count,
            forall|k: u64| #[trigger]
                counted.contains(k) <==> ancestors@.take(i as int).contains(k)
                    && submission_sets@.contains(Some(k)),
        decreases ancestors@.len() - i,
    {
        let key: u64 = ancestors[i];
        let mut found = false;
        let mut j: usize = 0;
        while j < submission_sets.len()
            invariant
                j <= submission_sets@.len(),
                found <==> exists|x: int| 0 <= x < j && #[trigger] submission_sets@[x] == Some(key),
            decreases submission_sets@.len() - j,
        {
            let here = match submission_sets[j] {
                Some(k) => k == key,
                None => false,
            };
            if here {
                assert(submission_sets@[j as int] == Some(key));
                found = true;
            }
            j += 1;
        }
        proof {
            lemma_pushed(ancestors@.take(i as int), key);
            assert(ancestors@.take(i + 1) =~= ancestors@.take(i as int).push(key));
            assert(!ancestors@.take(i as int).contains(key)) by {
                if ancestors@.take(i as int).contains(key) {
                    let x = choose|x: int| 0 <= x < i && ancestors@.take(i as int)[x] == key;
                    assert(ancestors@[x] == ancestors@[i as int]);
                }
            }
        }
        if found {
            proof {
                counted = counted.insert(key);
            }
            count += 1;
        }
        i += 1;
    }
    proof {
        assert(ancestors@.take(i as int) =~= ancestors@);
        assert(counted =~= parents);
    }
    if count == 1 {
        Ok(())
    } else {
        Err(RenderSetParentError { render_set: render_set_key, count })
    }
}

fn opening_and_closing(meta: &RenderSetMetaSystems) -> (r: HashSet<u64>)
    ensures
        r@ == set![meta.prelude, meta.submission],
{
    let mut both: HashSet<u64> = HashSet::new();
    both.insert(meta.prelude);
    both.insert(meta.submission);
    assert(both@ =~= set![meta.prelude, meta.submission]);
    both
}

/// Adds the edges of a submission set, and lists its systems.
pub fn add_submission_set_edges(
    sets: &ScheduleSets,
    dependency_flattened: &mut SystemGraph,
    set_key: u64,
) -> (r: Vec<u64>)
    requires
        sets.wf(),
        old(dependency_flattened).wf(),
        graph::is_key(set_key),
        sets.submission_sets_to_meta_systems@.contains_key(set_key),
    ensures
        final(dependency_flattened).wf(),
        forall|a: u64, b: u64| #[trigger]
            graph::system_edges(*final(dependency_flattened)).contains((a, b))
                <==> graph::system_edges(*old(dependency_flattened)).contains((a, b))
                || sets.submission_edge(set_key, a, b),
        forall|s: u64| #[trigger]
            r@.contains(s) <==> sets.member(
                set![
                    sets.submission_sets_to_meta_systems@[set_key].prelude,
                    sets.submission_sets_to_meta_systems@[set_key].submission,
                ],
                Node::SystemSet(set_key),
                false,
                s,
            ),
{
    let ghost start = graph::system_edges(*dependency_flattened);
    let meta: RenderSetMetaSystems = *sets.submission_sets_to_meta_systems.get(&set_key).unwrap();
    let skipped = opening_and_closing(&meta);
    let users = collect_descendant_systems_flat(
        &sets.hierarchy,
        Node::SystemSet(set_key),
        &sets.render_sets_to_ending_systems,
        false,
        &skipped,
    );
    add_edges_from(dependency_flattened, meta.prelude, &users);
    let ghost opened = graph::system_edges(*dependency_flattened);
    add_edges_to(dependency_flattened, &users, meta.submission);
    let ghost closed = graph::system_edges(*dependency_flattened);
    dependency_flattened.add_edge(meta.prelude, meta.submission);
    let ghost bracketed = graph::system_edges(*dependency_flattened);
    add_forwarded_set_dependencies(
        sets,
        dependency_flattened,
        set_key,
        meta.prelude,
        meta.submission,
    );
    let ghost forwarded = graph::system_edges(*dependency_flattened);
    add_forwarded_ancestor_set_dependencies(
        sets,
        dependency_flattened,
        set_key,
        meta.prelude,
        meta.submission,
    );
    assert forall|a: u64, b: u64| #[trigger]
        graph::system_edges(*dependency_flattened).contains((a, b)) <==> start.contains((a, b))
            || sets.submission_edge(set_key, a, b) by {
        assert(forwarded.contains((a, b)) <==> bracketed.contains((a, b)) || sets.forwards(
            set_key,
            meta.prelude,
            meta.submission,
            a,
            b,
        ));
        assert(bracketed.contains((a, b)) <==> closed.contains((a, b)) || (a == meta.prelude && b
            == meta.submission));
        assert(closed.contains((a, b)) <==> opened.contains((a, b)) || (b == meta.submission
            && users@.contains(a)));
        assert(opened.contains((a, b)) <==> start.contains((a, b)) || (a == meta.prelude
            && users@.contains(b)));
    }
    users
}

/// Adds the edges of a render set.
pub fn add_render_set_edges(
    sets: &ScheduleSets,
    dependency_flattened: &mut SystemGraph,
    set_key: u64,
    config_system: u64,
)
    requires
        sets.wf(),
        old(dependency_flattened).wf(),
        graph::is_key(set_key),
        graph::is_key(config_system),
        sets.render_sets_to_ending_systems@.contains_key(set_key),
    ensures
        final(dependency_flattened).wf(),
        forall|a: u64, b: u64| #[trigger]
            graph::system_edges(*final(dependency_flattened)).contains((a, b))
                <==> graph::system_edges(*old(dependency_flattened)).contains((a, b))
                || sets.render_edge(set_key, config_system, a, b),
{
    let ghost start = graph::system_edges(*dependency_flattened);
    let ending: u64 = *sets.render_sets_to_ending_systems.get(&set_key).unwrap();
    let none: HashSet<u64> = HashSet::new();
    let members = collect_descendant_systems_flat(
        &sets.hierarchy,
        Node::SystemSet(set_key),
        &sets.render_sets_to_ending_systems,
        true,
        &none,
    );
    let mut users: Vec<u64> = Vec::new();
    let mut i: usize = 0;
    while i < members.len()
        invariant
            i <= members@.len(),
            forall|j: int| 0 <= j < members@.len() ==> graph::is_key(#[trigger] members@[j]),
            forall|j: int| 0 <= j < users@.len() ==> graph::is_key(#[trigger] users@[j]),
            forall|s: u64| #[trigger]
                users@.contains(s) <==> s != config_system && s != ending && members@.take(
                    i as int,
                ).contains(s),
        decreases members@.len() - i,
    {
        let system: u64 = members[i];
        proof {
            lemma_pushed(members@.take(i as int), system);
            assert(members@.take(i + 1) =~= members@.take(i as int).push(system));
            lemma_pushed(users@, system);
        }
        if system != config_system && system != ending {
            users.push(system);
        }
        i += 1;
    }
    assert(members@.take(i as int) =~= members@);
    add_edges_from(dependency_flattened, config_system, &users);
    let ghost opened = graph::system_edges(*dependency_flattened);
    add_edges_to(dependency_flattened, &users, ending);
    let ghost closed = graph::system_edges(*dependency_flattened);
    dependency_flattened.add_edge(config_system, ending);
    let ghost bracketed = graph::system_edges(*dependency_flattened);
    add_forwarded_set_dependencies(sets, dependency_flattened, set_key, config_system, ending);
    assert forall|a: u64, b: u64| #[trigger]
        graph::system_edges(*dependency_flattened).contains((a, b)) <==> start.contains((a, b))
            || sets.render_edge(set_key, config_system, a, b) by {
        assert(bracketed.contains((a, b)) <==> closed.contains((a, b)) || (a == config_system && b
            == ending));
        assert(closed.contains((a, b)) <==> opened.contains((a, b)) || (b == ending
            && users@.contains(a)));
        assert(opened.contains((a, b)) <==> start.contains((a, b)) || (a == config_system
            && users@.contains(b)));
        assert(members@.contains(a) <==> sets.member(
            Set::empty(),
            Node::SystemSet(set_key),
            true,
            a,
        ));
        assert(members@.contains(b) <==> sets.member(
            Set::empty(),
            Node::SystemSet(set_key),
            true,
            b,
        ));
    }
}

/// Groups the systems of a submission set.
fn group_submission_set(
    sets: &ScheduleSets,
    dependency_flattened: &mut SystemGraph,
    set_key: u64,
)
    requires
        sets.wf(),
        old(dependency_flattened).wf(),
        graph::is_key(set_key),
        sets.submission_sets_to_meta_systems@.contains_key(set_key),
    ensures
        final(dependency_flattened).wf(),
        sets.grouped(
            Some(set_key),
            graph::system_edges(*old(dependency_flattened)),
            graph::system_edges(*final(dependency_flattened)),
        ),
{
    let meta: RenderSetMetaSystems = *sets.submission_sets_to_meta_systems.get(&set_key).unwrap();
    let skipped = opening_and_closing(&meta);
    let mut render_systems: Vec<u64> = Vec::new();
    let mut nonrender_systems: Vec<u64> = Vec::new();
    collect_descendant_systems(
        &sets.hierarchy,
        Node::SystemSet(set_key),
        &sets.render_sets_to_ending_systems,
        false,
        &skipped,
        &mut render_systems,
        &mut nonrender_systems,
    );
    proof {
        assert forall|x: u64| render_systems@.to_set().contains(x)
            <==> sets.render_members(set_key).contains(x) by {
            assert(render_systems@.contains(x) <==> is_render_member(
                graph::node_edges(sets.hierarchy),
                sets.render_sets_to_ending_systems@,
                skipped@,
                Node::SystemSet(set_key),
                false,
                x,
            ));
        }
        assert(render_systems@.to_set() =~= sets.render_members(set_key));
        assert forall|x: u64| nonrender_systems@.to_set().contains(x)
            <==> sets.nonrender_members(set_key).contains(x) by {
            assert(nonrender_systems@.contains(x) <==> is_nonrender_member(
                graph::node_edges(sets.hierarchy),
                sets.render_sets_to_ending_systems@,
                skipped@,
                Node::SystemSet(set_key),
                false,
                x,
            ));
        }
        assert(nonrender_systems@.to_set() =~= sets.nonrender_members(set_key));
    }
    add_render_grouping_edges(
        dependency_flattened,
        render_systems.as_slice(),
        nonrender_systems.as_slice(),
    );
}

impl ScheduleSets {
    /// The render systems of a submission set.
    pub open spec fn render_members(self, set: u64) -> Set<u64> {
        let meta = self.submission_sets_to_meta_systems@[set];
        Set::new(
            |s: u64|
                is_render_member(
                    graph::node_edges(self.hierarchy),
                    self.render_sets_to_ending_systems@,
                    set![meta.prelude, meta.submission],
                    Node::SystemSet(set),
                    false,
                    s,
                ),
        )
    }

    /// The other systems of a submission set.
    pub open spec fn nonrender_members(self, set: u64) -> Set<u64> {
        let meta = self.submission_sets_to_meta_systems@[set];
        Set::new(
            |s: u64|
                is_nonrender_member(
                    graph::node_edges(self.hierarchy),
                    self.render_sets_to_ending_systems@,
                    set![meta.prelude, meta.submission],
                    Node::SystemSet(set),
                    false,
                    s,
                ),
        )
    }

    /// A submission set that is in the schedule.
    pub open spec fn has_submission_set(self, set: Option<u64>) -> bool {
        set is Some && self.submission_sets_to_meta_systems@.contains_key(set->0)
    }

    /// A render set that is in the schedule.
    pub open spec fn has_render_set(self, set: Option<u64>) -> bool {
        set is Some && self.render_sets_to_ending_systems@.contains_key(set->0)
    }

    /// The systems of one submission set are grouped.
    pub open spec fn grouped(
        self,
        set: Option<u64>,
        before: Set<(u64, u64)>,
        after: Set<(u64, u64)>,
    ) -> bool {
        if self.has_submission_set(set) {
            grouping::is_grouped(
                before,
                after,
                self.render_members(set->0),
                self.nonrender_members(set->0),
            )
        } else {
            after == before
        }
    }

    /// The graph after each submission set was grouped: from `steps[i]` to
    /// `steps[i + 1]`, set `i` is.
    pub open spec fn is_grouping_run(
        self,
        submission_sets: Seq<Option<u64>>,
        steps: Seq<Set<(u64, u64)>>,
    ) -> bool {
        &&& steps.len() == submission_sets.len() + 1
        &&& forall|i: int, j: int|
            #![trigger steps[i], steps[j]]
            0 <= i && j == i + 1 && j < steps.len() ==> self.grouped(
                submission_sets[i],
                steps[i],
                steps[j],
            )
    }

    /// The systems of the submission sets are grouped, one set after the other.
    pub open spec fn all_grouped(
        self,
        submission_sets: Seq<Option<u64>>,
        before: Set<(u64, u64)>,
        after: Set<(u64, u64)>,
    ) -> bool {
        exists|steps: Seq<Set<(u64, u64)>>| #[trigger]
            self.is_grouping_run(submission_sets, steps) && steps.first() == before && steps.last()
                == after
    }

    /// The edges that the submission sets and render sets ask for.
    pub open spec fn asks(
        self,
        submission_sets: Seq<Option<u64>>,
        render_sets: Seq<(Option<u64>, u64)>,
        a: u64,
        b: u64,
    ) -> bool {
        ||| exists|i: int|
            0 <= i < submission_sets.len() && self.has_submission_set(
                #[trigger] submission_sets[i],
            ) && self.submission_edge(submission_sets[i]->0, a, b)
        ||| exists|i: int|
            0 <= i < render_sets.len() && self.has_render_set((#[trigger] render_sets[i]).0)
                && self.render_edge(render_sets[i].0->0, render_sets[i].1, a, b)
    }

    /// A graph with the edges that the sets ask for.
    pub open spec fn with_asked(
        self,
        submission_sets: Seq<Option<u64>>,
        render_sets: Seq<(Option<u64>, u64)>,
        edges: Set<(u64, u64)>,
    ) -> Set<(u64, u64)> {
        Set::new(
            |e: (u64, u64)|
                edges.contains(e) || self.asks(submission_sets, render_sets, e.0, e.1),
        )
    }

    /// A render set is in the schedule, but not in exactly one submission set.
    pub open spec fn misplaced(
        self,
        submission_sets: Seq<Option<u64>>,
        render_set: (Option<u64>, u64),
    ) -> bool {
        self.has_render_set(render_set.0) && submission_parents(
            graph::node_edges(self.hierarchy),
            submission_sets,
            render_set.0->0,
        ).len() != 1
    }
}

/// Orders the systems of the submission sets and render sets of a schedule.
///
/// Lists the systems of each submission set; the error is that of the first
/// render set that is not in exactly one submission set.
pub fn build(
    sets: &ScheduleSets,
    dependency_flattened: &mut SystemGraph,
    submission_sets: &[Option<u64>],
    render_sets: &[(Option<u64>, u64)],
) -> (r: Result<Vec<Vec<u64>>, RenderSetParentError>)
    requires
        sets.wf(),
        old(dependency_flattened).wf(),
        forall|i: int|
            0 <= i < submission_sets@.len() && (#[trigger] submission_sets@[i]) is Some
                ==> graph::is_key(submission_sets@[i]->0),
        forall|i: int|
            0 <= i < render_sets@.len() ==> graph::is_key((#[trigger] render_sets@[i]).1) && (
            render_sets@[i].0 is Some ==> graph::is_key(render_sets@[i].0->0)),
    ensures
        final(dependency_flattened).wf(),
        match r {
            Ok(users) => {
                &&& forall|i: int|
                    0 <= i < render_sets@.len() ==> !sets.misplaced(
                        submission_sets@,
                        #[trigger] render_sets@[i],
                    )
                &&& sets.all_grouped(
                    submission_sets@,
                    sets.with_asked(
                        submission_sets@,
                        render_sets@,
                        graph::system_edges(*old(dependency_flattened)),
                    ),
                    graph::system_edges(*final(dependency_flattened)),
                )
                &&& users@.len() == submission_sets@.len()
                &&& forall|i: int, s: u64|
                    0 <= i < users@.len() ==> (#[trigger] users@[i]@.contains(s)
                        <==> sets.has_submission_set(submission_sets@[i]) && (sets.render_members(
                        submission_sets@[i]->0,
                    ).contains(s) || sets.nonrender_members(submission_sets@[i]->0).contains(s)))
            },
            Err(e) => exists|i: int| #[trigger]
                is_first_misplaced(sets, submission_sets@, render_sets@, i) && e.render_set
                    == render_sets@[i].0->0 && e.count == submission_parents(
                    graph::node_edges(sets.hierarchy),
                    submission_sets@,
                    render_sets@[i].0->0,
                ).len(),
        },
{
    let ghost start = graph::system_edges(*dependency_flattened);
    let mut users: Vec<Vec<u64>> = Vec::new();
    while users.len() < submission_sets.len()
        invariant
            users@.len() <= submission_sets@.len(),
            sets.wf(),
            dependency_flattened.wf(),
            start == graph::system_edges(*old(dependency_flattened)),
            forall|i: int|
                0 <= i < submission_sets@.len() && (#[trigger] submission_sets@[i]) is Some
                    ==> graph::is_key(submission_sets@[i]->0),
            forall|i: int, s: u64|
                0 <= i < users@.len() ==> (#[trigger] users@[i]@.contains(s)
                    <==> sets.has_submission_set(submission_sets@[i]) && (sets.render_members(
                    submission_sets@[i]->0,
                ).contains(s) || sets.nonrender_members(submission_sets@[i]->0).contains(s))),
            forall|a: u64, b: u64| #[trigger]
                graph::system_edges(*dependency_flattened).contains((a, b)) <==> start.contains(
                    (a, b),
                ) || exists|i: int|
                    0 <= i < users@.len() && sets.has_submission_set(
                        #[trigger] submission_sets@[i],
                    ) && sets.submission_edge(submission_sets@[i]->0, a, b),
        decreases submission_sets@.len() - users@.len(),
    {
        let ghost now = graph::system_edges(*dependency_flattened);
        let ghost n = users@.len() as int;
        let ghost listed = users@;
        let mut members: Vec<u64> = Vec::new();
        if let Some(key) = submission_sets[users.len()] {
            if sets.submission_sets_to_meta_systems.contains_key(&key) {
                members = add_submission_set_edges(sets, dependency_flattened, key);
                assert forall|s: u64| #[trigger] members@.contains(s) <==> sets.render_members(
                    key,
                ).contains(s) || sets.nonrender_members(key).contains(s) by {}
            }
        }
        users.push(members);
        assert forall|i: int, s: u64| 0 <= i < users@.len() implies (#[trigger] users@[i]@.contains(
            s,
        ) <==> sets.has_submission_set(submission_sets@[i]) && (sets.render_members(
            submission_sets@[i]->0,
        ).contains(s) || sets.nonrender_members(submission_sets@[i]->0).contains(s))) by {
            if i < n {
                assert(users@[i] == listed[i]);
                assert(listed[i]@.contains(s) <==> users@[i]@.contains(s));
            }
        }
        assert forall|a: u64, b: u64| #[trigger]
            graph::system_edges(*dependency_flattened).contains((a, b)) <==> start.contains((a, b))
                || exists|i: int|
                0 <= i < users@.len() && sets.has_submission_set(#[trigger] submission_sets@[i])
                    && sets.submission_edge(submission_sets@[i]->0, a, b) by {
            assert(graph::system_edges(*dependency_flattened).contains((a, b)) <==> now.contains(
                (a, b),
            ) || (sets.has_submission_set(submission_sets@[n]) && sets.submission_edge(
                submission_sets@[n]->0,
                a,
                b,
            )));
        }
    }
    let ghost submitted = graph::system_edges(*dependency_flattened);
    let mut i: usize = 0;
    while i < render_sets.len()
        invariant
            i <= render_sets@.len(),
            sets.wf(),
            dependency_flattened.wf(),
            forall|j: int|
                0 <= j < render_sets@.len() ==> graph::is_key((#[trigger] render_sets@[j]).1) && (
                render_sets@[j].0 is Some ==> graph::is_key(render_sets@[j].0->0)),
            forall|j: int|
                0 <= j < i ==> !sets.misplaced(submission_sets@, #[trigger] render_sets@[j]),
            forall|a: u64, b: u64| #[trigger]
                graph::system_edges(*dependency_flattened).contains((a, b)) <==> submitted.contains(
                    (a, b),
                ) || exists|j: int|
                    0 <= j < i && sets.has_render_set((#[trigger] render_sets@[j]).0)
                        && sets.render_edge(render_sets@[j].0->0, render_sets@[j].1, a, b),
        decreases render_sets@.len() - i,
    {
        let ghost now = graph::system_edges(*dependency_flattened);
        let (set, config): (Option<u64>, u64) = render_sets[i];
        assert(render_sets@[i as int] == (set, config));
        if let Some(key) = set {
            if sets.render_sets_to_ending_systems.contains_key(&key) {
                match validate_render_set_parent(&sets.hierarchy, key, submission_sets) {
                    Err(e) => {
                        assert(is_first_misplaced(sets, submission_sets@, render_sets@, i as int));
                        return Err(e);
                    },
                    Ok(_) => {},
                }
                add_render_set_edges(sets, dependency_flattened, key, config);
            }
        }
        assert forall|a: u64, b: u64| #[trigger]
            graph::system_edges(*dependency_flattened).contains((a, b)) <==> submitted.contains(
                (a, b),
            ) || exists|j: int|
                0 <= j < i + 1 && sets.has_render_set((#[trigger] render_sets@[j]).0)
                    && sets.render_edge(render_sets@[j].0->0, render_sets@[j].1, a, b) by {
            assert(graph::system_edges(*dependency_flattened).contains((a, b)) <==> now.contains(
                (a, b),
            ) || (sets.has_render_set(render_sets@[i as int].0) && sets.render_edge(
                render_sets@[i as int].0->0,
                render_sets@[i as int].1,
                a,
                b,
            )));
        }
        i += 1;
    }
    let ghost asked = graph::system_edges(*dependency_flattened);
    proof {
        assert forall|e: (u64, u64)| asked.contains(e) <==> sets.with_asked(
            submission_sets@,
            render_sets@,
            start,
        ).contains(e) by {
            assert(e == (e.0, e.1));
            assert(asked.contains((e.0, e.1)) <==> submitted.contains((e.0, e.1)) || exists|j: int|
                0 <= j < i && sets.has_render_set((#[trigger] render_sets@[j]).0)
                    && sets.render_edge(render_sets@[j].0->0, render_sets@[j].1, e.0, e.1));
            assert(submitted.contains((e.0, e.1)) <==> start.contains((e.0, e.1)) || exists|i: int|
                0 <= i < users@.len() && sets.has_submission_set(#[trigger] submission_sets@[i])
                    && sets.submission_edge(submission_sets@[i]->0, e.0, e.1));
        }
        assert(asked =~= sets.with_asked(submission_sets@, render_sets@, start));
    }
    let mut k: usize = 0;
    let ghost mut steps: Seq<Set<(u64, u64)>> = seq![asked];
    assert(submission_sets@.take(0) =~= Seq::<Option<u64>>::empty());
    while k < submission_sets.len()
        invariant
            k <= submission_sets@.len(),
            sets.wf(),
            dependency_flattened.wf(),
            forall|i: int|
                0 <= i < submission_sets@.len() && (#[trigger] submission_sets@[i]) is Some
                    ==> graph::is_key(submission_sets@[i]->0),
            sets.is_grouping_run(submission_sets@.take(k as int), steps),
            steps.first() == asked,
            steps.last() == graph::system_edges(*dependency_flattened),
        decreases submission_sets@.len() - k,
    {
        let ghost now = graph::system_edges(*dependency_flattened);
        if let Some(key) = submission_sets[k] {
            if sets.submission_sets_to_meta_systems.contains_key(&key) {
                group_submission_set(sets, dependency_flattened, key);
            }
        }
        proof {
            let earlier = steps;
            steps = steps.push(graph::system_edges(*dependency_flattened));
            let sets_so_far = submission_sets@.take(k + 1);
            assert forall|i: int, j: int|
                #![trigger steps[i], steps[j]]
                0 <= i && j == i + 1 && j < steps.len() implies sets.grouped(
                sets_so_far[i],
                steps[i],
                steps[j],
            ) by {
                if j < earlier.len() {
                    assert(steps[i] == earlier[i] && steps[j] == earlier[j]);
                    assert(sets_so_far[i] == submission_sets@.take(k as int)[i]);
                } else {
                    assert(steps[i] == now);
                    assert(sets_so_far[i] == submission_sets@[k as int]);
                }
            }
        }
        k += 1;
    }
    assert(submission_sets@.take(k as int) =~= submission_sets@);
    Ok(users)
}

/// Render set `i` is the first that is not in exactly one submission set.
pub open spec fn is_first_misplaced(
    sets: &ScheduleSets,
    submission_sets: Seq<Option<u64>>,
    render_sets: Seq<(Option<u64>, u64)>,
    i: int,
) -> bool {
    &&& 0 <= i < render_sets.len()
    &&& sets.misplaced(submission_sets, render_sets[i])
    &&& forall|j: int| 0 <= j < i ==> !sets.misplaced(submission_sets, #[trigger] render_sets[j])
}

/// Grouping the submission sets keeps every edge, and closes no cycle.
pub proof fn law_grouping_is_safe(
    sets: &ScheduleSets,
    submission_sets: Seq<Option<u64>>,
    before: Set<(u64, u64)>,
    after: Set<(u64, u64)>,
)
    requires
        sets.all_grouped(submission_sets, before, after),
    ensures
        before.subset_of(after),
        graph::is_acyclic(before) ==> graph::is_acyclic(after),
{
    let steps = choose|steps: Seq<Set<(u64, u64)>>| #[trigger]
        sets.is_grouping_run(submission_sets, steps) && steps.first() == before && steps.last()
            == after;
    lemma_run_is_safe(sets, submission_sets, steps, steps.len() - 1);
}

proof fn lemma_run_is_safe(
    sets: &ScheduleSets,
    submission_sets: Seq<Option<u64>>,
    steps: Seq<Set<(u64, u64)>>,
    k: int,
)
    requires
        sets.is_grouping_run(submission_sets, steps),
        0 <= k < steps.len(),
    ensures
        steps[0].subset_of(steps[k]),
        graph::is_acyclic(steps[0]) ==> graph::is_acyclic(steps[k]),
    decreases k,
{
    if k > 0 {
        let i = k - 1;
        lemma_run_is_safe(sets, submission_sets, steps, i);
        let set = submission_sets[i];
        assert(sets.grouped(set, steps[i], steps[k]));
        if sets.has_submission_set(set) {
            let render = sets.render_members(set->0);
            let nonrender = sets.nonrender_members(set->0);
            grouping::law_grouping_keeps_edges(steps[i], steps[k], render, nonrender);
            if graph::is_acyclic(steps[i]) {
                grouping::law_grouping_keeps_acyclic(steps[i], steps[k], render, nonrender);
            }
        }
    }
}

/// Every system of a submission set runs after the prelude and before the
/// submission of the set, and what ran in order before still does.
pub proof fn law_submission_sets_enclose_their_systems(
    sets: &ScheduleSets,
    submission_sets: Seq<Option<u64>>,
    render_sets: Seq<(Option<u64>, u64)>,
    before: Set<(u64, u64)>,
    after: Set<(u64, u64)>,
    set: u64,
    system: u64,
)
    requires
        sets.all_grouped(
            submission_sets,
            sets.with_asked(submission_sets, render_sets, before),
            after,
        ),
        submission_sets.contains(Some(set)),
        sets.has_submission_set(Some(set)),
        sets.render_members(set).contains(system) || sets.nonrender_members(set).contains(system),
    ensures
        before.subset_of(after),
        after.contains((sets.submission_sets_to_meta_systems@[set].prelude, system)),
        after.contains((system, sets.submission_sets_to_meta_systems@[set].submission)),
{
    let asked = sets.with_asked(submission_sets, render_sets, before);
    law_grouping_is_safe(sets, submission_sets, asked, after);
    let i = choose|i: int| 0 <= i < submission_sets.len() && submission_sets[i] == Some(set);
    let meta = sets.submission_sets_to_meta_systems@[set];
    assert(sets.submission_edge(submission_sets[i]->0, meta.prelude, system));
    assert(sets.submission_edge(submission_sets[i]->0, system, meta.submission));
    assert(asked.contains((meta.prelude, system)));
    assert(asked.contains((system, meta.submission)));
    assert forall|e: (u64, u64)| before.contains(e) implies after.contains(e) by {
        assert(asked.contains(e));
    }
}

/// Where one submission set is ordered before another, everything of the first
/// is submitted before recording of the second starts.
pub proof fn law_ordered_sets_run_in_order(
    sets: &ScheduleSets,
    submission_sets: Seq<Option<u64>>,
    render_sets: Seq<(Option<u64>, u64)>,
    before: Set<(u64, u64)>,
    after: Set<(u64, u64)>,
    first: u64,
    second: u64,
)
    requires
        sets.all_grouped(
            submission_sets,
            sets.with_asked(submission_sets, render_sets, before),
            after,
        ),
        submission_sets.contains(Some(first)) || submission_sets.contains(Some(second)),
        sets.has_submission_set(Some(first)),
        sets.has_submission_set(Some(second)),
        graph::node_edges(sets.dependency).contains(
            (Node::SystemSet(first), Node::SystemSet(second)),
        ),
    ensures
        after.contains(
            (
                sets.submission_sets_to_meta_systems@[first].submission,
                sets.submission_sets_to_meta_systems@[second].prelude,
            ),
        ),
{
    let asked = sets.with_asked(submission_sets, render_sets, before);
    law_grouping_is_safe(sets, submission_sets, asked, after);
    let exit = sets.submission_sets_to_meta_systems@[first].submission;
    let entry = sets.submission_sets_to_meta_systems@[second].prelude;
    if submission_sets.contains(Some(first)) {
        let i = choose|i: int| 0 <= i < submission_sets.len() && submission_sets[i] == Some(first);
        assert(sets.target(Node::SystemSet(second), entry));
        assert(sets.submission_edge(submission_sets[i]->0, exit, entry));
    } else {
        let i = choose|i: int| 0 <= i < submission_sets.len() && submission_sets[i] == Some(second);
        assert(sets.source(Node::SystemSet(first), exit));
        assert(sets.submission_edge(submission_sets[i]->0, exit, entry));
    }
    assert(asked.contains((exit, entry)));
}

/// A submission set inside another set is recorded and submitted within the
/// bounds of that set: after each system that the set around it is ordered
/// after, and before each that it is ordered before.
pub proof fn law_sets_stay_within_the_sets_around_them(
    sets: &ScheduleSets,
    submission_sets: Seq<Option<u64>>,
    render_sets: Seq<(Option<u64>, u64)>,
    before: Set<(u64, u64)>,
    after: Set<(u64, u64)>,
    set: u64,
    around: u64,
    system: u64,
)
    requires
        sets.all_grouped(
            submission_sets,
            sets.with_asked(submission_sets, render_sets, before),
            after,
        ),
        submission_sets.contains(Some(set)),
        sets.has_submission_set(Some(set)),
        graph::leads(
            graph::parent_steps(graph::node_edges(sets.hierarchy)),
            set,
            around,
        ),
    ensures
        graph::node_edges(sets.dependency).contains(
            (Node::System(system), Node::SystemSet(around)),
        ) ==> after.contains((system, sets.submission_sets_to_meta_systems@[set].prelude)),
        graph::node_edges(sets.dependency).contains(
            (Node::SystemSet(around), Node::System(system)),
        ) ==> after.contains((sets.submission_sets_to_meta_systems@[set].submission, system)),
{
    let asked = sets.with_asked(submission_sets, render_sets, before);
    law_grouping_is_safe(sets, submission_sets, asked, after);
    let meta = sets.submission_sets_to_meta_systems@[set];
    let edges = graph::node_edges(sets.dependency);
    let i = choose|i: int| 0 <= i < submission_sets.len() && submission_sets[i] == Some(set);
    assert(sets.source(Node::System(system), system));
    assert(sets.target(Node::System(system), system));
    if edges.contains((Node::System(system), Node::SystemSet(around))) {
        assert(sets.forwards(around, meta.prelude, meta.submission, system, meta.prelude));
        assert(sets.submission_edge(submission_sets[i]->0, system, meta.prelude));
        assert(asked.contains((system, meta.prelude)));
    }
    if edges.contains((Node::SystemSet(around), Node::System(system))) {
        assert(sets.forwards(around, meta.prelude, meta.submission, meta.submission, system));
        assert(sets.submission_edge(submission_sets[i]->0, meta.submission, system));
        assert(asked.contains((meta.submission, system)));
    }
}

/// The configuration of a render set runs before all other systems of the set,
/// and its ending after them.
pub proof fn law_render_sets_enclose_their_systems(
    sets: &ScheduleSets,
    submission_sets: Seq<Option<u64>>,
    render_sets: Seq<(Option<u64>, u64)>,
    before: Set<(u64, u64)>,
    after: Set<(u64, u64)>,
    set: u64,
    config: u64,
    system: u64,
)
    requires
        sets.all_grouped(
            submission_sets,
            sets.with_asked(submission_sets, render_sets, before),
            after,
        ),
        render_sets.contains((Some(set), config)),
        sets.has_render_set(Some(set)),
        system != config,
        system != sets.render_sets_to_ending_systems@[set],
        sets.member(Set::empty(), Node::SystemSet(set), true, system),
    ensures
        after.contains((config, system)),
        after.contains((system, sets.render_sets_to_ending_systems@[set])),
        after.contains((config, sets.render_sets_to_ending_systems@[set])),
{
    let asked = sets.with_asked(submission_sets, render_sets, before);
    law_grouping_is_safe(sets, submission_sets, asked, after);
    let ending = sets.render_sets_to_ending_systems@[set];
    let i = choose|i: int| 0 <= i < render_sets.len() && render_sets[i] == (Some(set), config);
    assert(sets.render_edge(render_sets[i].0->0, render_sets[i].1, config, system));
    assert(sets.render_edge(render_sets[i].0->0, render_sets[i].1, system, ending));
    assert(sets.render_edge(render_sets[i].0->0, render_sets[i].1, config, ending));
    assert(asked.contains((config, system)));
    assert(asked.contains((system, ending)));
    assert(asked.contains((config, ending)));
}

// ---------------------------------------------------------------------------
// Names of systems
// ---------------------------------------------------------------------------

/// How many brackets are open at the end of a text. A closing bracket without
/// an opening one does not count.
pub open spec fn depth(s: Seq<char>, opening: char, closing: char) -> nat
    decreases s.len(),
{
    if s.len() == 0 {
        0
    } else {
        let before = depth(s.drop_last(), opening, closing);
        if s.last() == opening {
            before + 1
        } else if s.last() == closing && before > 0 {
            (before - 1) as nat
        } else {
            before
        }
    }
}

/// A comma outside of all brackets.
pub open spec fn is_top_comma(s: Seq<char>, i: int) -> bool {
    &&& 0 <= i < s.len()
    &&& s[i] == ','
    &&& depth(s.take(i), '<', '>') == 0
    &&& depth(s.take(i), '(', ')') == 0
    &&& depth(s.take(i), '[', ']') == 0
}

/// The name is that of a pipe of two systems; this is what stands between its
/// brackets.
pub open spec fn pipe_inner(name: Seq<char>) -> Option<Seq<char>> {
    if name.len() >= 6 && name.take(5) == "Pipe("@ && name.last() == ')' {
        Some(name.subrange(5, name.len() - 1))
    } else {
        None
    }
}

/// The names of the two systems of a pipe, for the place of the comma.
pub open spec fn pipe_parts(inner: Seq<char>, comma: int) -> (Seq<char>, Seq<char>) {
    (
        text::trimmed_end(text::trimmed_start(inner.take(comma))),
        text::trimmed_end(text::trimmed_start(inner.skip(comma + 1))),
    )
}

/// `comma` is the first comma outside of all brackets.
pub open spec fn is_first_top_comma(inner: Seq<char>, comma: int) -> bool {
    is_top_comma(inner, comma) && forall|i: int| 0 <= i < comma ==> !is_top_comma(inner, i)
}

/// The name of a pipe is made of `Pipe(`, what stands between the brackets, and a
/// closing bracket.
pub proof fn law_pipes_are_named_by_their_systems(name: Seq<char>, inner: Seq<char>)
    ensures
        pipe_inner("Pipe("@ + inner + seq![')']) == Some(inner),
        pipe_inner(name) == Some(inner) ==> name == "Pipe("@ + inner + seq![')'],
{
    reveal_strlit("Pipe(");
    let whole = "Pipe("@ + inner + seq![')'];
    assert(whole.take(5) =~= "Pipe("@);
    assert(whole.last() == ')');
    assert(whole.subrange(5, whole.len() - 1) =~= inner);
    if pipe_inner(name) == Some(inner) {
        assert(name =~= "Pipe("@ + inner + seq![')']) by {
            assert forall|i: int| 0 <= i < name.len() implies #[trigger] name[i] == ("Pipe("@
                + inner + seq![')'])[i] by {
                if i < 5 {
                    assert(name.take(5)[i] == name[i]);
                } else if i < name.len() - 1 {
                    assert(inner[i - 5] == name[i]);
                }
            }
        }
    }
}

/// The comma between two systems stands outside of all brackets, and none does
/// before it. The names are what stands on its two sides, without white space
/// around.
pub proof fn law_the_first_comma_outside_of_brackets_parts(inner: Seq<char>, comma: int, i: int)
    requires
        is_first_top_comma(inner, comma),
    ensures
        inner[comma] == ',',
        0 <= comma < inner.len(),
        depth(inner.take(comma), '<', '>') == 0,
        depth(inner.take(comma), '(', ')') == 0,
        depth(inner.take(comma), '[', ']') == 0,
        0 <= i < comma && inner[i] == ',' ==> depth(inner.take(i), '<', '>') > 0 || depth(
            inner.take(i),
            '(',
            ')',
        ) > 0 || depth(inner.take(i), '[', ']') > 0,
        pipe_parts(inner, comma).0 == text::trimmed_end(text::trimmed_start(inner.take(comma))),
        pipe_parts(inner, comma).1 == text::trimmed_end(
            text::trimmed_start(inner.skip(comma + 1)),
        ),
{
    if 0 <= i < comma {
        assert(!is_top_comma(inner, i));
    }
}

/// An opening bracket goes one deeper, a closing one comes back where there is an
/// open one, and nothing else counts.
pub proof fn law_brackets_are_counted(s: Seq<char>, c: char, opening: char, closing: char)
    requires
        opening != closing,
    ensures
        depth(Seq::empty(), opening, closing) == 0,
        depth(s.push(opening), opening, closing) == depth(s, opening, closing) + 1,
        depth(s.push(opening).push(closing), opening, closing) == depth(s, opening, closing),
        depth(s, opening, closing) == 0 ==> depth(s.push(closing), opening, closing) == 0,
        c != opening && c != closing ==> depth(s.push(c), opening, closing) == depth(
            s,
            opening,
            closing,
        ),
{
    assert(s.push(opening).drop_last() =~= s);
    assert(s.push(closing).drop_last() =~= s);
    assert(s.push(c).drop_last() =~= s);
    let opened = s.push(opening);
    assert(depth(opened, opening, closing) == depth(s, opening, closing) + 1);
    assert(opened.push(closing).drop_last() =~= opened);
    assert(opened.push(closing).last() == closing);
}

/// Splits the name of a pipe of two systems into the names of the two.
pub fn split_pipe_system_name(name: &str) -> (r: Option<(&str, &str)>)
    ensures
        match r {
            Some((first, second)) => pipe_inner(name@) is Some && exists|comma: int| #[trigger]
                is_first_top_comma(pipe_inner(name@)->0, comma) && (first@, second@) == pipe_parts(
                    pipe_inner(name@)->0,
                    comma,
                ),
            None => pipe_inner(name@) is None || forall|i: int| !#[trigger]
                is_top_comma(pipe_inner(name@)->0, i),
        },
{
    let n: usize = name.unicode_len();
    proof {
        reveal_strlit("Pipe(");
    }
    if n < 6 || !text::str_eq(name.substring_char(0, 5), "Pipe(") || name.get_char(n - 1) != ')' {
        assert(n >= 6 ==> name@.subrange(0, 5) =~= name@.take(5));
        return None;
    }
    assert(name@.subrange(0, 5) =~= name@.take(5));
    let inner = name.substring_char(5, n - 1);
    let m: usize = n - 6;
    let mut angle_depth: usize = 0;
    let mut paren_depth: usize = 0;
    let mut bracket_depth: usize = 0;
    let mut index: usize = 0;
    while index < m
        invariant
            m == inner@.len(),
            index <= m,
            pipe_inner(name@) == Some(inner@),
            angle_depth <= index,
            paren_depth <= index,
            bracket_depth <= index,
            angle_depth == depth(inner@.take(index as int), '<', '>'),
            paren_depth == depth(inner@.take(index as int), '(', ')'),
            bracket_depth == depth(inner@.take(index as int), '[', ']'),
            forall|i: int| 0 <= i < index ==> !#[trigger] is_top_comma(inner@, i),
        decreases m - index,
    {
        let c: char = inner.get_char(index);
        proof {
            let longer = inner@.take(index + 1);
            assert(longer.drop_last() =~= inner@.take(index as int));
            assert(longer.last() == c);
        }
        if c == '<' {
            angle_depth += 1;
        } else if c == '>' {
            if angle_depth > 0 {
                angle_depth -= 1;
            }
        } else if c == '(' {
            paren_depth += 1;
        } else if c == ')' {
            if paren_depth > 0 {
                paren_depth -= 1;
            }
        } else if c == '[' {
            bracket_depth += 1;
        } else if c == ']' {
            if bracket_depth > 0 {
                bracket_depth -= 1;
            }
        } else if c == ',' && angle_depth == 0 && paren_depth == 0 && bracket_depth == 0 {
            let first = trim(inner.substring_char(0, index));
            let second = trim(inner.substring_char(index + 1, m));
            proof {
                assert(inner@.subrange(0, index as int) =~= inner@.take(index as int));
                assert(inner@.subrange(index + 1, m as int) =~= inner@.skip(index + 1));
                assert(is_first_top_comma(inner@, index as int));
                assert((first@, second@) == pipe_parts(inner@, index as int));
                assert(pipe_inner(name@)->0 == inner@);
            }
            return Some((first, second));
        }
        index += 1;
    }
    None
}

} // verus!
