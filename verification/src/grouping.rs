//! Grouping of the systems of a submission set into stages that alternate
//! between render systems and other systems.

use std::collections::HashMap;

use crate::graph;
use crate::graph::add_edge_if_acyclic;
use crate::graph::SystemGraph;
use vstd::prelude::*;

verus! {

broadcast use vstd::std_specs::hash::group_hash_axioms;

// ---------------------------------------------------------------------------
// Stages
// ---------------------------------------------------------------------------

/// `x` is in one of the first `k` stages.
pub open spec fn staged(stages: Seq<Seq<u64>>, k: int, x: u64) -> bool {
    exists|i: int| 0 <= i < k && (#[trigger] stages[i]).contains(x)
}

/// `x` can run next: it is in none of the first `k` stages, and all that runs
/// before it is.
pub open spec fn ready(
    edges: Set<(u64, u64)>,
    all: Set<u64>,
    stages: Seq<Seq<u64>>,
    k: int,
    x: u64,
) -> bool {
    &&& all.contains(x)
    &&& !staged(stages, k, x)
    &&& forall|y: u64|
        all.contains(y) && #[trigger] edges.contains((y, x)) ==> staged(stages, k, y)
}

/// The items of stage `k` are distinct, are in no earlier stage, and are all
/// render systems or all others.
pub open spec fn stage_ok(
    all: Set<u64>,
    render: Set<u64>,
    stages: Seq<Seq<u64>>,
    k: int,
) -> bool {
    &&& stages[k].len() > 0
    &&& stages[k].no_duplicates()
    &&& forall|i: int|
        0 <= i < stages[k].len() ==> {
            &&& all.contains(#[trigger] stages[k][i])
            &&& !staged(stages, k, stages[k][i])
            &&& render.contains(stages[k][i]) == render.contains(stages[k][0])
        }
}

/// What runs before an item of stage `k` is in an earlier stage, or before it
/// in the same.
pub open spec fn stage_ordered(
    edges: Set<(u64, u64)>,
    all: Set<u64>,
    stages: Seq<Seq<u64>>,
    k: int,
) -> bool {
    forall|i: int, y: u64|
        #![trigger stages[k][i], all.contains(y)]
        0 <= i < stages[k].len() && all.contains(y) && edges.contains((y, stages[k][i])) ==> staged(
            stages,
            k,
            y,
        ) || stages[k].take(i).contains(y)
}

/// When stage `k` is over, nothing of its kind can run next.
pub open spec fn stage_full(
    edges: Set<(u64, u64)>,
    all: Set<u64>,
    render: Set<u64>,
    stages: Seq<Seq<u64>>,
    k: int,
) -> bool {
    forall|x: u64| #[trigger]
        ready(edges, all, stages, k + 1, x) ==> render.contains(x) != render.contains(stages[k][0])
}

/// The stages in which the systems run: each goes on as long as there is a
/// system of its kind to run, then the other kind follows. Render systems start
/// if one can.
pub open spec fn is_staging(
    edges: Set<(u64, u64)>,
    all: Set<u64>,
    render: Set<u64>,
    stages: Seq<Seq<u64>>,
) -> bool {
    &&& forall|k: int| 0 <= k < stages.len() ==> #[trigger] stage_ok(all, render, stages, k)
    &&& forall|k: int|
        0 <= k < stages.len() ==> #[trigger] stage_ordered(edges, all, stages, k)
    &&& forall|k: int|
        0 <= k < stages.len() ==> #[trigger] stage_full(edges, all, render, stages, k)
    &&& forall|k: int, l: int|
        #![trigger stages[k], stages[l]]
        0 <= k && l == k + 1 && l < stages.len() ==> render.contains(stages[k][0])
            != render.contains(stages[l][0])
    &&& forall|x: u64| !#[trigger] ready(edges, all, stages, stages.len() as int, x)
    &&& stages.len() > 0 ==> (render.contains(stages[0][0]) <==> exists|x: u64|
        render.contains(x) && #[trigger] ready(edges, all, stages, 0, x))
}

/// The lists that a list of lists holds.
pub open spec fn stage_lists(stages: Seq<Vec<u64>>) -> Seq<Seq<u64>> {
    Seq::new(stages.len(), |i: int| stages[i]@)
}

// ---------------------------------------------------------------------------
// Counting what is still to run
// ---------------------------------------------------------------------------

/// How many of the first `upto` systems are not done and run before system `i`.
spec fn pending(
    edges: Set<(u64, u64)>,
    all: Seq<u64>,
    done: Seq<bool>,
    i: int,
    upto: int,
) -> nat
    decreases upto,
{
    if upto <= 0 {
        0
    } else {
        pending(edges, all, done, i, upto - 1) + if !done[upto - 1] && edges.contains(
            (all[upto - 1], all[i]),
        ) {
            1nat
        } else {
            0nat
        }
    }
}

proof fn lemma_pending_bound(
    edges: Set<(u64, u64)>,
    all: Seq<u64>,
    done: Seq<bool>,
    i: int,
    upto: int,
)
    requires
        0 <= upto,
    ensures
        pending(edges, all, done, i, upto) <= upto,
    decreases upto,
{
    if upto > 0 {
        lemma_pending_bound(edges, all, done, i, upto - 1);
    }
}

proof fn lemma_pending_zero(
    edges: Set<(u64, u64)>,
    all: Seq<u64>,
    done: Seq<bool>,
    i: int,
    upto: int,
)
    requires
        0 <= upto,
    ensures
        pending(edges, all, done, i, upto) == 0 <==> forall|j: int|
            0 <= j < upto && edges.contains((#[trigger] all[j], all[i])) ==> done[j],
    decreases upto,
{
    if upto > 0 {
        lemma_pending_zero(edges, all, done, i, upto - 1);
        if pending(edges, all, done, i, upto) == 0 {
            assert forall|j: int|
                0 <= j < upto && edges.contains((#[trigger] all[j], all[i])) implies done[j] by {
                if j == upto - 1 {
                }
            }
        }
    }
}

proof fn lemma_pending_done(
    edges: Set<(u64, u64)>,
    all: Seq<u64>,
    done: Seq<bool>,
    s: int,
    i: int,
    upto: int,
)
    requires
        0 <= upto <= done.len(),
        0 <= s < done.len(),
        !done[s],
    ensures
        pending(edges, all, done, i, upto) == pending(edges, all, done.update(s, true), i, upto)
            + if s < upto && edges.contains((all[s], all[i])) {
            1nat
        } else {
            0nat
        },
    decreases upto,
{
    if upto > 0 {
        lemma_pending_done(edges, all, done, s, i, upto - 1);
    }
}

// ---------------------------------------------------------------------------
// Listing
// ---------------------------------------------------------------------------

/// Appends what is not listed yet, and notes the place of each item.
fn list_new(systems: &[u64], kind: bool, all: &mut Vec<u64>, kinds: &mut Vec<bool>, places: &mut
    HashMap<u64, usize>)
    requires
        old(all)@.len() == old(kinds)@.len(),
        places_ok(old(all)@, old(places)@),
        forall|i: int| 0 <= i < systems@.len() ==> graph::is_key(#[trigger] systems@[i]),
        forall|i: int| 0 <= i < old(all)@.len() ==> graph::is_key(#[trigger] old(all)@[i]),
    ensures
        final(all)@.len() == final(kinds)@.len(),
        places_ok(final(all)@, final(places)@),
        old(all)@.len() <= final(all)@.len(),
        forall|i: int| 0 <= i < old(all)@.len() ==> #[trigger] final(all)@[i] == old(all)@[i],
        forall|i: int|
            0 <= i < old(all)@.len() ==> #[trigger] final(kinds)@[i] == old(kinds)@[i],
        forall|i: int|
            old(all)@.len() <= i < final(all)@.len() ==> #[trigger] final(kinds)@[i] == kind,
        forall|x: u64| #[trigger]
            final(all)@.contains(x) <==> old(all)@.contains(x) || systems@.contains(x),
        forall|i: int| 0 <= i < final(all)@.len() ==> graph::is_key(#[trigger] final(all)@[i]),
{
    let ghost start = all@;
    let ghost start_kinds = kinds@;
    let mut i: usize = 0;
    while i < systems.len()
        invariant
            i <= systems@.len(),
            forall|j: int| 0 <= j < systems@.len() ==> graph::is_key(#[trigger] systems@[j]),
            all@.len() == kinds@.len(),
            start.len() == start_kinds.len(),
            places_ok(all@, places@),
            start.len() <= all@.len(),
            forall|j: int| 0 <= j < start.len() ==> #[trigger] all@[j] == start[j],
            forall|j: int| 0 <= j < start.len() ==> #[trigger] kinds@[j] == start_kinds[j],
            forall|j: int| start.len() <= j < all@.len() ==> #[trigger] kinds@[j] == kind,
            forall|x: u64| #[trigger]
                all@.contains(x) <==> start.contains(x) || systems@.take(i as int).contains(x),
            forall|j: int| 0 <= j < all@.len() ==> graph::is_key(#[trigger] all@[j]),
        decreases systems@.len() - i,
    {
        let ghost now = all@;
        let ghost noted = places@;
        let system: u64 = systems[i];
        proof {
            lemma_listed(systems@.take(i as int), system);
            assert(systems@.take(i + 1) =~= systems@.take(i as int).push(system));
        }
        if !places.contains_key(&system) {
            assert(!now.contains(system)) by {
                if now.contains(system) {
                    let j = choose|j: int| 0 <= j < now.len() && now[j] == system;
                    assert(noted.contains_key(now[j]));
                }
            }
            places.insert(system, all.len());
            all.push(system);
            kinds.push(kind);
            proof {
                lemma_listed(now, system);
                assert forall|x: u64| #[trigger] places@.contains_key(x) implies places@[x]
                    < all@.len() && all@[places@[x] as int] == x by {
                    if x != system {
                        assert(noted.contains_key(x));
                    }
                }
                assert forall|j: int| 0 <= j < all@.len() implies places@.contains_key(
                    #[trigger] all@[j],
                ) && places@[all@[j]] == j by {
                    if j < now.len() {
                        assert(now[j] == all@[j]);
                        assert(noted.contains_key(now[j]));
                        assert(now.contains(now[j]));
                    }
                }
            }
        } else {
            assert(noted.contains_key(system));
            assert(now[noted[system] as int] == system);
        }
        i += 1;
    }
    assert(systems@.take(i as int) =~= systems@);
}

proof fn lemma_listed<T>(list: Seq<T>, item: T)
    ensures
        forall|x: T| #[trigger] list.push(item).contains(x) <==> list.contains(x) || x == item,
{
    assert forall|x: T| #[trigger] list.push(item).contains(x) <==> list.contains(x) || x
        == item by {
        let longer = list.push(item);
        if list.contains(x) {
            let i = choose|i: int| 0 <= i < list.len() && list[i] == x;
            assert(longer[i] == x);
        }
        if x == item {
            assert(longer[list.len() as int] == x);
        }
        if longer.contains(x) {
            let i = choose|i: int| 0 <= i < longer.len() && longer[i] == x;
            if i < list.len() {
                assert(list[i] == x);
            }
        }
    }
}

/// The map gives the place of each item of the list.
spec fn places_ok(all: Seq<u64>, places: Map<u64, usize>) -> bool {
    &&& forall|x: u64| #[trigger]
        places.contains_key(x) ==> places[x] < all.len() && all[places[x] as int] == x
    &&& forall|i: int|
        0 <= i < all.len() ==> places.contains_key(#[trigger] all[i]) && places[all[i]] == i
}

/// The systems that run directly after each, by their places, and how many run
/// directly before each.
fn count_edges(graph: &SystemGraph, all: &Vec<u64>, places: &HashMap<u64, usize>) -> (r: (
    Vec<Vec<usize>>,
    Vec<usize>,
))
    requires
        places_ok(all@, places@),
        forall|i: int| 0 <= i < all@.len() ==> graph::is_key(#[trigger] all@[i]),
    ensures
        successors_ok(graph::system_edges(*graph), all@, r.0@, all@.len() as int),
        r.0@.len() == all@.len(),
        r.1@.len() == all@.len(),
        forall|i: int|
            0 <= i < all@.len() ==> #[trigger] r.1@[i] == pending(
                graph::system_edges(*graph),
                all@,
                Seq::new(all@.len(), |j: int| false),
                i,
                all@.len() as int,
            ),
{
    let ghost edges = graph::system_edges(*graph);
    let ghost none = Seq::new(all@.len(), |j: int| false);
    let n: usize = all.len();
    let mut degree: Vec<usize> = Vec::new();
    while degree.len() < n
        invariant
            n == all@.len(),
            degree@.len() <= n,
            forall|i: int| 0 <= i < degree@.len() ==> #[trigger] degree@[i] == 0,
        decreases n - degree@.len(),
    {
        degree.push(0);
    }
    let mut successors: Vec<Vec<usize>> = Vec::new();
    while successors.len() < n
        invariant
            n == all@.len(),
            edges == graph::system_edges(*graph),
            none == Seq::new(all@.len(), |j: int| false),
            places_ok(all@, places@),
            forall|i: int| 0 <= i < all@.len() ==> graph::is_key(#[trigger] all@[i]),
            successors@.len() <= n,
            degree@.len() == n,
            successors_ok(edges, all@, successors@, successors@.len() as int),
            forall|i: int|
                0 <= i < n ==> #[trigger] degree@[i] == pending(
                    edges,
                    all@,
                    none,
                    i,
                    successors@.len() as int,
                ),
        decreases n - successors@.len(),
    {
        let j: usize = successors.len();
        let neighbors = graph.following(all[j]);
        let mut next: Vec<usize> = Vec::new();
        let mut t: usize = 0;
        while t < neighbors.len()
            invariant
                n == all@.len(),
                j < n,
                t <= neighbors@.len(),
                degree@.len() == n,
                places_ok(all@, places@),
                neighbors@.no_duplicates(),
                next@.no_duplicates(),
                forall|x: int| 0 <= x < next@.len() ==> #[trigger] next@[x] < n,
                forall|i: usize|
                    i < n ==> (#[trigger] next@.contains(i) <==> neighbors@.take(
                        t as int,
                    ).contains(all@[i as int])),
                forall|i: int|
                    0 <= i < n ==> #[trigger] degree@[i] == pending(edges, all@, none, i, j as int)
                        + if next@.contains(i as usize) {
                        1nat
                    } else {
                        0nat
                    },
            decreases neighbors@.len() - t,
        {
            let ghost listed = next@;
            let ghost counted = degree@;
            let neighbor: u64 = neighbors[t];
            proof {
                lemma_listed(neighbors@.take(t as int), neighbor);
                assert(neighbors@.take(t + 1) =~= neighbors@.take(t as int).push(neighbor));
                assert(!neighbors@.take(t as int).contains(neighbor)) by {
                    if neighbors@.take(t as int).contains(neighbor) {
                        let x = choose|x: int|
                            0 <= x < t && neighbors@.take(t as int)[x] == neighbor;
                        assert(neighbors@[x] == neighbors@[t as int]);
                    }
                }
            }
            match places.get(&neighbor) {
                Some(place) => {
                    let i: usize = *place;
                    assert(all@[i as int] == neighbor);
                    assert(!listed.contains(i));
                    proof {
                        lemma_pending_bound(edges, all@, none, i as int, j as int);
                        lemma_listed(listed, i);
                    }
                    next.push(i);
                    let count: usize = degree[i];
                    degree.set(i, count + 1);
                    assert forall|x: usize| x < n implies (#[trigger] next@.contains(x)
                        <==> neighbors@.take(t + 1).contains(all@[x as int])) by {
                        assert(places@[all@[x as int]] == x);
                    }
                    assert forall|x: int| 0 <= x < n implies #[trigger] degree@[x] == pending(
                        edges,
                        all@,
                        none,
                        x,
                        j as int,
                    ) + if next@.contains(x as usize) {
                        1nat
                    } else {
                        0nat
                    } by {
                        assert(counted[x] == pending(edges, all@, none, x, j as int)
                            + if listed.contains(x as usize) {
                            1nat
                        } else {
                            0nat
                        });
                    }
                },
                None => {
                    assert forall|x: usize| x < n implies (#[trigger] next@.contains(x)
                        <==> neighbors@.take(t + 1).contains(all@[x as int])) by {
                        assert(places@.contains_key(all@[x as int]));
                    }
                },
            }
            t += 1;
        }
        assert(neighbors@.take(t as int) =~= neighbors@);
        let ghost before = successors@;
        successors.push(next);
        proof {
            assert forall|a: int| 0 <= a < successors@.len() implies successor_list_ok(
                edges,
                all@,
                #[trigger] successors@[a]@,
                a,
            ) by {
                if a < before.len() {
                    assert(successors@[a] == before[a]);
                } else {
                    assert(successors@[a] == next);
                    assert forall|i: usize| i < all@.len() implies (#[trigger] next@.contains(i)
                        <==> edges.contains((all@[a], all@[i as int]))) by {
                        assert(neighbors@.contains(all@[i as int]) <==> edges.contains(
                            (all@[j as int], all@[i as int]),
                        ));
                    }
                }
            }
            assert forall|i: int| 0 <= i < n implies #[trigger] degree@[i] == pending(
                edges,
                all@,
                none,
                i,
                successors@.len() as int,
            ) by {
                assert(next@.contains(i as usize) <==> neighbors@.contains(all@[i]));
                assert(neighbors@.contains(all@[i]) <==> edges.contains((all@[j as int], all@[i])));
                assert(!none[j as int]);
            }
        }
    }
    (successors, degree)
}

spec fn successor_list_ok(
    edges: Set<(u64, u64)>,
    all: Seq<u64>,
    list: Seq<usize>,
    j: int,
) -> bool {
    &&& list.no_duplicates()
    &&& forall|x: int| 0 <= x < list.len() ==> #[trigger] list[x] < all.len()
    &&& forall|i: usize|
        i < all.len() ==> (#[trigger] list.contains(i) <==> edges.contains(
            (all[j], all[i as int]),
        ))
}

spec fn successors_ok(
    edges: Set<(u64, u64)>,
    all: Seq<u64>,
    successors: Seq<Vec<usize>>,
    upto: int,
) -> bool {
    forall|j: int|
        0 <= j < upto ==> successor_list_ok(edges, all, #[trigger] successors[j]@, j)
}

// ---------------------------------------------------------------------------
// Placing systems
// ---------------------------------------------------------------------------

/// The stages so far: all but the last are over.
spec fn partial(
    edges: Set<(u64, u64)>,
    all: Set<u64>,
    render: Set<u64>,
    stages: Seq<Seq<u64>>,
) -> bool {
    &&& forall|k: int| 0 <= k < stages.len() ==> #[trigger] stage_ok(all, render, stages, k)
    &&& forall|k: int|
        0 <= k < stages.len() ==> #[trigger] stage_ordered(edges, all, stages, k)
    &&& forall|k: int|
        0 <= k < stages.len() - 1 ==> #[trigger] stage_full(edges, all, render, stages, k)
    &&& forall|k: int, l: int|
        #![trigger stages[k], stages[l]]
        0 <= k && l == k + 1 && l < stages.len() ==> render.contains(stages[k][0])
            != render.contains(stages[l][0])
    &&& stages.len() > 0 ==> (render.contains(stages[0][0]) <==> exists|x: u64|
        render.contains(x) && #[trigger] ready(edges, all, stages, 0, x))
}

spec fn placed(stages: Seq<Seq<u64>>, fresh: bool, x: u64) -> Seq<Seq<u64>> {
    if fresh {
        stages.push(seq![x])
    } else {
        stages.update(stages.len() - 1, stages.last().push(x))
    }
}

proof fn lemma_same_start(
    edges: Set<(u64, u64)>,
    all: Set<u64>,
    a: Seq<Seq<u64>>,
    b: Seq<Seq<u64>>,
    k: int,
)
    requires
        forall|i: int| 0 <= i < k ==> #[trigger] a[i] == b[i],
    ensures
        forall|y: u64| #[trigger] staged(a, k, y) == staged(b, k, y),
        forall|y: u64| #[trigger] ready(edges, all, a, k, y) == ready(edges, all, b, k, y),
{
    assert forall|y: u64| #[trigger] staged(a, k, y) == staged(b, k, y) by {
        if staged(a, k, y) {
            let i = choose|i: int| 0 <= i < k && (#[trigger] a[i]).contains(y);
            assert(b[i].contains(y));
        }
        if staged(b, k, y) {
            let i = choose|i: int| 0 <= i < k && (#[trigger] b[i]).contains(y);
            assert(a[i].contains(y));
        }
    }
    assert forall|y: u64| #[trigger] ready(edges, all, a, k, y) == ready(edges, all, b, k, y) by {
        assert(staged(a, k, y) == staged(b, k, y));
        if ready(edges, all, a, k, y) {
            assert forall|z: u64|
                all.contains(z) && #[trigger] edges.contains((z, y)) implies staged(b, k, z) by {
                assert(staged(a, k, z));
            }
        }
        if ready(edges, all, b, k, y) {
            assert forall|z: u64|
                all.contains(z) && #[trigger] edges.contains((z, y)) implies staged(a, k, z) by {
                assert(staged(b, k, z));
            }
        }
    }
}

proof fn lemma_placed_staged(stages: Seq<Seq<u64>>, fresh: bool, x: u64)
    requires
        fresh || stages.len() > 0,
    ensures
        forall|y: u64| #[trigger]
            staged(placed(stages, fresh, x), placed(stages, fresh, x).len() as int, y) <==> staged(
                stages,
                stages.len() as int,
                y,
            ) || y == x,
{
    let after = placed(stages, fresh, x);
    let last = after.len() - 1;
    assert forall|y: u64| #[trigger]
        staged(after, after.len() as int, y) <==> staged(stages, stages.len() as int, y) || y
            == x by {
        if fresh {
            lemma_listed(Seq::<u64>::empty(), x);
            assert(seq![x] =~= Seq::<u64>::empty().push(x));
        } else {
            lemma_listed(stages.last(), x);
        }
        if y == x {
            assert(after[last].contains(x));
        }
        if staged(stages, stages.len() as int, y) {
            let i = choose|i: int| 0 <= i < stages.len() && (#[trigger] stages[i]).contains(y);
            assert(after[i].contains(y));
        }
        if staged(after, after.len() as int, y) {
            let i = choose|i: int| 0 <= i < after.len() && (#[trigger] after[i]).contains(y);
            if i < stages.len() {
                if i == last && !fresh {
                    assert(after[i] == stages.last().push(x));
                    if y != x {
                        assert(stages[i].contains(y));
                    }
                } else {
                    assert(stages[i].contains(y));
                }
            }
        }
    }
}

proof fn lemma_placed(
    edges: Set<(u64, u64)>,
    all: Set<u64>,
    render: Set<u64>,
    stages: Seq<Seq<u64>>,
    fresh: bool,
    x: u64,
)
    requires
        partial(edges, all, render, stages),
        ready(edges, all, stages, stages.len() as int, x),
        !fresh ==> stages.len() > 0 && render.contains(stages.last()[0]) == render.contains(x),
        fresh && stages.len() > 0 ==> stage_full(edges, all, render, stages, stages.len() - 1)
            && render.contains(stages.last()[0]) != render.contains(x),
        stages.len() == 0 ==> (render.contains(x) <==> exists|y: u64|
            render.contains(y) && #[trigger] ready(edges, all, stages, 0, y)),
    ensures
        partial(edges, all, render, placed(stages, fresh, x)),
{
    let after = placed(stages, fresh, x);
    let last = after.len() - 1;
    let n = stages.len() as int;
    assert forall|k: int| 0 <= k < after.len() implies #[trigger] stage_ok(
        all,
        render,
        after,
        k,
    ) by {
        lemma_same_start(edges, all, stages, after, k);
        if k < last {
            assert(after[k] == stages[k]);
            assert(stage_ok(all, render, stages, k));
            assert forall|i: int| 0 <= i < after[k].len() implies {
                &&& all.contains(#[trigger] after[k][i])
                &&& !staged(after, k, after[k][i])
                &&& render.contains(after[k][i]) == render.contains(after[k][0])
            } by {
                assert(!staged(stages, k, stages[k][i]));
            }
        } else if fresh {
            assert(after[k] == seq![x]);
            assert(!staged(stages, n, x));
        } else {
            let list = stages.last();
            assert(stage_ok(all, render, stages, last));
            assert(!list.contains(x)) by {
                if list.contains(x) {
                    assert(stages[last].contains(x));
                }
            }
            assert(!staged(stages, last, x)) by {
                if staged(stages, last, x) {
                    let i = choose|i: int| 0 <= i < last && (#[trigger] stages[i]).contains(x);
                }
            }
            assert forall|i: int| 0 <= i < after[k].len() implies {
                &&& all.contains(#[trigger] after[k][i])
                &&& !staged(after, k, after[k][i])
                &&& render.contains(after[k][i]) == render.contains(after[k][0])
            } by {
                if i < list.len() {
                    assert(after[k][i] == stages[last][i]);
                    assert(!staged(stages, k, stages[last][i]));
                } else {
                    assert(after[k][i] == x);
                }
                assert(after[k][0] == stages[last][0]);
            }
        }
    }
    assert forall|k: int| 0 <= k < after.len() implies #[trigger] stage_ordered(
        edges,
        all,
        after,
        k,
    ) by {
        lemma_same_start(edges, all, stages, after, k);
        assert forall|i: int, y: u64|
            #![trigger after[k][i], all.contains(y)]
            0 <= i < after[k].len() && all.contains(y) && edges.contains(
                (y, after[k][i]),
            ) implies staged(after, k, y) || after[k].take(i).contains(y) by {
            if k < last || (!fresh && i < stages.last().len()) {
                assert(stage_ordered(edges, all, stages, k));
                assert(after[k][i] == stages[k][i]);
                assert(staged(stages, k, y) || stages[k].take(i).contains(y));
                assert(after[k].take(i) =~= stages[k].take(i));
            } else {
                assert(after[k][i] == x);
                assert(staged(stages, n, y));
                if fresh {
                    assert(n == k);
                } else {
                    let a = choose|a: int| 0 <= a < n && (#[trigger] stages[a]).contains(y);
                    if a < k {
                        assert(staged(stages, k, y));
                    } else {
                        assert(after[k].take(i) =~= stages[k]);
                    }
                }
            }
        }
    }
    assert forall|k: int| 0 <= k < after.len() - 1 implies #[trigger] stage_full(
        edges,
        all,
        render,
        after,
        k,
    ) by {
        lemma_same_start(edges, all, stages, after, k + 1);
        assert(stage_full(edges, all, render, stages, k));
        assert(after[k] == stages[k]);
        assert forall|y: u64| #[trigger] ready(edges, all, after, k + 1, y) implies render.contains(
            y,
        ) != render.contains(after[k][0]) by {
            assert(ready(edges, all, stages, k + 1, y));
        }
    }
    assert forall|k: int, l: int|
        #![trigger after[k], after[l]]
        0 <= k && l == k + 1 && l < after.len() implies render.contains(after[k][0])
        != render.contains(after[l][0]) by {
        assert(stage_ok(all, render, after, l));
        if l < last {
            assert(render.contains(stages[k][0]) != render.contains(stages[l][0]));
        } else if fresh {
            assert(after[l][0] == x);
            assert(after[k] == stages.last());
        } else {
            assert(stage_ok(all, render, stages, l));
            assert(after[l][0] == stages[l][0]);
            assert(after[k] == stages[k]);
            assert(render.contains(stages[k][0]) != render.contains(stages[l][0]));
        }
    }
    lemma_same_start(edges, all, stages, after, 0);
    if n == 0 {
        assert(after[0][0] == x);
        if render.contains(x) {
            let y = choose|y: u64|
                render.contains(y) && #[trigger] ready(edges, all, stages, 0, y);
            assert(ready(edges, all, after, 0, y));
        }
        if exists|y: u64| render.contains(y) && #[trigger] ready(edges, all, after, 0, y) {
            let y = choose|y: u64| render.contains(y) && #[trigger] ready(edges, all, after, 0, y);
            assert(ready(edges, all, stages, 0, y));
        }
    } else {
        assert(stage_ok(all, render, stages, 0));
        assert(after[0][0] == stages[0][0]);
        if exists|y: u64| render.contains(y) && #[trigger] ready(edges, all, after, 0, y) {
            let y = choose|y: u64| render.contains(y) && #[trigger] ready(edges, all, after, 0, y);
            assert(ready(edges, all, stages, 0, y));
        }
        if exists|y: u64| render.contains(y) && #[trigger] ready(edges, all, stages, 0, y) {
            let y = choose|y: u64|
                render.contains(y) && #[trigger] ready(edges, all, stages, 0, y);
            assert(ready(edges, all, after, 0, y));
        }
    }
}

/// Puts a system into a new stage or at the end of the last.
fn place(stages: &mut Vec<Vec<u64>>, fresh: bool, system: u64)
    requires
        fresh || old(stages)@.len() > 0,
    ensures
        stage_lists(final(stages)@) == placed(stage_lists(old(stages)@), fresh, system),
{
    let ghost before = stages@;
    let mut stage: Vec<u64> = Vec::new();
    if !fresh {
        stage = stages.pop().unwrap();
    }
    stage.push(system);
    stages.push(stage);
    assert(stage_lists(stages@) =~= placed(stage_lists(before), fresh, system)) by {
        if fresh {
            assert(stage@ =~= seq![system]);
        }
    }
}

/// How many of the first `upto` systems are not done.
spec fn undone(done: Seq<bool>, upto: int) -> nat
    decreases upto,
{
    if upto <= 0 {
        0
    } else {
        undone(done, upto - 1) + if done[upto - 1] {
            0nat
        } else {
            1nat
        }
    }
}

proof fn lemma_undone(done: Seq<bool>, s: int, upto: int)
    requires
        0 <= upto <= done.len(),
        0 <= s < done.len(),
        !done[s],
    ensures
        undone(done, upto) == undone(done.update(s, true), upto) + if s < upto {
            1nat
        } else {
            0nat
        },
    decreases upto,
{
    if upto > 0 {
        lemma_undone(done, s, upto - 1);
    }
}

/// The queue holds the systems of one kind that are not done and for which
/// nothing is left to wait.
spec fn queue_ok(
    kinds: Seq<bool>,
    degree: Seq<usize>,
    done: Seq<bool>,
    queue: Seq<usize>,
    kind: bool,
) -> bool {
    &&& queue.no_duplicates()
    &&& forall|x: int|
        0 <= x < queue.len() ==> {
            &&& #[trigger] queue[x] < degree.len()
            &&& !done[queue[x] as int]
            &&& degree[queue[x] as int] == 0
            &&& kinds[queue[x] as int] == kind
        }
    &&& forall|i: usize|
        i < degree.len() && !done[i as int] && degree[i as int] == 0 && kinds[i as int] == kind
            ==> #[trigger] queue.contains(i)
}

/// A system that has nothing left to wait for enters the queue of its kind.
proof fn lemma_enqueue(
    kinds: Seq<bool>,
    before: Seq<usize>,
    done: Seq<bool>,
    queue: Seq<usize>,
    kind: bool,
    i: usize,
)
    requires
        i < before.len(),
        before[i as int] > 0,
        !done[i as int],
        queue_ok(kinds, before, done, queue, kind),
    ensures
        kinds[i as int] == kind ==> queue_ok(
            kinds,
            before.update(i as int, 0),
            done,
            queue.push(i),
            kind,
        ),
        kinds[i as int] != kind ==> queue_ok(
            kinds,
            before.update(i as int, 0),
            done,
            queue,
            kind,
        ),
        forall|v: usize|
            v > 0 ==> queue_ok(kinds, #[trigger] before.update(i as int, v), done, queue, kind),
{
    lemma_listed(queue, i);
    assert(!queue.contains(i)) by {
        if queue.contains(i) {
            let x = choose|x: int| 0 <= x < queue.len() && queue[x] == i;
        }
    }
    let after = before.update(i as int, 0);
    if kinds[i as int] == kind {
        let longer = queue.push(i);
        assert forall|x: int| 0 <= x < longer.len() implies {
            &&& #[trigger] longer[x] < after.len()
            &&& !done[longer[x] as int]
            &&& after[longer[x] as int] == 0
            &&& kinds[longer[x] as int] == kind
        } by {
            if x < queue.len() {
                assert(longer[x] == queue[x]);
            }
        }
    }
    assert forall|v: usize| v > 0 implies queue_ok(
        kinds,
        #[trigger] before.update(i as int, v),
        done,
        queue,
        kind,
    ) by {
        let changed = before.update(i as int, v);
        assert forall|x: int| 0 <= x < queue.len() implies {
            &&& #[trigger] queue[x] < changed.len()
            &&& !done[queue[x] as int]
            &&& changed[queue[x] as int] == 0
            &&& kinds[queue[x] as int] == kind
        } by {
            assert(queue.contains(queue[x]));
        }
    }
    if kinds[i as int] != kind {
        assert forall|x: int| 0 <= x < queue.len() implies {
            &&& #[trigger] queue[x] < after.len()
            &&& !done[queue[x] as int]
            &&& after[queue[x] as int] == 0
            &&& kinds[queue[x] as int] == kind
        } by {
            assert(queue.contains(queue[x]));
        }
    }
}

/// A system that leaves its queue is done.
proof fn lemma_dequeue(
    kinds: Seq<bool>,
    degree: Seq<usize>,
    done: Seq<bool>,
    queue: Seq<usize>,
    kind: bool,
    s: usize,
)
    requires
        done.len() == degree.len(),
        s < degree.len(),
        queue_ok(kinds, degree, done, queue, kind),
        kinds[s as int] == kind ==> queue.len() > 0 && queue.last() == s,
    ensures
        kinds[s as int] == kind ==> queue_ok(
            kinds,
            degree,
            done.update(s as int, true),
            queue.drop_last(),
            kind,
        ),
        kinds[s as int] != kind ==> queue_ok(
            kinds,
            degree,
            done.update(s as int, true),
            queue,
            kind,
        ),
{
    let after = done.update(s as int, true);
    if kinds[s as int] == kind {
        let rest = queue.drop_last();
        lemma_listed(rest, s);
        assert(queue =~= rest.push(s));
        assert forall|x: int| 0 <= x < rest.len() implies {
            &&& #[trigger] rest[x] < degree.len()
            &&& !after[rest[x] as int]
            &&& degree[rest[x] as int] == 0
            &&& kinds[rest[x] as int] == kind
        } by {
            assert(rest[x] == queue[x]);
            assert(queue[x] != queue[queue.len() - 1]);
        }
        assert forall|i: usize|
            i < degree.len() && !after[i as int] && degree[i as int] == 0 && kinds[i as int]
                == kind implies #[trigger] rest.contains(i) by {
            assert(queue.contains(i));
        }
    }
}

/// What the queues and the stages hold, by the systems' places, agrees with
/// what the stages say.
spec fn progress_ok(
    edges: Set<(u64, u64)>,
    all: Seq<u64>,
    degree: Seq<usize>,
    done: Seq<bool>,
    stages: Seq<Seq<u64>>,
) -> bool {
    &&& degree.len() == all.len()
    &&& done.len() == all.len()
    &&& forall|i: int|
        0 <= i < all.len() ==> #[trigger] degree[i] == pending(
            edges,
            all,
            done,
            i,
            all.len() as int,
        )
    &&& forall|i: int| 0 <= i < all.len() && #[trigger] done[i] ==> degree[i] == 0
    &&& forall|i: int|
        0 <= i < all.len() ==> (#[trigger] done[i] <==> staged(
            stages,
            stages.len() as int,
            all[i],
        ))
}

proof fn lemma_ready(
    edges: Set<(u64, u64)>,
    all: Seq<u64>,
    degree: Seq<usize>,
    done: Seq<bool>,
    stages: Seq<Seq<u64>>,
    i: int,
)
    requires
        progress_ok(edges, all, degree, done, stages),
        0 <= i < all.len(),
    ensures
        ready(edges, all.to_set(), stages, stages.len() as int, all[i]) <==> !done[i] && degree[i]
            == 0,
{
    let n = all.len() as int;
    lemma_pending_zero(edges, all, done, i, n);
    assert(all.to_set().contains(all[i])) by {
        assert(all.contains(all[i]));
    }
    assert(done[i] <==> staged(stages, stages.len() as int, all[i]));
    assert(degree[i] == pending(edges, all, done, i, n));
    if ready(edges, all.to_set(), stages, stages.len() as int, all[i]) {
        assert forall|j: int| 0 <= j < n && edges.contains((#[trigger] all[j], all[i])) implies done[
            j] by {
            assert(all.contains(all[j]));
            assert(all.to_set().contains(all[j]));
            assert(staged(stages, stages.len() as int, all[j]));
        }
    }
    if !done[i] && degree[i] == 0 {
        assert forall|y: u64|
            all.to_set().contains(y) && #[trigger] edges.contains((y, all[i])) implies staged(
            stages,
            stages.len() as int,
            y,
        ) by {
            assert(all.contains(y));
            let j = choose|j: int| 0 <= j < n && all[j] == y;
            assert(edges.contains((all[j], all[i])));
            assert(done[j]);
        }
    }
}

/// The stages in which the systems of a submission set run.
#[verifier::rlimit(60)]
pub fn render_stages(graph: &SystemGraph, render_systems: &[u64], nonrender_systems: &[u64]) -> (r:
    Vec<Vec<u64>>)
    requires
        forall|i: int|
            0 <= i < render_systems@.len() ==> graph::is_key(#[trigger] render_systems@[i]),
        forall|i: int|
            0 <= i < nonrender_systems@.len() ==> graph::is_key(#[trigger] nonrender_systems@[i]),
    ensures
        is_staging(
            graph::system_edges(*graph),
            render_systems@.to_set().union(nonrender_systems@.to_set()),
            render_systems@.to_set(),
            stage_lists(r@),
        ),
{
    let ghost edges = graph::system_edges(*graph);
    let ghost render = render_systems@.to_set();
    let mut all: Vec<u64> = Vec::new();
    let mut kinds: Vec<bool> = Vec::new();
    let mut places: HashMap<u64, usize> = HashMap::new();
    list_new(render_systems, true, &mut all, &mut kinds, &mut places);
    let ghost first = all@;
    list_new(nonrender_systems, false, &mut all, &mut kinds, &mut places);
    let ghost every = all@.to_set();
    proof {
        assert(every =~= render.union(nonrender_systems@.to_set())) by {
            assert forall|x: u64| every.contains(x) <==> render.union(
                nonrender_systems@.to_set(),
            ).contains(x) by {
                assert(all@.contains(x) <==> first.contains(x) || nonrender_systems@.contains(x));
                assert(first.contains(x) <==> render_systems@.contains(x));
            }
        }
        assert forall|i: int| 0 <= i < all@.len() implies #[trigger] kinds@[i] == render.contains(
            all@[i],
        ) by {
            if i < first.len() {
                assert(first[i] == all@[i]);
                assert(first.contains(first[i]));
            } else if render.contains(all@[i]) {
                assert(first.contains(all@[i]));
                let j = choose|j: int| 0 <= j < first.len() && first[j] == all@[i];
                assert(all@[j] == all@[i]);
                assert(places@[all@[j]] == j && places@[all@[i]] == i);
            }
        }
    }
    let (successors, mut degree) = count_edges(graph, &all, &places);
    let n: usize = all.len();
    let ghost mut done: Seq<bool> = Seq::new(n as nat, |i: int| false);
    let mut ready_render: Vec<usize> = Vec::new();
    let mut ready_nonrender: Vec<usize> = Vec::new();
    let mut i: usize = 0;
    while i < n
        invariant
            i <= n,
            degree@.len() == n,
            kinds@.len() == n,
            done == Seq::new(n as nat, |i: int| false),
            ready_render@.no_duplicates(),
            ready_nonrender@.no_duplicates(),
            forall|x: int|
                0 <= x < ready_render@.len() ==> {
                    &&& #[trigger] ready_render@[x] < i
                    &&& degree@[ready_render@[x] as int] == 0
                    &&& kinds@[ready_render@[x] as int]
                },
            forall|x: int|
                0 <= x < ready_nonrender@.len() ==> {
                    &&& #[trigger] ready_nonrender@[x] < i
                    &&& degree@[ready_nonrender@[x] as int] == 0
                    &&& !kinds@[ready_nonrender@[x] as int]
                },
            forall|x: usize|
                x < i && degree@[x as int] == 0 && kinds@[x as int]
                    ==> #[trigger] ready_render@.contains(x),
            forall|x: usize|
                x < i && degree@[x as int] == 0 && !kinds@[x as int]
                    ==> #[trigger] ready_nonrender@.contains(x),
        decreases n - i,
    {
        if degree[i] == 0 {
            if kinds[i] {
                proof {
                    lemma_listed(ready_render@, i);
                }
                ready_render.push(i);
            } else {
                proof {
                    lemma_listed(ready_nonrender@, i);
                }
                ready_nonrender.push(i);
            }
        }
        i += 1;
    }
    let mut current_is_render = ready_render.len() > 0;
    let mut last_is_render = false;
    let mut stages: Vec<Vec<u64>> = Vec::new();
    proof {
        assert(stage_lists(stages@) =~= Seq::<Seq<u64>>::empty());
        assert forall|i: int| 0 <= i < n implies (#[trigger] done[i] <==> staged(
            stage_lists(stages@),
            0,
            all@[i],
        )) by {}
    }
    while ready_render.len() > 0 || ready_nonrender.len() > 0
        invariant
            n == all@.len(),
            every == all@.to_set(),
            kinds@.len() == n,
            successors@.len() == n,
            successors_ok(edges, all@, successors@, n as int),
            forall|i: int| 0 <= i < n ==> #[trigger] kinds@[i] == render.contains(all@[i]),
            forall|i: int| 0 <= i < n ==> graph::is_key(#[trigger] all@[i]),
            progress_ok(edges, all@, degree@, done, stage_lists(stages@)),
            queue_ok(kinds@, degree@, done, ready_render@, true),
            queue_ok(kinds@, degree@, done, ready_nonrender@, false),
            places_ok(all@, places@),
            partial(edges, every, render, stage_lists(stages@)),
            stages@.len() == 0 ==> current_is_render == (ready_render@.len() > 0),
            stages@.len() > 0 ==> last_is_render == render.contains(
                stage_lists(stages@).last()[0],
            ),
            stages@.len() > 0 && last_is_render && !current_is_render ==> ready_render@.len() == 0,
            stages@.len() > 0 && !last_is_render && current_is_render ==> ready_nonrender@.len()
                == 0,
        decreases
                undone(done, n as int),
                (if (current_is_render && ready_render@.len() > 0) || (!current_is_render
                    && ready_nonrender@.len() > 0) {
                    0int
                } else {
                    1int
                }),
    {
        let ghost lists = stage_lists(stages@);
        let ghost done_before = done;
        let ghost render_before = ready_render@;
        let ghost nonrender_before = ready_nonrender@;
        let s: usize;
        if current_is_render && ready_render.len() > 0 {
            s = ready_render.pop().unwrap();
            assert(render_before.last() == s && render_before[render_before.len() - 1] == s);
            assert(ready_render@ =~= render_before.drop_last());
        } else if !current_is_render && ready_nonrender.len() > 0 {
            s = ready_nonrender.pop().unwrap();
            assert(nonrender_before.last() == s && nonrender_before[nonrender_before.len() - 1]
                == s);
            assert(ready_nonrender@ =~= nonrender_before.drop_last());
        } else {
            current_is_render = !current_is_render;
            continue;
        }
        let fresh = stages.len() == 0 || last_is_render != current_is_render;
        proof {
            assert(kinds@[s as int] == current_is_render);
            lemma_ready(edges, all@, degree@, done, lists, s as int);
            lemma_dequeue(kinds@, degree@, done, render_before, true, s);
            lemma_dequeue(kinds@, degree@, done, nonrender_before, false, s);
            assert(!done[s as int] && degree@[s as int] == 0);
            if stages@.len() == 0 {
                if current_is_render {
                    assert(render.contains(all@[s as int]) && ready(
                        edges,
                        every,
                        lists,
                        0,
                        all@[s as int],
                    ));
                }
                if exists|y: u64| render.contains(y) && #[trigger] ready(
                    edges,
                    every,
                    lists,
                    0,
                    y,
                ) {
                    let y = choose|y: u64|
                        render.contains(y) && #[trigger] ready(edges, every, lists, 0, y);
                    assert(all@.contains(y));
                    let j = choose|j: int| 0 <= j < n && all@[j] == y;
                    lemma_ready(edges, all@, degree@, done, lists, j);
                    assert(kinds@[j]);
                    assert(render_before.contains(j as usize));
                    assert(render_before.len() > 0);
                }
            } else if fresh {
                assert(stage_full(edges, every, render, lists, lists.len() - 1)) by {
                    assert forall|y: u64| #[trigger]
                        ready(edges, every, lists, lists.len() as int, y) implies render.contains(y)
                        != render.contains(lists.last()[0]) by {
                        assert(all@.contains(y));
                        let j = choose|j: int| 0 <= j < n && all@[j] == y;
                        lemma_ready(edges, all@, degree@, done, lists, j);
                        if kinds@[j] {
                            assert(render_before.contains(j as usize));
                            assert(render_before.len() > 0);
                        } else {
                            assert(nonrender_before.contains(j as usize));
                            assert(nonrender_before.len() > 0);
                        }
                    }
                }
            }
            lemma_placed(edges, every, render, lists, fresh, all@[s as int]);
            lemma_placed_staged(lists, fresh, all@[s as int]);
        }
        place(&mut stages, fresh, all[s]);
        last_is_render = current_is_render;
        let ghost after = stage_lists(stages@);
        proof {
            assert(stage_ok(every, render, after, after.len() - 1));
            assert(render.contains(after.last()[0]) == current_is_render) by {
                if fresh {
                    assert(after.last()[0] == all@[s as int]);
                } else {
                    assert(stage_ok(every, render, lists, lists.len() - 1));
                    assert(after.last()[0] == lists.last()[0]);
                }
            }
            done = done.update(s as int, true);
            lemma_undone(done_before, s as int, n as int);
            assert forall|i: int| 0 <= i < n implies (#[trigger] done[i] <==> staged(
                after,
                after.len() as int,
                all@[i],
            )) by {
                assert(done_before[i] <==> staged(lists, lists.len() as int, all@[i]));
                if all@[i] == all@[s as int] {
                    assert(places@[all@[i]] == i && places@[all@[s as int]] == s);
                }
            }
        }
        let next = &successors[s];
        assert(successor_list_ok(edges, all@, successors@[s as int]@, s as int));
        proof {
            lemma_pending_zero(edges, all@, done_before, s as int, n as int);
            assert forall|i: int| 0 <= i < n && #[trigger] done[i] implies !next@.contains(
                i as usize,
            ) by {
                lemma_pending_zero(edges, all@, done_before, i, n as int);
                if next@.contains(i as usize) {
                    assert(edges.contains((all@[s as int], all@[i])));
                    assert(degree@[i] == pending(edges, all@, done_before, i, n as int));
                    assert(done_before[s as int]);
                }
            }
            assert forall|i: int| 0 <= i < n implies #[trigger] degree@[i] == pending(
                edges,
                all@,
                done,
                i,
                n as int,
            ) + if next@.skip(0).contains(i as usize) {
                1nat
            } else {
                0nat
            } by {
                lemma_pending_done(edges, all@, done_before, s as int, i, n as int);
                assert(next@.skip(0) =~= next@);
                assert(next@.contains(i as usize) <==> edges.contains(
                    (all@[s as int], all@[i]),
                ));
            }
        }
        let mut t: usize = 0;
        while t < next.len()
            invariant
                n == all@.len(),
                kinds@.len() == n,
                degree@.len() == n,
                done.len() == n,
                t <= next@.len(),
                successor_list_ok(edges, all@, next@, s as int),
                queue_ok(kinds@, degree@, done, ready_render@, true),
                queue_ok(kinds@, degree@, done, ready_nonrender@, false),
                forall|i: int| 0 <= i < n && #[trigger] done[i] ==> !next@.contains(i as usize),
                forall|i: int| 0 <= i < n && #[trigger] done[i] ==> degree@[i] == 0,
                forall|i: int|
                    0 <= i < n ==> #[trigger] degree@[i] == pending(edges, all@, done, i, n as int)
                        + if next@.skip(t as int).contains(i as usize) {
                        1nat
                    } else {
                        0nat
                    },
                last_is_render ==> current_is_render,
                !last_is_render ==> !current_is_render,
            decreases next@.len() - t,
        {
            let i: usize = next[t];
            let ghost counted = degree@;
            let ghost rest = next@.skip(t as int);
            proof {
                assert(rest[0] == i);
                assert(rest.contains(i));
                assert(next@.contains(i));
                assert(!done[i as int]);
                lemma_enqueue(kinds@, degree@, done, ready_render@, true, i);
                lemma_enqueue(kinds@, degree@, done, ready_nonrender@, false, i);
            }
            let left: usize = degree[i] - 1;
            degree.set(i, left);
            if left == 0 {
                if kinds[i] {
                    ready_render.push(i);
                } else {
                    ready_nonrender.push(i);
                }
            }
            proof {
                let shorter = next@.skip(t + 1);
                assert forall|x: int| 0 <= x < n implies #[trigger] degree@[x] == pending(
                    edges,
                    all@,
                    done,
                    x,
                    n as int,
                ) + if shorter.contains(x as usize) {
                    1nat
                } else {
                    0nat
                } by {
                    assert(counted[x] == pending(edges, all@, done, x, n as int) + if rest.contains(
                        x as usize,
                    ) {
                        1nat
                    } else {
                        0nat
                    });
                    if x == i {
                        assert(!shorter.contains(i)) by {
                            if shorter.contains(i) {
                                let y = choose|y: int|
                                    0 <= y < shorter.len() && shorter[y] == i;
                                assert(next@[t + 1 + y] == next@[t as int]);
                            }
                        }
                    } else {
                        if rest.contains(x as usize) {
                            let y = choose|y: int| 0 <= y < rest.len() && rest[y] == x as usize;
                            assert(shorter[y - 1] == x as usize);
                        }
                        if shorter.contains(x as usize) {
                            let y = choose|y: int|
                                0 <= y < shorter.len() && shorter[y] == x as usize;
                            assert(rest[y + 1] == x as usize);
                        }
                    }
                }
            }
            t += 1;
        }
        assert(next@.skip(t as int) =~= Seq::<usize>::empty());
    }
    proof {
        let lists = stage_lists(stages@);
        assert forall|y: u64| !#[trigger] ready(edges, every, lists, lists.len() as int, y) by {
            if ready(edges, every, lists, lists.len() as int, y) {
                assert(all@.contains(y));
                let j = choose|j: int| 0 <= j < n && all@[j] == y;
                lemma_ready(edges, all@, degree@, done, lists, j);
                if kinds@[j] {
                    assert(ready_render@.contains(j as usize));
                } else {
                    assert(ready_nonrender@.contains(j as usize));
                }
            }
        }
        if lists.len() > 0 {
            assert(stage_full(edges, every, render, lists, lists.len() - 1));
        }
    }
    stages
}

// ---------------------------------------------------------------------------
// Edges between the stages
// ---------------------------------------------------------------------------

/// Edges from one system to others, where they close no cycle.
pub open spec fn linked_one(edges: Set<(u64, u64)>, from: u64, tos: Seq<u64>) -> Set<(u64, u64)>
    decreases tos.len(),
{
    if tos.len() == 0 {
        edges
    } else {
        graph::with_edge_if_acyclic(linked_one(edges, from, tos.drop_last()), from, tos.last())
    }
}

/// Edges from each system of a stage to each of another.
pub open spec fn linked(edges: Set<(u64, u64)>, froms: Seq<u64>, tos: Seq<u64>) -> Set<(u64, u64)>
    decreases froms.len(),
{
    if froms.len() == 0 {
        edges
    } else {
        linked_one(linked(edges, froms.drop_last(), tos), froms.last(), tos)
    }
}

/// Edges from each stage to the next.
pub open spec fn linked_stages(edges: Set<(u64, u64)>, stages: Seq<Seq<u64>>) -> Set<(u64, u64)>
    decreases stages.len(),
{
    if stages.len() <= 1 {
        edges
    } else {
        linked(
            linked_stages(edges, stages.drop_last()),
            stages[stages.len() - 2],
            stages[stages.len() - 1],
        )
    }
}

/// The graph after its systems were grouped.
pub open spec fn is_grouped(
    before: Set<(u64, u64)>,
    after: Set<(u64, u64)>,
    render: Set<u64>,
    nonrender: Set<u64>,
) -> bool {
    if render.is_empty() || nonrender.is_empty() {
        after == before
    } else {
        exists|stages: Seq<Seq<u64>>|
            is_staging(before, render.union(nonrender), render, stages) && after
                == #[trigger] linked_stages(before, stages)
    }
}

/// Orders the systems of a submission set so that render systems run next to
/// each other, as far as the order asked for lets them.
pub fn add_render_grouping_edges(
    dependency_flattened: &mut SystemGraph,
    render_systems: &[u64],
    nonrender_systems: &[u64],
)
    requires
        old(dependency_flattened).wf(),
        forall|i: int|
            0 <= i < render_systems@.len() ==> graph::is_key(#[trigger] render_systems@[i]),
        forall|i: int|
            0 <= i < nonrender_systems@.len() ==> graph::is_key(#[trigger] nonrender_systems@[i]),
    ensures
        final(dependency_flattened).wf(),
        is_grouped(
            graph::system_edges(*old(dependency_flattened)),
            graph::system_edges(*final(dependency_flattened)),
            render_systems@.to_set(),
            nonrender_systems@.to_set(),
        ),
{
    let ghost before = graph::system_edges(*dependency_flattened);
    let ghost render = render_systems@.to_set();
    let ghost nonrender = nonrender_systems@.to_set();
    if render_systems.len() == 0 {
        assert(render =~= Set::empty());
        return;
    }
    if nonrender_systems.len() == 0 {
        assert(nonrender =~= Set::empty());
        return;
    }
    proof {
        assert(render_systems@.contains(render_systems@[0]));
        assert(render.contains(render_systems@[0]));
        assert(nonrender_systems@.contains(nonrender_systems@[0]));
        assert(nonrender.contains(nonrender_systems@[0]));
    }
    let stages = render_stages(dependency_flattened, render_systems, nonrender_systems);
    let ghost lists = stage_lists(stages@);
    assert forall|k: int, i: int| 0 <= k < lists.len() && 0 <= i < lists[k].len() implies graph::is_key(
        #[trigger] lists[k][i],
    ) by {
        assert(stage_ok(render.union(nonrender), render, lists, k));
        let x = lists[k][i];
        if render_systems@.contains(x) {
            let j = choose|j: int| 0 <= j < render_systems@.len() && render_systems@[j] == x;
            assert(graph::is_key(render_systems@[j]));
        } else {
            assert(nonrender_systems@.contains(x));
            let j = choose|j: int| 0 <= j < nonrender_systems@.len() && nonrender_systems@[j] == x;
            assert(graph::is_key(nonrender_systems@[j]));
        }
    }
    let mut k: usize = 1;
    assert(stages@.len() > 0 ==> lists.take(1).len() == 1);
    while k < stages.len()
        invariant
            1 <= k,
            stages@.len() > 0 ==> k <= stages@.len(),
            lists == stage_lists(stages@),
            dependency_flattened.wf(),
            before == graph::system_edges(*old(dependency_flattened)),
            forall|k: int, i: int|
                0 <= k < lists.len() && 0 <= i < lists[k].len() ==> graph::is_key(
                    #[trigger] lists[k][i],
                ),
            stages@.len() > 0 ==> graph::system_edges(*dependency_flattened) == linked_stages(
                before,
                lists.take(k as int),
            ),
            stages@.len() == 0 ==> graph::system_edges(*dependency_flattened) == before,
        decreases stages@.len() - k,
    {
        let froms = &stages[k - 1];
        let tos = &stages[k];
        assert(froms@ == lists[k - 1] && tos@ == lists[k as int]);
        let ghost base = graph::system_edges(*dependency_flattened);
        let mut i: usize = 0;
        while i < froms.len()
            invariant
                i <= froms@.len(),
                dependency_flattened.wf(),
                forall|j: int| 0 <= j < froms@.len() ==> graph::is_key(#[trigger] froms@[j]),
                forall|j: int| 0 <= j < tos@.len() ==> graph::is_key(#[trigger] tos@[j]),
                graph::system_edges(*dependency_flattened) == linked(
                    base,
                    froms@.take(i as int),
                    tos@,
                ),
            decreases froms@.len() - i,
        {
            let ghost row = graph::system_edges(*dependency_flattened);
            let from: u64 = froms[i];
            let mut j: usize = 0;
            while j < tos.len()
                invariant
                    j <= tos@.len(),
                    dependency_flattened.wf(),
                    graph::is_key(from),
                    forall|j: int| 0 <= j < tos@.len() ==> graph::is_key(#[trigger] tos@[j]),
                    graph::system_edges(*dependency_flattened) == linked_one(
                        row,
                        from,
                        tos@.take(j as int),
                    ),
                decreases tos@.len() - j,
            {
                add_edge_if_acyclic(dependency_flattened, from, tos[j]);
                assert(tos@.take(j + 1).drop_last() =~= tos@.take(j as int));
                j += 1;
            }
            assert(tos@.take(j as int) =~= tos@);
            assert(froms@.take(i + 1).drop_last() =~= froms@.take(i as int));
            i += 1;
        }
        assert(froms@.take(i as int) =~= froms@);
        proof {
            let longer = lists.take(k + 1);
            assert(longer.drop_last() =~= lists.take(k as int));
            assert(longer[longer.len() - 2] == froms@);
            assert(longer[longer.len() - 1] == tos@);
        }
        k += 1;
    }
    proof {
        if stages@.len() > 0 {
            assert(lists.take(k as int) =~= lists);
        }
        assert(graph::system_edges(*dependency_flattened) == linked_stages(before, lists));
    }
}

// ---------------------------------------------------------------------------
// Laws
// ---------------------------------------------------------------------------

proof fn lemma_linked_one_acyclic(edges: Set<(u64, u64)>, from: u64, tos: Seq<u64>)
    requires
        graph::is_acyclic(edges),
    ensures
        graph::is_acyclic(linked_one(edges, from, tos)),
    decreases tos.len(),
{
    if tos.len() > 0 {
        lemma_linked_one_acyclic(edges, from, tos.drop_last());
        let shorter = linked_one(edges, from, tos.drop_last());
        if from != tos.last() && !graph::reaches(shorter, tos.last(), from) {
            graph::lemma_edge_keeps_acyclic(shorter, from, tos.last());
        }
    }
}

proof fn lemma_linked_acyclic(edges: Set<(u64, u64)>, froms: Seq<u64>, tos: Seq<u64>)
    requires
        graph::is_acyclic(edges),
    ensures
        graph::is_acyclic(linked(edges, froms, tos)),
    decreases froms.len(),
{
    if froms.len() > 0 {
        lemma_linked_acyclic(edges, froms.drop_last(), tos);
        lemma_linked_one_acyclic(linked(edges, froms.drop_last(), tos), froms.last(), tos);
    }
}

proof fn lemma_linked_stages_acyclic(edges: Set<(u64, u64)>, stages: Seq<Seq<u64>>)
    requires
        graph::is_acyclic(edges),
    ensures
        graph::is_acyclic(linked_stages(edges, stages)),
    decreases stages.len(),
{
    if stages.len() > 1 {
        lemma_linked_stages_acyclic(edges, stages.drop_last());
        lemma_linked_acyclic(
            linked_stages(edges, stages.drop_last()),
            stages[stages.len() - 2],
            stages[stages.len() - 1],
        );
    }
}

/// Grouping closes no cycle.
pub proof fn law_grouping_keeps_acyclic(
    before: Set<(u64, u64)>,
    after: Set<(u64, u64)>,
    render: Set<u64>,
    nonrender: Set<u64>,
)
    requires
        graph::is_acyclic(before),
        is_grouped(before, after, render, nonrender),
    ensures
        graph::is_acyclic(after),
{
    if !(render.is_empty() || nonrender.is_empty()) {
        let stages = choose|stages: Seq<Seq<u64>>|
            is_staging(before, render.union(nonrender), render, stages) && after
                == #[trigger] linked_stages(before, stages);
        lemma_linked_stages_acyclic(before, stages);
    }
}

proof fn lemma_linked_one_keeps(edges: Set<(u64, u64)>, from: u64, tos: Seq<u64>, e: (u64, u64))
    requires
        edges.contains(e),
    ensures
        linked_one(edges, from, tos).contains(e),
    decreases tos.len(),
{
    if tos.len() > 0 {
        lemma_linked_one_keeps(edges, from, tos.drop_last(), e);
    }
}

proof fn lemma_linked_keeps(
    edges: Set<(u64, u64)>,
    froms: Seq<u64>,
    tos: Seq<u64>,
    e: (u64, u64),
)
    requires
        edges.contains(e),
    ensures
        linked(edges, froms, tos).contains(e),
    decreases froms.len(),
{
    if froms.len() > 0 {
        lemma_linked_keeps(edges, froms.drop_last(), tos, e);
        lemma_linked_one_keeps(linked(edges, froms.drop_last(), tos), froms.last(), tos, e);
    }
}

proof fn lemma_linked_stages_keeps(edges: Set<(u64, u64)>, stages: Seq<Seq<u64>>, e: (u64, u64))
    requires
        edges.contains(e),
    ensures
        linked_stages(edges, stages).contains(e),
    decreases stages.len(),
{
    if stages.len() > 1 {
        lemma_linked_stages_keeps(edges, stages.drop_last(), e);
        lemma_linked_keeps(
            linked_stages(edges, stages.drop_last()),
            stages[stages.len() - 2],
            stages[stages.len() - 1],
            e,
        );
    }
}

/// Grouping takes no edge away.
pub proof fn law_grouping_keeps_edges(
    before: Set<(u64, u64)>,
    after: Set<(u64, u64)>,
    render: Set<u64>,
    nonrender: Set<u64>,
)
    requires
        is_grouped(before, after, render, nonrender),
    ensures
        before.subset_of(after),
{
    if !(render.is_empty() || nonrender.is_empty()) {
        let stages = choose|stages: Seq<Seq<u64>>|
            is_staging(before, render.union(nonrender), render, stages) && after
                == #[trigger] linked_stages(before, stages);
        assert forall|e: (u64, u64)| before.contains(e) implies after.contains(e) by {
            lemma_linked_stages_keeps(before, stages, e);
        }
    }
}

/// Grouping runs each stage after the one before it: every system of a stage runs
/// before every one of the next, unless the graph has them the other way round
/// already.
pub proof fn law_neighbouring_stages_run_in_order(
    edges: Set<(u64, u64)>,
    stages: Seq<Seq<u64>>,
    k: int,
    x: u64,
    y: u64,
)
    requires
        0 <= k,
        k + 1 < stages.len(),
        stages[k].contains(x),
        stages[k + 1].contains(y),
    ensures
        linked_stages(edges, stages).contains((x, y)) || graph::reaches(
            linked_stages(edges, stages),
            y,
            x,
        ),
    decreases stages.len(),
{
    let init = stages.drop_last();
    let before = linked_stages(edges, init);
    let after = linked_stages(edges, stages);
    if k + 2 == stages.len() {
        lemma_linked_pair(before, stages[k], stages[k + 1], x, y);
    } else {
        assert(init[k] == stages[k] && init[k + 1] == stages[k + 1]);
        law_neighbouring_stages_run_in_order(edges, init, k, x, y);
        assert forall|e: (u64, u64)| before.contains(e) implies after.contains(e) by {
            lemma_linked_keeps(before, stages[stages.len() - 2], stages[stages.len() - 1], e);
        }
        lemma_reaches_more(before, after, y, x);
    }
}

proof fn lemma_reaches_more(small: Set<(u64, u64)>, large: Set<(u64, u64)>, a: u64, b: u64)
    requires
        forall|e: (u64, u64)| small.contains(e) ==> large.contains(e),
    ensures
        graph::reaches(small, a, b) ==> graph::reaches(large, a, b),
{
    if graph::reaches(small, a, b) {
        let p = choose|p: Seq<u64>| #[trigger]
            graph::is_path(small, p) && p.first() == a && p.last() == b;
        assert(graph::is_path(large, p));
    }
}

proof fn lemma_linked_one_pair(edges: Set<(u64, u64)>, from: u64, tos: Seq<u64>, y: u64)
    requires
        tos.contains(y),
    ensures
        linked_one(edges, from, tos).contains((from, y)) || graph::reaches(
            linked_one(edges, from, tos),
            y,
            from,
        ),
    decreases tos.len(),
{
    let init = tos.drop_last();
    let before = linked_one(edges, from, init);
    let after = linked_one(edges, from, tos);
    assert(forall|e: (u64, u64)| before.contains(e) ==> after.contains(e));
    if tos.last() == y {
        if from == y {
            assert(graph::is_path(after, seq![y]));
        }
    } else {
        let i = choose|i: int| 0 <= i < tos.len() && tos[i] == y;
        assert(init[i] == y);
        lemma_linked_one_pair(edges, from, init, y);
        lemma_reaches_more(before, after, y, from);
    }
}

proof fn lemma_linked_pair(
    edges: Set<(u64, u64)>,
    froms: Seq<u64>,
    tos: Seq<u64>,
    x: u64,
    y: u64,
)
    requires
        froms.contains(x),
        tos.contains(y),
    ensures
        linked(edges, froms, tos).contains((x, y)) || graph::reaches(
            linked(edges, froms, tos),
            y,
            x,
        ),
    decreases froms.len(),
{
    let init = froms.drop_last();
    let before = linked(edges, init, tos);
    let after = linked(edges, froms, tos);
    if froms.last() == x {
        lemma_linked_one_pair(before, x, tos, y);
    } else {
        let i = choose|i: int| 0 <= i < froms.len() && froms[i] == x;
        assert(init[i] == x);
        lemma_linked_pair(edges, init, tos, x, y);
        assert forall|e: (u64, u64)| before.contains(e) implies after.contains(e) by {
            lemma_linked_one_keeps(before, froms.last(), tos, e);
        }
        lemma_reaches_more(before, after, y, x);
    }
}

/// Grouping orders nothing but systems of one stage before those of the next.
pub proof fn law_grouping_adds_edges_between_neighbours(
    edges: Set<(u64, u64)>,
    stages: Seq<Seq<u64>>,
    e: (u64, u64),
)
    requires
        linked_stages(edges, stages).contains(e),
        !edges.contains(e),
    ensures
        exists|k: int, l: int|
            0 <= k && l == k + 1 && l < stages.len() && (#[trigger] stages[k]).contains(e.0) && (
            #[trigger] stages[l]).contains(e.1),
    decreases stages.len(),
{
    if stages.len() > 1 {
        let init = stages.drop_last();
        let before = linked_stages(edges, init);
        let a = stages.len() - 2;
        let b = stages.len() - 1;
        if before.contains(e) {
            law_grouping_adds_edges_between_neighbours(edges, init, e);
            let (k, l) = choose|k: int, l: int|
                0 <= k && l == k + 1 && l < init.len() && (#[trigger] init[k]).contains(e.0) && (
                #[trigger] init[l]).contains(e.1);
            assert(stages[k] == init[k] && stages[l] == init[l]);
        } else {
            lemma_linked_adds(before, stages[a], stages[b], e);
            assert(stages[a].contains(e.0) && stages[b].contains(e.1));
        }
    }
}

proof fn lemma_linked_one_adds(edges: Set<(u64, u64)>, from: u64, tos: Seq<u64>, e: (u64, u64))
    requires
        linked_one(edges, from, tos).contains(e),
        !edges.contains(e),
    ensures
        e.0 == from,
        tos.contains(e.1),
    decreases tos.len(),
{
    if tos.len() > 0 {
        let init = tos.drop_last();
        if linked_one(edges, from, init).contains(e) {
            lemma_linked_one_adds(edges, from, init, e);
            let i = choose|i: int| 0 <= i < init.len() && init[i] == e.1;
            assert(tos[i] == e.1);
        } else {
            assert(tos[tos.len() - 1] == e.1);
        }
    }
}

proof fn lemma_linked_adds(
    edges: Set<(u64, u64)>,
    froms: Seq<u64>,
    tos: Seq<u64>,
    e: (u64, u64),
)
    requires
        linked(edges, froms, tos).contains(e),
        !edges.contains(e),
    ensures
        froms.contains(e.0),
        tos.contains(e.1),
    decreases froms.len(),
{
    if froms.len() > 0 {
        let init = froms.drop_last();
        let before = linked(edges, init, tos);
        if before.contains(e) {
            lemma_linked_adds(edges, init, tos, e);
            let i = choose|i: int| 0 <= i < init.len() && init[i] == e.0;
            assert(froms[i] == e.0);
        } else {
            lemma_linked_one_adds(before, froms.last(), tos, e);
            assert(froms[froms.len() - 1] == e.0);
        }
    }
}

/// Without cycles every system gets a stage.
pub proof fn law_every_system_gets_a_stage(
    edges: Set<(u64, u64)>,
    all: Set<u64>,
    render: Set<u64>,
    stages: Seq<Seq<u64>>,
    x: u64,
)
    requires
        edges.finite(),
        graph::is_acyclic(edges),
        is_staging(edges, all, render, stages),
        all.contains(x),
    ensures
        staged(stages, stages.len() as int, x),
{
    if !staged(stages, stages.len() as int, x) {
        let end = |e: (u64, u64)| e.1;
        let ends = edges.map(end);
        edges.lemma_map_finite(end);
        let y = lemma_deep_waiting(edges, all, render, stages, x, ends.len() + 1);
        assert forall|b: u64| #[trigger] graph::below(edges, y).contains(b) implies ends.contains(
            b,
        ) by {
            let p = choose|p: Seq<u64>| #[trigger]
                graph::is_path(edges, p) && p.len() >= 2 && p.first() == y && p.last() == b;
            let i = p.len() - 2;
            let j = p.len() - 1;
            assert(edges.contains((p[i], p[j])));
            assert(end((p[i], p[j])) == b);
        }
        vstd::set_lib::lemma_len_subset(graph::below(edges, y), ends);
    }
}

/// Before a system without a stage run others without one, however far back.
proof fn lemma_deep_waiting(
    edges: Set<(u64, u64)>,
    all: Set<u64>,
    render: Set<u64>,
    stages: Seq<Seq<u64>>,
    x: u64,
    depth: nat,
) -> (y: u64)
    requires
        edges.finite(),
        graph::is_acyclic(edges),
        is_staging(edges, all, render, stages),
        all.contains(x),
        !staged(stages, stages.len() as int, x),
    ensures
        all.contains(y),
        !staged(stages, stages.len() as int, y),
        graph::below(edges, y).len() >= depth,
    decreases depth,
{
    if depth == 0 {
        x
    } else {
        let z = lemma_deep_waiting(edges, all, render, stages, x, (depth - 1) as nat);
        assert(!ready(edges, all, stages, stages.len() as int, z));
        let y = choose|y: u64|
            all.contains(y) && #[trigger] edges.contains((y, z)) && !staged(
                stages,
                stages.len() as int,
                y,
            );
        graph::lemma_below(edges, y, z);
        y
    }
}

/// Which systems are in which stage follows from the graph alone.
pub proof fn law_stages_follow_from_the_graph(
    edges: Set<(u64, u64)>,
    all: Set<u64>,
    render: Set<u64>,
    a: Seq<Seq<u64>>,
    b: Seq<Seq<u64>>,
)
    requires
        is_staging(edges, all, render, a),
        is_staging(edges, all, render, b),
    ensures
        a.len() == b.len(),
        forall|k: int, x: u64|
            0 <= k < a.len() ==> (#[trigger] a[k].contains(x) <==> b[k].contains(x)),
{
    if a.len() <= b.len() {
        lemma_same_stages(edges, all, render, a, b, a.len() as int);
        if a.len() < b.len() {
            lemma_next_stage(edges, all, render, a, b, a.len() as int);
        }
        assert forall|k: int, x: u64| 0 <= k < a.len() implies (#[trigger] a[k].contains(x)
            <==> b[k].contains(x)) by {
            lemma_same_stages(edges, all, render, a, b, k + 1);
        }
    } else {
        lemma_same_stages(edges, all, render, b, a, b.len() as int);
        lemma_next_stage(edges, all, render, b, a, b.len() as int);
    }
}

/// Two stagings agree on their first `k` stages.
proof fn lemma_same_stages(
    edges: Set<(u64, u64)>,
    all: Set<u64>,
    render: Set<u64>,
    a: Seq<Seq<u64>>,
    b: Seq<Seq<u64>>,
    k: int,
)
    requires
        is_staging(edges, all, render, a),
        is_staging(edges, all, render, b),
        0 <= k <= a.len(),
        a.len() <= b.len(),
    ensures
        forall|x: u64| #[trigger] staged(a, k, x) == staged(b, k, x),
        forall|i: int, x: u64|
            0 <= i < k ==> (#[trigger] a[i].contains(x) <==> b[i].contains(x)),
        k > 0 ==> render.contains(a[k - 1][0]) == render.contains(b[k - 1][0]),
    decreases k,
{
    if k > 0 {
        let l = k - 1;
        lemma_same_stages(edges, all, render, a, b, l);
        lemma_same_ready(edges, all, a, b, l);
        assert(stage_ok(all, render, a, l) && stage_ok(all, render, b, l));
        if l == 0 {
            if render.contains(a[0][0]) {
                let x = choose|x: u64| render.contains(x) && #[trigger] ready(edges, all, a, 0, x);
                assert(ready(edges, all, b, 0, x));
            }
            if render.contains(b[0][0]) {
                let x = choose|x: u64| render.contains(x) && #[trigger] ready(edges, all, b, 0, x);
                assert(ready(edges, all, a, 0, x));
            }
        } else {
            assert(render.contains(a[l - 1][0]) != render.contains(a[l][0]));
            assert(render.contains(b[l - 1][0]) != render.contains(b[l][0]));
        }
        assert forall|x: u64| #[trigger] a[l].contains(x) <==> b[l].contains(x) by {
            if a[l].contains(x) {
                let i = choose|i: int| 0 <= i < a[l].len() && a[l][i] == x;
                lemma_in_stage(edges, all, render, a, b, l, i);
            }
            if b[l].contains(x) {
                let i = choose|i: int| 0 <= i < b[l].len() && b[l][i] == x;
                lemma_in_stage(edges, all, render, b, a, l, i);
            }
        }
        assert forall|x: u64| #[trigger] staged(a, k, x) == staged(b, k, x) by {
            if staged(a, k, x) {
                let i = choose|i: int| 0 <= i < k && (#[trigger] a[i]).contains(x);
                assert(b[i].contains(x));
            }
            if staged(b, k, x) {
                let i = choose|i: int| 0 <= i < k && (#[trigger] b[i]).contains(x);
                assert(a[i].contains(x));
            }
        }
    }
}

proof fn lemma_same_ready(
    edges: Set<(u64, u64)>,
    all: Set<u64>,
    a: Seq<Seq<u64>>,
    b: Seq<Seq<u64>>,
    k: int,
)
    requires
        forall|x: u64| #[trigger] staged(a, k, x) == staged(b, k, x),
    ensures
        forall|x: u64| #[trigger] ready(edges, all, a, k, x) == ready(edges, all, b, k, x),
{
    assert forall|x: u64| #[trigger] ready(edges, all, a, k, x) == ready(edges, all, b, k, x) by {
        assert(staged(a, k, x) == staged(b, k, x));
        if ready(edges, all, a, k, x) {
            assert forall|y: u64| all.contains(y) && #[trigger] edges.contains((y, x)) implies staged(
                b,
                k,
                y,
            ) by {
                assert(staged(a, k, y));
            }
        }
        if ready(edges, all, b, k, x) {
            assert forall|y: u64| all.contains(y) && #[trigger] edges.contains((y, x)) implies staged(
                a,
                k,
                y,
            ) by {
                assert(staged(b, k, y));
            }
        }
    }
}

/// An item of stage `k` of one staging is in stage `k` of the other.
proof fn lemma_in_stage(
    edges: Set<(u64, u64)>,
    all: Set<u64>,
    render: Set<u64>,
    a: Seq<Seq<u64>>,
    b: Seq<Seq<u64>>,
    k: int,
    i: int,
)
    requires
        is_staging(edges, all, render, a),
        is_staging(edges, all, render, b),
        0 <= k < a.len(),
        k < b.len(),
        0 <= i < a[k].len(),
        forall|x: u64| #[trigger] staged(a, k, x) == staged(b, k, x),
        render.contains(a[k][0]) == render.contains(b[k][0]),
    ensures
        b[k].contains(a[k][i]),
    decreases i,
{
    let x = a[k][i];
    assert(stage_ok(all, render, a, k));
    assert(all.contains(a[k][i]) && !staged(a, k, a[k][i]));
    assert(stage_ordered(edges, all, a, k));
    assert(stage_full(edges, all, render, b, k));
    if !b[k].contains(x) {
        assert(!staged(b, k, x));
        assert(!staged(b, k + 1, x)) by {
            if staged(b, k + 1, x) {
                let j = choose|j: int| 0 <= j < k + 1 && (#[trigger] b[j]).contains(x);
                if j < k {
                    assert(staged(b, k, x));
                }
            }
        }
        assert forall|y: u64| all.contains(y) && #[trigger] edges.contains((y, x)) implies staged(
            b,
            k + 1,
            y,
        ) by {
            assert(edges.contains((y, a[k][i])));
            if staged(a, k, y) {
                assert(staged(b, k, y));
                let j = choose|j: int| 0 <= j < k && (#[trigger] b[j]).contains(y);
                assert(b[j].contains(y));
            } else {
                assert(a[k].take(i).contains(y));
                let j = choose|j: int| 0 <= j < i && a[k].take(i)[j] == y;
                lemma_in_stage(edges, all, render, a, b, k, j);
                assert(b[k].contains(a[k][j]));
            }
        }
        assert(ready(edges, all, b, k + 1, x));
    }
}

/// What opens the next stage of one staging can run next in another that agrees
/// so far.
proof fn lemma_next_stage(
    edges: Set<(u64, u64)>,
    all: Set<u64>,
    render: Set<u64>,
    a: Seq<Seq<u64>>,
    b: Seq<Seq<u64>>,
    k: int,
)
    requires
        is_staging(edges, all, render, a),
        is_staging(edges, all, render, b),
        0 <= k < b.len(),
        forall|x: u64| #[trigger] staged(a, k, x) == staged(b, k, x),
    ensures
        ready(edges, all, a, k, b[k][0]),
{
    lemma_same_ready(edges, all, a, b, k);
    assert(stage_ok(all, render, b, k));
    assert(stage_ordered(edges, all, b, k));
    let x = b[k][0];
    assert forall|y: u64| all.contains(y) && #[trigger] edges.contains((y, x)) implies staged(
        b,
        k,
        y,
    ) by {
        assert(edges.contains((y, b[k][0])));
        assert(b[k].take(0).len() == 0);
    }
    assert(ready(edges, all, b, k, x));
}

} // verus!
