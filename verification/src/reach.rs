//! What following relationships reaches: exactly what can be reached in so many steps, each entity at
//! its distance.
use vstd::prelude::*;
use crate::budget::EffectiveBudget;
use crate::context::{
    all_pages_hold_every_entry, are_all_pages, is_on_a_page, ContextPage, PageSource,
};
use crate::domain::{MemoryEntityView, MemoryRelationshipView};
use crate::order::{in_order, values_stand_under_keys};
use crate::query::MemoryContextPolicyView;
use crate::repository::EdgeDirection;
use crate::sort::sorting_orders_and_keeps;
use crate::traversal::{
    edges_from, end_is_reached, followed, gathered, is_finished, neighbors, next_visit, started,
    traversed, visits, walked, with_edge, with_edges, with_neighbor, Edge, EdgeView, Traversal,
    VisitView, MAX_CONTEXT_CANDIDATES,
};

verus! {

/// Whether an edge leads from one entity to another.
pub open spec fn leads(
    relationships: Seq<MemoryRelationshipView>,
    policy: MemoryContextPolicyView,
    from: Seq<char>,
    to: Seq<char>,
) -> bool {
    exists|i: int|
        0 <= i < neighbors(relationships, policy, from).len() && (#[trigger] neighbors(
            relationships,
            policy,
            from,
        )[i]).neighbor == to
}

/// Whether an entity can be reached from some others in so many steps at most.
pub open spec fn within(
    relationships: Seq<MemoryRelationshipView>,
    policy: MemoryContextPolicyView,
    starts: Set<Seq<char>>,
    id: Seq<char>,
    steps: nat,
) -> bool
    decreases steps,
{
    if steps == 0 {
        starts.contains(id)
    } else {
        within(relationships, policy, starts, id, (steps - 1) as nat) || exists|before: Seq<char>|
            #[trigger] leads(relationships, policy, before, id) && within(
                relationships,
                policy,
                starts,
                before,
                (steps - 1) as nat,
            )
    }
}

/// Whether an entity waits in the queue.
spec fn waits(queue: Seq<VisitView>, id: Seq<char>) -> bool {
    exists|i: int| 0 <= i < queue.len() && (#[trigger] queue[i]).id == id
}

/// Whether everything that an entity leads to was selected, not too deep.
spec fn is_done(
    state: Traversal,
    relationships: Seq<MemoryRelationshipView>,
    policy: MemoryContextPolicyView,
    max_depth: u32,
    id: Seq<char>,
) -> bool {
    state.selected[id].depth >= max_depth || forall|to: Seq<char>| #[trigger]
        leads(relationships, policy, id, to) ==> state.selected.contains_key(to)
            && state.selected[to].depth <= state.selected[id].depth + 1
}

/// Whether the depths that were given so far are right, and the queue goes from near to far.
spec fn is_level(
    state: Traversal,
    relationships: Seq<MemoryRelationshipView>,
    policy: MemoryContextPolicyView,
    starts: Set<Seq<char>>,
    max_depth: u32,
    low: int,
) -> bool {
    &&& 0 <= low
    &&& forall|id: Seq<char>| #[trigger]
        state.selected.contains_key(id) ==> within(
            relationships,
            policy,
            starts,
            id,
            state.selected[id].depth as nat,
        ) && state.selected[id].depth <= low + 1 && state.selected[id].depth <= max_depth
    &&& forall|id: Seq<char>| #[trigger]
        starts.contains(id) ==> state.selected.contains_key(id) && state.selected[id].depth == 0
    &&& forall|i: int|
        0 <= i < state.queue.len() ==> state.selected.contains_key((#[trigger] state.queue[i]).id)
            && state.selected[state.queue[i].id].depth == state.queue[i].depth && low
            <= state.queue[i].depth <= low + 1
    &&& forall|i: int, j: int|
        0 <= i < j < state.queue.len() ==> (#[trigger] state.queue[i]).depth <= (
        #[trigger] state.queue[j]).depth
}

/// Whether everything selected waits or is done, but for the entity that is being visited.
spec fn is_covered(
    state: Traversal,
    relationships: Seq<MemoryRelationshipView>,
    policy: MemoryContextPolicyView,
    max_depth: u32,
    visited: Option<Seq<char>>,
) -> bool {
    forall|id: Seq<char>| #[trigger]
        state.selected.contains_key(id) ==> visited == Some(id) || waits(state.queue, id) || is_done(
            state,
            relationships,
            policy,
            max_depth,
            id,
        )
}

/// What is done stays done when another entity is selected.
proof fn neighbor_keeps_level(
    state: Traversal,
    relationships: Seq<MemoryRelationshipView>,
    policy: MemoryContextPolicyView,
    starts: Set<Seq<char>>,
    max_depth: u32,
    visited: Seq<char>,
    neighbor: Seq<char>,
    depth: u32,
)
    requires
        state.truncation is None,
        is_level(state, relationships, policy, starts, max_depth, depth as int),
        is_covered(state, relationships, policy, max_depth, Some(visited)),
        state.selected.contains_key(visited),
        state.selected[visited].depth == depth,
        depth < max_depth,
        leads(relationships, policy, visited, neighbor),
    ensures
        ({
            let next = with_neighbor(state, neighbor, depth);
            next.truncation is None ==> {
                &&& is_level(next, relationships, policy, starts, max_depth, depth as int)
                &&& is_covered(next, relationships, policy, max_depth, Some(visited))
                &&& next.selected.contains_key(visited)
                &&& next.selected[visited].depth == depth
                &&& next.selected.contains_key(neighbor)
                &&& next.selected[neighbor].depth <= depth + 1
                &&& forall|id: Seq<char>| #[trigger]
                    state.selected.contains_key(id) ==> next.selected.contains_key(id)
                        && next.selected[id].depth == state.selected[id].depth
            }
        }),
{
    let next = with_neighbor(state, neighbor, depth);
    if next.truncation is None && !state.selected.contains_key(neighbor) {
        let place = state.queue.len() as int;
        assert(next.queue[place] == VisitView { id: neighbor, depth: (depth + 1) as u32 });
        assert(within(relationships, policy, starts, visited, depth as nat));
        assert(within(relationships, policy, starts, neighbor, (depth + 1) as nat));
        assert forall|i: int| 0 <= i < next.queue.len() implies next.selected.contains_key(
            (#[trigger] next.queue[i]).id,
        ) && next.selected[next.queue[i].id].depth == next.queue[i].depth && depth
            <= next.queue[i].depth <= depth + 1 by {
            if i < place {
                assert(next.queue[i] == state.queue[i]);
            }
        }
        assert forall|i: int, j: int| 0 <= i < j < next.queue.len() implies (#[trigger] next.queue[i]).depth
            <= (#[trigger] next.queue[j]).depth by {
            assert(next.queue[i] == state.queue[i]);
            if j < place {
                assert(next.queue[j] == state.queue[j]);
            }
        }
        assert forall|id: Seq<char>| #[trigger] next.selected.contains_key(id) implies Some(visited)
            == Some(id) || waits(next.queue, id) || is_done(
            next,
            relationships,
            policy,
            max_depth,
            id,
        ) by {
            if id == neighbor {
                assert(next.queue[place].id == id);
            } else {
                assert(state.selected.contains_key(id));
                if waits(state.queue, id) {
                    let i = choose|i: int| 0 <= i < state.queue.len() && (#[trigger] state.queue[i]).id == id;
                    assert(next.queue[i].id == id);
                }
            }
        }
    }
}

/// Following an edge of the visited entity keeps the depths right, and selects what it leads to.
proof fn edge_keeps_level(
    state: Traversal,
    relationships: Seq<MemoryRelationshipView>,
    policy: MemoryContextPolicyView,
    budget: EffectiveBudget,
    answers: Seq<u64>,
    starts: Set<Seq<char>>,
    visited: Seq<char>,
    edge: EdgeView,
    depth: u32,
)
    requires
        is_level(state, relationships, policy, starts, budget.max_depth, depth as int),
        is_covered(state, relationships, policy, budget.max_depth, Some(visited)),
        state.selected.contains_key(visited),
        state.selected[visited].depth == depth,
        depth < budget.max_depth,
        leads(relationships, policy, visited, edge.neighbor),
    ensures
        ({
            let next = with_edge(state, edge, depth, relationships, budget, answers);
            &&& next.truncation is None ==> state.truncation is None
            &&& next.truncation is None ==> {
                &&& is_level(next, relationships, policy, starts, budget.max_depth, depth as int)
                &&& is_covered(next, relationships, policy, budget.max_depth, Some(visited))
                &&& next.selected.contains_key(visited)
                &&& next.selected[visited].depth == depth
                &&& next.selected.contains_key(edge.neighbor)
                &&& next.selected[edge.neighbor].depth <= depth + 1
                &&& forall|id: Seq<char>| #[trigger]
                    state.selected.contains_key(id) ==> next.selected.contains_key(id)
                        && next.selected[id].depth == state.selected[id].depth
            }
        }),
{
    let next = with_edge(state, edge, depth, relationships, budget, answers);
    if next.truncation is None {
        let asked = Traversal { at: state.at + 1, ..state };
        let relationship = relationships[edge.relationship];
        let size = vstd::utf8::encode_utf8(
            <crate::domain::MemoryRelationship as crate::json::ToJson>::json(relationship),
        ).len() as u64;
        let taken = if state.relationships.contains_key(relationship.id) {
            asked
        } else {
            Traversal {
                relationships: state.relationships.insert(relationship.id, relationship),
                bytes: crate::budget::saturated(state.bytes, size),
                ..asked
            }
        };
        assert(next == with_neighbor(taken, edge.neighbor, depth));
        same_selection_same_cover(state, taken, relationships, policy, starts, budget.max_depth, depth as int, Some(visited));
        neighbor_keeps_level(
            taken,
            relationships,
            policy,
            starts,
            budget.max_depth,
            visited,
            edge.neighbor,
            depth,
        );
    }
}

/// Only the queue and what was selected matter.
proof fn same_selection_same_cover(
    state: Traversal,
    other: Traversal,
    relationships: Seq<MemoryRelationshipView>,
    policy: MemoryContextPolicyView,
    starts: Set<Seq<char>>,
    max_depth: u32,
    low: int,
    visited: Option<Seq<char>>,
)
    requires
        state.selected == other.selected,
        state.queue == other.queue,
        is_level(state, relationships, policy, starts, max_depth, low),
        is_covered(state, relationships, policy, max_depth, visited),
    ensures
        is_level(other, relationships, policy, starts, max_depth, low),
        is_covered(other, relationships, policy, max_depth, visited),
{
    assert forall|id: Seq<char>| #[trigger] other.selected.contains_key(id) implies visited == Some(id)
        || waits(other.queue, id) || is_done(other, relationships, policy, max_depth, id) by {
        if !(visited == Some(id)) && !waits(state.queue, id) {
            assert(is_done(state, relationships, policy, max_depth, id));
        }
    }
}

/// Following the first edges of the visited entity keeps the depths right, and selects what they lead
/// to.
proof fn edges_keep_level(
    state: Traversal,
    relationships: Seq<MemoryRelationshipView>,
    policy: MemoryContextPolicyView,
    budget: EffectiveBudget,
    answers: Seq<u64>,
    starts: Set<Seq<char>>,
    visited: Seq<char>,
    depth: u32,
    count: int,
)
    requires
        is_level(state, relationships, policy, starts, budget.max_depth, depth as int),
        is_covered(state, relationships, policy, budget.max_depth, Some(visited)),
        state.selected.contains_key(visited),
        state.selected[visited].depth == depth,
        depth < budget.max_depth,
        0 <= count <= neighbors(relationships, policy, visited).len(),
    ensures
        ({
            let edges = neighbors(relationships, policy, visited);
            let next = with_edges(state, edges, count, depth, relationships, budget, answers);
            &&& next.truncation is None ==> state.truncation is None
            &&& next.truncation is None ==> {
                &&& is_level(next, relationships, policy, starts, budget.max_depth, depth as int)
                &&& is_covered(next, relationships, policy, budget.max_depth, Some(visited))
                &&& next.selected.contains_key(visited)
                &&& next.selected[visited].depth == depth
                &&& forall|i: int|
                    0 <= i < count ==> next.selected.contains_key((#[trigger] edges[i]).neighbor)
                        && next.selected[edges[i].neighbor].depth <= depth + 1
            }
        }),
    decreases count,
{
    if count > 0 {
        let edges = neighbors(relationships, policy, visited);
        let before = with_edges(state, edges, count - 1, depth, relationships, budget, answers);
        edges_keep_level(
            state,
            relationships,
            policy,
            budget,
            answers,
            starts,
            visited,
            depth,
            count - 1,
        );
        let next = with_edge(before, edges[count - 1], depth, relationships, budget, answers);
        if next.truncation is None {
            assert(before.truncation is None);
            assert(leads(relationships, policy, visited, edges[count - 1].neighbor));
            edge_keeps_level(
                before,
                relationships,
                policy,
                budget,
                answers,
                starts,
                visited,
                edges[count - 1],
                depth,
            );
        }
    }
}

/// A visit keeps the depths right, and everything selected waits or is done.
proof fn visit_keeps_level(
    state: Traversal,
    relationships: Seq<MemoryRelationshipView>,
    policy: MemoryContextPolicyView,
    budget: EffectiveBudget,
    answers: Seq<u64>,
    starts: Set<Seq<char>>,
    low: int,
) -> (next_low: int)
    requires
        is_level(state, relationships, policy, starts, budget.max_depth, low),
        is_covered(state, relationships, policy, budget.max_depth, None),
    ensures
        ({
            let next = next_visit(state, relationships, policy, budget, answers);
            &&& next.truncation is None ==> state.truncation is None
            &&& next.truncation is None ==> is_level(
                next,
                relationships,
                policy,
                starts,
                budget.max_depth,
                next_low,
            ) && is_covered(next, relationships, policy, budget.max_depth, None)
        }),
{
    let next = next_visit(state, relationships, policy, budget, answers);
    if is_finished(state) || next.truncation is Some {
        if !is_finished(state) {
            early_end(state, relationships, policy, budget, answers);
        }
        low
    } else {
        let visit = state.queue[0];
        let depth = visit.depth;
        let popped = Traversal {
            queue: state.queue.skip(1),
            at: state.at + 1,
            explored_depth: if depth > state.explored_depth {
                depth
            } else {
                state.explored_depth
            },
            ..state
        };
        assert(popped.truncation is None);
        assert forall|i: int| 0 <= i < popped.queue.len() implies popped.selected.contains_key(
            (#[trigger] popped.queue[i]).id,
        ) && popped.selected[popped.queue[i].id].depth == popped.queue[i].depth && depth
            <= popped.queue[i].depth <= depth + 1 by {
            assert(popped.queue[i] == state.queue[i + 1]);
        }
        assert forall|i: int, j: int| 0 <= i < j < popped.queue.len() implies (
        #[trigger] popped.queue[i]).depth <= (#[trigger] popped.queue[j]).depth by {
            assert(popped.queue[i] == state.queue[i + 1]);
            assert(popped.queue[j] == state.queue[j + 1]);
        }
        assert(is_level(popped, relationships, policy, starts, budget.max_depth, depth as int));
        assert forall|id: Seq<char>| #[trigger] popped.selected.contains_key(id) implies Some(visit.id)
            == Some(id) || waits(popped.queue, id) || is_done(
            popped,
            relationships,
            policy,
            budget.max_depth,
            id,
        ) by {
            if id != visit.id {
                if waits(state.queue, id) {
                    let i = choose|i: int| 0 <= i < state.queue.len() && (#[trigger] state.queue[i]).id == id;
                    assert(popped.queue[i - 1].id == id);
                } else {
                    assert(is_done(state, relationships, policy, budget.max_depth, id));
                }
            }
        }
        if depth >= budget.max_depth {
            assert(next == popped);
            assert(is_done(popped, relationships, policy, budget.max_depth, visit.id));
            assert(is_covered(popped, relationships, policy, budget.max_depth, None));
        } else {
            let edges = neighbors(relationships, policy, visit.id);
            edges_keep_level(
                popped,
                relationships,
                policy,
                budget,
                answers,
                starts,
                visit.id,
                depth,
                edges.len() as int,
            );
            assert(is_done(next, relationships, policy, budget.max_depth, visit.id)) by {
                assert forall|to: Seq<char>| #[trigger] leads(
                    relationships,
                    policy,
                    visit.id,
                    to,
                ) implies next.selected.contains_key(to) && next.selected[to].depth
                    <= next.selected[visit.id].depth + 1 by {
                    let i = choose|i: int| 0 <= i < edges.len() && (#[trigger] edges[i]).neighbor == to;
                    assert(edges[i].neighbor == to);
                }
            }
            assert(is_covered(next, relationships, policy, budget.max_depth, None)) by {
                assert forall|id: Seq<char>| #[trigger] next.selected.contains_key(id) implies waits(
                    next.queue,
                    id,
                ) || is_done(next, relationships, policy, budget.max_depth, id) by {}
            }
        }
        depth as int
    }
}

/// What ended early stays ended.
proof fn early_end(
    state: Traversal,
    relationships: Seq<MemoryRelationshipView>,
    policy: MemoryContextPolicyView,
    budget: EffectiveBudget,
    answers: Seq<u64>,
)
    ensures
        next_visit(state, relationships, policy, budget, answers).truncation is None
            ==> state.truncation is None,
{
}

/// Some visits keep the depths right.
proof fn visits_keep_level(
    state: Traversal,
    count: nat,
    relationships: Seq<MemoryRelationshipView>,
    policy: MemoryContextPolicyView,
    budget: EffectiveBudget,
    answers: Seq<u64>,
    starts: Set<Seq<char>>,
) -> (low: int)
    requires
        is_level(state, relationships, policy, starts, budget.max_depth, 0),
        is_covered(state, relationships, policy, budget.max_depth, None),
    ensures
        ({
            let next = visits(state, count, relationships, policy, budget, answers);
            next.truncation is None ==> is_level(
                next,
                relationships,
                policy,
                starts,
                budget.max_depth,
                low,
            ) && is_covered(next, relationships, policy, budget.max_depth, None)
        }),
    decreases count,
{
    if count == 0 {
        0
    } else {
        let before = visits(state, (count - 1) as nat, relationships, policy, budget, answers);
        let low = visits_keep_level(
            state,
            (count - 1) as nat,
            relationships,
            policy,
            budget,
            answers,
            starts,
        );
        if before.truncation is None {
            visit_keeps_level(before, relationships, policy, budget, answers, starts, low)
        } else {
            low
        }
    }
}

/// Everything within reach of what is done is selected, not too deep.
proof fn reach_is_selected(
    state: Traversal,
    relationships: Seq<MemoryRelationshipView>,
    policy: MemoryContextPolicyView,
    starts: Set<Seq<char>>,
    max_depth: u32,
    low: int,
    id: Seq<char>,
    steps: nat,
)
    requires
        is_level(state, relationships, policy, starts, max_depth, low),
        is_covered(state, relationships, policy, max_depth, None),
        state.queue.len() == 0,
        steps <= max_depth,
        within(relationships, policy, starts, id, steps),
    ensures
        state.selected.contains_key(id),
        state.selected[id].depth <= steps,
    decreases steps,
{
    if steps > 0 {
        let fewer = (steps - 1) as nat;
        if within(relationships, policy, starts, id, fewer) {
            reach_is_selected(state, relationships, policy, starts, max_depth, low, id, fewer);
        } else {
            let before = choose|before: Seq<char>|
                #[trigger] leads(relationships, policy, before, id) && within(
                    relationships,
                    policy,
                    starts,
                    before,
                    fewer,
                );
            reach_is_selected(state, relationships, policy, starts, max_depth, low, before, fewer);
            assert(!waits(state.queue, before));
            assert(is_done(state, relationships, policy, max_depth, before));
        }
    }
}

/// The entities that following relationships starts at.
pub open spec fn start_set(
    ids: Seq<Seq<char>>,
    entities: Map<Seq<char>, MemoryEntityView>,
) -> Set<Seq<char>> {
    Set::new(|id: Seq<char>| ids.contains(id) && entities.contains_key(id))
}

proof fn start_is_level(
    ids: Seq<Seq<char>>,
    reasons: Map<Seq<char>, Seq<Seq<char>>>,
    entities: Map<Seq<char>, MemoryEntityView>,
    at: int,
)
    ensures
        ({
            let state = started(ids, reasons, entities, at);
            &&& state.truncation is None
            &&& state.selected.dom().finite()
            &&& forall|id: Seq<char>| #[trigger]
                state.selected.contains_key(id) <==> start_set(ids, entities).contains(id)
            &&& forall|id: Seq<char>| #[trigger]
                state.selected.contains_key(id) ==> state.selected[id].depth == 0 && waits(
                    state.queue,
                    id,
                )
            &&& forall|i: int|
                0 <= i < state.queue.len() ==> state.selected.contains_key(
                    (#[trigger] state.queue[i]).id,
                ) && state.queue[i].depth == 0
        }),
    decreases ids.len(),
{
    if ids.len() > 0 {
        let before = ids.drop_last();
        start_is_level(before, reasons, entities, at);
        let rest = started(before, reasons, entities, at);
        let state = started(ids, reasons, entities, at);
        let last = ids.last();
        assert forall|id: Seq<char>| ids.contains(id) == (before.contains(id) || id == last) by {
            if ids.contains(id) && id != last {
                let i = choose|i: int| 0 <= i < ids.len() && ids[i] == id;
                assert(before[i] == id);
            }
            if before.contains(id) {
                let i = choose|i: int| 0 <= i < before.len() && before[i] == id;
                assert(ids[i] == id);
            }
            if id == last {
                assert(ids[ids.len() - 1] == id);
            }
        }
        if entities.contains_key(last) {
            let place = rest.queue.len() as int;
            assert(state.queue[place].id == last);
            assert(state.selected.dom() =~= rest.selected.dom().insert(last));
            assert forall|id: Seq<char>| #[trigger] state.selected.contains_key(id) implies state.selected[id].depth
                == 0 && waits(state.queue, id) by {
                if id != last {
                    assert(rest.selected.contains_key(id));
                    let i = choose|i: int| 0 <= i < rest.queue.len() && (#[trigger] rest.queue[i]).id == id;
                    assert(state.queue[i].id == id);
                } else {
                    assert(state.queue[place].id == id);
                }
            }
            assert forall|i: int| 0 <= i < state.queue.len() implies state.selected.contains_key(
                (#[trigger] state.queue[i]).id,
            ) && state.queue[i].depth == 0 by {
                if i < place {
                    assert(state.queue[i] == rest.queue[i]);
                }
            }
        }
    }
}

/// How much can still be visited: what waits, and what may still join it.
spec fn remaining(state: Traversal) -> int {
    state.queue.len() + 2 * room(state)
}

/// How many entities may still be selected.
spec fn room(state: Traversal) -> int {
    if state.selected.dom().len() < MAX_CONTEXT_CANDIDATES {
        MAX_CONTEXT_CANDIDATES - state.selected.dom().len()
    } else {
        0
    }
}

proof fn edge_shrinks(
    state: Traversal,
    edge: EdgeView,
    depth: u32,
    relationships: Seq<MemoryRelationshipView>,
    budget: EffectiveBudget,
    answers: Seq<u64>,
)
    requires
        state.selected.dom().finite(),
    ensures
        ({
            let next = with_edge(state, edge, depth, relationships, budget, answers);
            next.selected.dom().finite() && remaining(next) <= remaining(state)
        }),
{
    let next = with_edge(state, edge, depth, relationships, budget, answers);
    if next.selected != state.selected {
        assert(next.selected.dom() =~= state.selected.dom().insert(edge.neighbor));
    }
}

proof fn edges_shrink(
    state: Traversal,
    edges: Seq<EdgeView>,
    count: int,
    depth: u32,
    relationships: Seq<MemoryRelationshipView>,
    budget: EffectiveBudget,
    answers: Seq<u64>,
)
    requires
        state.selected.dom().finite(),
    ensures
        ({
            let next = with_edges(state, edges, count, depth, relationships, budget, answers);
            next.selected.dom().finite() && remaining(next) <= remaining(state)
        }),
    decreases count,
{
    if count > 0 {
        edges_shrink(state, edges, count - 1, depth, relationships, budget, answers);
        edge_shrinks(
            with_edges(state, edges, count - 1, depth, relationships, budget, answers),
            edges[count - 1],
            depth,
            relationships,
            budget,
            answers,
        );
    }
}

proof fn visits_shrink(
    state: Traversal,
    count: nat,
    relationships: Seq<MemoryRelationshipView>,
    policy: MemoryContextPolicyView,
    budget: EffectiveBudget,
    answers: Seq<u64>,
)
    requires
        state.selected.dom().finite(),
    ensures
        ({
            let next = visits(state, count, relationships, policy, budget, answers);
            &&& next.selected.dom().finite()
            &&& is_finished(next) || remaining(next) <= remaining(state) - count
        }),
    decreases count,
{
    if count > 0 {
        visits_shrink(state, (count - 1) as nat, relationships, policy, budget, answers);
        let before = visits(state, (count - 1) as nat, relationships, policy, budget, answers);
        if !is_finished(before) {
            let visit = before.queue[0];
            let popped = Traversal {
                queue: before.queue.skip(1),
                at: before.at + 1,
                explored_depth: if visit.depth > before.explored_depth {
                    visit.depth
                } else {
                    before.explored_depth
                },
                ..before
            };
            let edges = neighbors(relationships, policy, visit.id);
            edges_shrink(
                popped,
                edges,
                edges.len() as int,
                visit.depth,
                relationships,
                budget,
                answers,
            );
        }
    }
}

/// Following relationships comes to an end.
pub proof fn traversal_ends(
    state: Traversal,
    relationships: Seq<MemoryRelationshipView>,
    policy: MemoryContextPolicyView,
    budget: EffectiveBudget,
    answers: Seq<u64>,
) -> (count: nat)
    requires
        state.selected.dom().finite(),
    ensures
        is_finished(visits(state, count, relationships, policy, budget, answers)),
        traversed(state, relationships, policy, budget, answers) == visits(
            state,
            count,
            relationships,
            policy,
            budget,
            answers,
        ),
{
    let count = (remaining(state) + 1) as nat;
    visits_shrink(state, count, relationships, policy, budget, answers);
    end_is_reached(state, count, relationships, policy, budget, answers);
    count
}

/// Following relationships to the end reaches exactly what it should: where it did not end early, an
/// entity is selected if and only if it can be reached from the start in as many steps as the budget
/// allows, and its depth is the least number of steps in which it can be reached.
pub proof fn everything_in_reach_is_selected(
    ids: Seq<Seq<char>>,
    reasons: Map<Seq<char>, Seq<Seq<char>>>,
    entities: Map<Seq<char>, MemoryEntityView>,
    at: int,
    relationships: Seq<MemoryRelationshipView>,
    policy: MemoryContextPolicyView,
    budget: EffectiveBudget,
    answers: Seq<u64>,
)
    ensures
        ({
            let end = traversed(
                started(ids, reasons, entities, at),
                relationships,
                policy,
                budget,
                answers,
            );
            let starts = start_set(ids, entities);
            end.truncation is None ==> forall|id: Seq<char>|
                #![trigger end.selected.contains_key(id)]
                {
                    &&& end.selected.contains_key(id) <==> within(
                        relationships,
                        policy,
                        starts,
                        id,
                        budget.max_depth as nat,
                    )
                    &&& end.selected.contains_key(id) ==> within(
                        relationships,
                        policy,
                        starts,
                        id,
                        end.selected[id].depth as nat,
                    ) && forall|steps: nat|
                        steps < end.selected[id].depth ==> !#[trigger] within(
                            relationships,
                            policy,
                            starts,
                            id,
                            steps,
                        )
                }
        }),
{
    let start = started(ids, reasons, entities, at);
    let starts = start_set(ids, entities);
    start_is_level(ids, reasons, entities, at);
    let count = traversal_ends(start, relationships, policy, budget, answers);
    let end = visits(start, count, relationships, policy, budget, answers);
    assert(is_level(start, relationships, policy, starts, budget.max_depth, 0)) by {
        assert forall|id: Seq<char>| #[trigger] start.selected.contains_key(id) implies within(
            relationships,
            policy,
            starts,
            id,
            start.selected[id].depth as nat,
        ) && start.selected[id].depth <= 0 + 1 && start.selected[id].depth <= budget.max_depth by {
            assert(starts.contains(id));
        }
    }
    assert(is_covered(start, relationships, policy, budget.max_depth, None));
    let low = visits_keep_level(start, count, relationships, policy, budget, answers, starts);
    if end.truncation is None {
        assert forall|id: Seq<char>| within(
            relationships,
            policy,
            starts,
            id,
            budget.max_depth as nat,
        ) implies end.selected.contains_key(id) by {
            reach_is_selected(
                end,
                relationships,
                policy,
                starts,
                budget.max_depth,
                low,
                id,
                budget.max_depth as nat,
            );
        }
        assert forall|id: Seq<char>| end.selected.contains_key(id) implies within(
            relationships,
            policy,
            starts,
            id,
            budget.max_depth as nat,
        ) by {
            more_steps_reach_as_far(
                relationships,
                policy,
                starts,
                id,
                end.selected[id].depth as nat,
                budget.max_depth as nat,
            );
        }
        assert forall|id: Seq<char>, steps: nat|
            end.selected.contains_key(id) && steps < end.selected[id].depth implies !#[trigger] within(
            relationships,
            policy,
            starts,
            id,
            steps,
        ) by {
            if within(relationships, policy, starts, id, steps) {
                reach_is_selected(
                    end,
                    relationships,
                    policy,
                    starts,
                    budget.max_depth,
                    low,
                    id,
                    steps,
                );
            }
        }
    }
}

/// With more steps, no less is reached.
pub proof fn more_steps_reach_as_far(
    relationships: Seq<MemoryRelationshipView>,
    policy: MemoryContextPolicyView,
    starts: Set<Seq<char>>,
    id: Seq<char>,
    few: nat,
    many: nat,
)
    requires
        few <= many,
        within(relationships, policy, starts, id, few),
    ensures
        within(relationships, policy, starts, id, many),
    decreases many,
{
    if few < many {
        more_steps_reach_as_far(relationships, policy, starts, id, few, (many - 1) as nat);
    }
}

/// Whether a relationship is one that a policy follows.
pub open spec fn is_followed(
    relationship: MemoryRelationshipView,
    policy: MemoryContextPolicyView,
) -> bool {
    followed(relationship, policy) is Some
}

/// Whether edges lead along relationships that a policy follows.
spec fn are_followed(
    edges: Seq<EdgeView>,
    relationships: Seq<MemoryRelationshipView>,
    policy: MemoryContextPolicyView,
) -> bool {
    forall|i: int|
        0 <= i < edges.len() ==> 0 <= (#[trigger] edges[i]).relationship < relationships.len()
            && is_followed(relationships[edges[i].relationship], policy)
}

proof fn edges_are_followed(
    relationships: Seq<MemoryRelationshipView>,
    policy: MemoryContextPolicyView,
    id: Seq<char>,
)
    ensures
        are_followed(edges_from(relationships, policy, id), relationships, policy),
    decreases relationships.len(),
{
    if relationships.len() > 0 {
        let before = relationships.drop_last();
        edges_are_followed(before, policy, id);
        let rest = edges_from(before, policy, id);
        let edges = edges_from(relationships, policy, id);
        assert forall|i: int| 0 <= i < edges.len() implies 0 <= (#[trigger] edges[i]).relationship
            < relationships.len() && is_followed(relationships[edges[i].relationship], policy) by {
            if i < rest.len() {
                assert(edges[i] == rest[i]);
                assert(before[rest[i].relationship] == relationships[rest[i].relationship]);
            }
        }
    }
}

proof fn neighbors_are_followed(
    relationships: Seq<MemoryRelationshipView>,
    policy: MemoryContextPolicyView,
    id: Seq<char>,
)
    ensures
        are_followed(neighbors(relationships, policy, id), relationships, policy),
{
    let edges = edges_from(relationships, policy, id);
    let ordered = neighbors(relationships, policy, id);
    edges_are_followed(relationships, policy, id);
    sorting_orders_and_keeps::<Edge>(edges);
    edges.to_multiset_ensures();
    ordered.to_multiset_ensures();
    assert forall|i: int| 0 <= i < ordered.len() implies 0 <= (#[trigger] ordered[i]).relationship
        < relationships.len() && is_followed(relationships[ordered[i].relationship], policy) by {
        assert(ordered.to_multiset().contains(ordered[i]));
        assert(edges.contains(ordered[i]));
    }
}

/// Whether all selected relationships are ones that a policy follows.
pub open spec fn selects_followed(state: Traversal, policy: MemoryContextPolicyView) -> bool {
    forall|id: Seq<char>| #[trigger]
        state.relationships.contains_key(id) ==> is_followed(state.relationships[id], policy)
            && state.relationships[id].id == id
}

proof fn edges_select_followed(
    state: Traversal,
    edges: Seq<EdgeView>,
    count: int,
    depth: u32,
    relationships: Seq<MemoryRelationshipView>,
    policy: MemoryContextPolicyView,
    budget: EffectiveBudget,
    answers: Seq<u64>,
)
    requires
        selects_followed(state, policy),
        are_followed(edges, relationships, policy),
        count <= edges.len(),
    ensures
        selects_followed(
            with_edges(state, edges, count, depth, relationships, budget, answers),
            policy,
        ),
    decreases count,
{
    if count > 0 {
        edges_select_followed(
            state,
            edges,
            count - 1,
            depth,
            relationships,
            policy,
            budget,
            answers,
        );
        let edge = edges[count - 1];
        assert(is_followed(relationships[edge.relationship], policy));
    }
}

proof fn visits_select_followed(
    state: Traversal,
    count: nat,
    relationships: Seq<MemoryRelationshipView>,
    policy: MemoryContextPolicyView,
    budget: EffectiveBudget,
    answers: Seq<u64>,
)
    requires
        selects_followed(state, policy),
    ensures
        selects_followed(visits(state, count, relationships, policy, budget, answers), policy),
    decreases count,
{
    if count > 0 {
        visits_select_followed(state, (count - 1) as nat, relationships, policy, budget, answers);
        let before = visits(state, (count - 1) as nat, relationships, policy, budget, answers);
        if !is_finished(before) {
            let visit = before.queue[0];
            let popped = Traversal {
                queue: before.queue.skip(1),
                at: before.at + 1,
                explored_depth: if visit.depth > before.explored_depth {
                    visit.depth
                } else {
                    before.explored_depth
                },
                ..before
            };
            let edges = neighbors(relationships, policy, visit.id);
            neighbors_are_followed(relationships, policy, visit.id);
            edges_select_followed(
                popped,
                edges,
                edges.len() as int,
                visit.depth,
                relationships,
                policy,
                budget,
                answers,
            );
        }
    }
}

/// However far following relationships comes, only relationships that the policy follows are
/// selected: none of another kind, none that is unresolved or stale where the policy leaves those out,
/// and none that leads out of the memory.
pub proof fn only_followed_relationships_are_selected(
    state: Traversal,
    relationships: Seq<MemoryRelationshipView>,
    policy: MemoryContextPolicyView,
    budget: EffectiveBudget,
    answers: Seq<u64>,
)
    requires
        state.selected.dom().finite(),
        selects_followed(state, policy),
    ensures
        selects_followed(traversed(state, relationships, policy, budget, answers), policy),
{
    let count = traversal_ends(state, relationships, policy, budget, answers);
    visits_select_followed(state, count, relationships, policy, budget, answers);
}

/// Whether every relationship that leads on from an entity is selected.
pub open spec fn is_taken(
    state: Traversal,
    relationships: Seq<MemoryRelationshipView>,
    policy: MemoryContextPolicyView,
    id: Seq<char>,
) -> bool {
    forall|i: int|
        0 <= i < neighbors(relationships, policy, id).len() ==> state.relationships.contains_key(
            relationships[(#[trigger] neighbors(relationships, policy, id)[i]).relationship].id,
        )
}

/// Whether those that wait stand in the queue with their depths.
spec fn is_queued(state: Traversal) -> bool {
    forall|i: int|
        0 <= i < state.queue.len() ==> state.selected.contains_key((#[trigger] state.queue[i]).id)
            && state.selected[state.queue[i].id].depth == state.queue[i].depth
}

/// Whether every selected entity waits, or is as deep as can be, or all its relationships are selected.
spec fn are_taken(
    state: Traversal,
    relationships: Seq<MemoryRelationshipView>,
    policy: MemoryContextPolicyView,
    max_depth: u32,
) -> bool {
    forall|id: Seq<char>| #[trigger]
        state.selected.contains_key(id) ==> waits(state.queue, id) || state.selected[id].depth
            >= max_depth || is_taken(state, relationships, policy, id)
}

/// Following edges selects their relationships, and loses nothing.
proof fn edges_are_taken(
    state: Traversal,
    edges: Seq<EdgeView>,
    count: int,
    depth: u32,
    relationships: Seq<MemoryRelationshipView>,
    budget: EffectiveBudget,
    answers: Seq<u64>,
)
    requires
        0 <= count <= edges.len(),
        is_queued(state),
    ensures
        ({
            let next = with_edges(state, edges, count, depth, relationships, budget, answers);
            next.truncation is None ==> {
                &&& state.truncation is None
                &&& is_queued(next)
                &&& forall|id: Seq<char>| #[trigger]
                    state.relationships.contains_key(id) ==> next.relationships.contains_key(id)
                &&& forall|j: int|
                    0 <= j < count ==> next.relationships.contains_key(
                        relationships[(#[trigger] edges[j]).relationship].id,
                    )
                &&& forall|id: Seq<char>| #[trigger]
                    state.selected.contains_key(id) ==> next.selected.contains_key(id)
                        && next.selected[id].depth == state.selected[id].depth
                &&& forall|id: Seq<char>| #[trigger] waits(state.queue, id) ==> waits(next.queue, id)
                &&& forall|id: Seq<char>| #[trigger]
                    next.selected.contains_key(id) ==> state.selected.contains_key(id) || waits(
                        next.queue,
                        id,
                    )
            }
        }),
    decreases count,
{
    if count > 0 {
        edges_are_taken(state, edges, count - 1, depth, relationships, budget, answers);
        let before = with_edges(state, edges, count - 1, depth, relationships, budget, answers);
        let next = with_edges(state, edges, count, depth, relationships, budget, answers);
        let neighbor = edges[count - 1].neighbor;
        if next.truncation is None {
            assert(before.truncation is None);
            if !before.selected.contains_key(neighbor) {
                let place = before.queue.len() as int;
                assert(next.queue[place].id == neighbor);
                assert forall|i: int| 0 <= i < next.queue.len() implies next.selected.contains_key(
                    (#[trigger] next.queue[i]).id,
                ) && next.selected[next.queue[i].id].depth == next.queue[i].depth by {
                    if i < place {
                        assert(next.queue[i] == before.queue[i]);
                    }
                }
            }
            assert forall|id: Seq<char>| #[trigger] waits(before.queue, id) implies waits(
                next.queue,
                id,
            ) by {
                let i = choose|i: int| 0 <= i < before.queue.len() && (#[trigger] before.queue[i]).id == id;
                assert(next.queue[i] == before.queue[i]);
            }
            assert forall|id: Seq<char>| #[trigger] waits(state.queue, id) implies waits(next.queue, id) by {
                assert(waits(before.queue, id));
            }
            assert forall|id: Seq<char>| #[trigger] next.selected.contains_key(id) implies state.selected.contains_key(
                id,
            ) || waits(next.queue, id) by {
                if before.selected.contains_key(id) && !state.selected.contains_key(id) {
                    assert(waits(before.queue, id));
                } else if !before.selected.contains_key(id) {
                    assert(next.queue[before.queue.len() as int].id == id);
                }
            }
        }
    }
}

/// A visit takes the relationships of the entity that it visits.
proof fn visit_takes(
    state: Traversal,
    relationships: Seq<MemoryRelationshipView>,
    policy: MemoryContextPolicyView,
    budget: EffectiveBudget,
    answers: Seq<u64>,
)
    requires
        is_queued(state),
        are_taken(state, relationships, policy, budget.max_depth),
    ensures
        ({
            let next = next_visit(state, relationships, policy, budget, answers);
            next.truncation is None ==> is_queued(next) && are_taken(
                next,
                relationships,
                policy,
                budget.max_depth,
            )
        }),
{
    let next = next_visit(state, relationships, policy, budget, answers);
    if !is_finished(state) && next.truncation is None {
        let visit = state.queue[0];
        let explored = Traversal {
            queue: state.queue.skip(1),
            at: state.at + 1,
            explored_depth: if visit.depth > state.explored_depth {
                visit.depth
            } else {
                state.explored_depth
            },
            ..state
        };
        assert forall|i: int| 0 <= i < explored.queue.len() implies explored.selected.contains_key(
            (#[trigger] explored.queue[i]).id,
        ) && explored.selected[explored.queue[i].id].depth == explored.queue[i].depth by {
            assert(explored.queue[i] == state.queue[i + 1]);
        }
        let edges = neighbors(relationships, policy, visit.id);
        let deep = visit.depth >= budget.max_depth;
        if !deep {
            edges_are_taken(
                explored,
                edges,
                edges.len() as int,
                visit.depth,
                relationships,
                budget,
                answers,
            );
        }
        assert forall|id: Seq<char>| #[trigger] next.selected.contains_key(id) implies waits(
            next.queue,
            id,
        ) || next.selected[id].depth >= budget.max_depth || is_taken(
            next,
            relationships,
            policy,
            id,
        ) by {
            if state.selected.contains_key(id) && id != visit.id {
                if waits(state.queue, id) {
                    let i = choose|i: int| 0 <= i < state.queue.len() && (#[trigger] state.queue[i]).id == id;
                    assert(explored.queue[i - 1].id == id);
                    assert(waits(explored.queue, id));
                } else if is_taken(state, relationships, policy, id) {
                    assert forall|i: int|
                        0 <= i < neighbors(relationships, policy, id).len() implies next.relationships.contains_key(
                        relationships[(#[trigger] neighbors(relationships, policy, id)[i]).relationship].id,
                    ) by {
                        let taken = relationships[neighbors(relationships, policy, id)[i].relationship].id;
                        assert(explored.relationships.contains_key(taken));
                    }
                }
            }
        }
    }
}

proof fn visits_take(
    state: Traversal,
    count: nat,
    relationships: Seq<MemoryRelationshipView>,
    policy: MemoryContextPolicyView,
    budget: EffectiveBudget,
    answers: Seq<u64>,
)
    requires
        is_queued(state),
        are_taken(state, relationships, policy, budget.max_depth),
    ensures
        ({
            let next = visits(state, count, relationships, policy, budget, answers);
            next.truncation is None ==> is_queued(next) && are_taken(
                next,
                relationships,
                policy,
                budget.max_depth,
            )
        }),
    decreases count,
{
    if count > 0 {
        let before = visits(state, (count - 1) as nat, relationships, policy, budget, answers);
        visits_take(state, (count - 1) as nat, relationships, policy, budget, answers);
        if before.truncation is None {
            visit_takes(before, relationships, policy, budget, answers);
        }
    }
}

/// At the start everything that is selected waits.
proof fn start_waits(
    ids: Seq<Seq<char>>,
    reasons: Map<Seq<char>, Seq<Seq<char>>>,
    entities: Map<Seq<char>, MemoryEntityView>,
    at: int,
)
    ensures
        is_queued(started(ids, reasons, entities, at)),
        forall|id: Seq<char>| #[trigger]
            started(ids, reasons, entities, at).selected.contains_key(id) ==> waits(
                started(ids, reasons, entities, at).queue,
                id,
            ),
        forall|id: Seq<char>| #[trigger]
            started(ids, reasons, entities, at).selected.contains_key(id) ==> started(
                ids,
                reasons,
                entities,
                at,
            ).selected[id].depth == 0,
    decreases ids.len(),
{
    if ids.len() > 0 {
        let before = started(ids.drop_last(), reasons, entities, at);
        let state = started(ids, reasons, entities, at);
        start_waits(ids.drop_last(), reasons, entities, at);
        if entities.contains_key(ids.last()) {
            let place = before.queue.len() as int;
            assert(state.queue[place].id == ids.last());
            assert forall|i: int| 0 <= i < state.queue.len() implies state.selected.contains_key(
                (#[trigger] state.queue[i]).id,
            ) && state.selected[state.queue[i].id].depth == state.queue[i].depth by {
                if i < place {
                    assert(state.queue[i] == before.queue[i]);
                }
            }
            assert forall|id: Seq<char>| #[trigger] state.selected.contains_key(id) implies waits(
                state.queue,
                id,
            ) by {
                if id != ids.last() {
                    let i = choose|i: int|
                        0 <= i < before.queue.len() && (#[trigger] before.queue[i]).id == id;
                    assert(state.queue[i] == before.queue[i]);
                }
            }
        }
    }
}

/// A relationship that a policy follows from an entity is among its edges.
proof fn followed_are_edges(
    relationships: Seq<MemoryRelationshipView>,
    policy: MemoryContextPolicyView,
    id: Seq<char>,
    at: int,
)
    requires
        0 <= at < relationships.len(),
        followed(relationships[at], policy) is Some,
        policy.direction != EdgeDirection::Incoming && relationships[at].source == id || policy.direction
            != EdgeDirection::Outgoing && followed(relationships[at], policy) == Some(id),
    ensures
        exists|i: int|
            0 <= i < edges_from(relationships, policy, id).len() && (#[trigger] edges_from(
                relationships,
                policy,
                id,
            )[i]).relationship == at,
    decreases relationships.len(),
{
    let edges = edges_from(relationships, policy, id);
    let before = relationships.drop_last();
    let rest = edges_from(before, policy, id);
    if at < before.len() {
        followed_are_edges(before, policy, id, at);
        let i = choose|i: int| 0 <= i < rest.len() && (#[trigger] rest[i]).relationship == at;
        assert(edges[i] == rest[i]);
    } else {
        assert(edges[rest.len() as int].relationship == at);
    }
}

/// Following relationships to the end selects every relationship that it should: where it did not end
/// early, each relationship that the policy follows from an entity that was selected, not yet as deep as
/// the budget allows, is selected.
pub proof fn every_followed_relationship_is_selected(
    ids: Seq<Seq<char>>,
    reasons: Map<Seq<char>, Seq<Seq<char>>>,
    entities: Map<Seq<char>, MemoryEntityView>,
    at: int,
    relationships: Seq<MemoryRelationshipView>,
    policy: MemoryContextPolicyView,
    budget: EffectiveBudget,
    answers: Seq<u64>,
    id: Seq<char>,
    place: int,
)
    requires
        0 <= place < relationships.len(),
        followed(relationships[place], policy) is Some,
        policy.direction != EdgeDirection::Incoming && relationships[place].source == id
            || policy.direction != EdgeDirection::Outgoing && followed(relationships[place], policy)
            == Some(id),
    ensures
        ({
            let end = traversed(
                started(ids, reasons, entities, at),
                relationships,
                policy,
                budget,
                answers,
            );
            end.truncation is None && end.selected.contains_key(id) && end.selected[id].depth
                < budget.max_depth ==> end.relationships.contains_key(relationships[place].id)
        }),
{
    let start = started(ids, reasons, entities, at);
    start_is_level(ids, reasons, entities, at);
    start_waits(ids, reasons, entities, at);
    let count = traversal_ends(start, relationships, policy, budget, answers);
    let end = visits(start, count, relationships, policy, budget, answers);
    visits_take(start, count, relationships, policy, budget, answers);
    if end.truncation is None && end.selected.contains_key(id) && end.selected[id].depth
        < budget.max_depth {
        assert(is_taken(end, relationships, policy, id));
        followed_are_edges(relationships, policy, id, place);
        let edges = edges_from(relationships, policy, id);
        let ordered = neighbors(relationships, policy, id);
        let i = choose|i: int| 0 <= i < edges.len() && (#[trigger] edges[i]).relationship == place;
        sorting_orders_and_keeps::<Edge>(edges);
        edges.to_multiset_ensures();
        ordered.to_multiset_ensures();
        assert(edges.contains(edges[i]));
        assert(ordered.to_multiset().contains(edges[i]));
        let j = choose|j: int| 0 <= j < ordered.len() && ordered[j] == edges[i];
        assert(ordered[j].relationship == place);
    }
}

proof fn edges_select_finitely(
    state: Traversal,
    edges: Seq<EdgeView>,
    count: int,
    depth: u32,
    relationships: Seq<MemoryRelationshipView>,
    budget: EffectiveBudget,
    answers: Seq<u64>,
)
    requires
        state.relationships.dom().finite(),
    ensures
        with_edges(
            state,
            edges,
            count,
            depth,
            relationships,
            budget,
            answers,
        ).relationships.dom().finite(),
    decreases count,
{
    if count > 0 {
        edges_select_finitely(state, edges, count - 1, depth, relationships, budget, answers);
    }
}

proof fn visits_select_finitely(
    state: Traversal,
    count: nat,
    relationships: Seq<MemoryRelationshipView>,
    policy: MemoryContextPolicyView,
    budget: EffectiveBudget,
    answers: Seq<u64>,
)
    requires
        state.relationships.dom().finite(),
    ensures
        visits(
            state,
            count,
            relationships,
            policy,
            budget,
            answers,
        ).relationships.dom().finite(),
    decreases count,
{
    if count > 0 {
        visits_select_finitely(state, (count - 1) as nat, relationships, policy, budget, answers);
        let before = visits(state, (count - 1) as nat, relationships, policy, budget, answers);
        if !is_finished(before) {
            let visit = before.queue[0];
            let explored = Traversal {
                queue: before.queue.skip(1),
                at: before.at + 1,
                explored_depth: if visit.depth > before.explored_depth {
                    visit.depth
                } else {
                    before.explored_depth
                },
                ..before
            };
            let edges = neighbors(relationships, policy, visit.id);
            edges_select_finitely(
                explored,
                edges,
                edges.len() as int,
                visit.depth,
                relationships,
                budget,
                answers,
            );
        }
    }
}

proof fn start_selects_nothing(
    ids: Seq<Seq<char>>,
    reasons: Map<Seq<char>, Seq<Seq<char>>>,
    entities: Map<Seq<char>, MemoryEntityView>,
    at: int,
)
    ensures
        started(ids, reasons, entities, at).relationships == Map::<
            Seq<char>,
            MemoryRelationshipView,
        >::empty(),
    decreases ids.len(),
{
    if ids.len() > 0 {
        start_selects_nothing(ids.drop_last(), reasons, entities, at);
    }
}

/// Paging a context to its end shows every relationship that leads on from an entity of it: where the
/// context did not end early, each relationship that the policy follows from a selected entity, not yet as
/// deep as the budget allows, is on one of the pages, however few entries a page may hold.
pub proof fn every_followed_relationship_is_on_a_page(
    reasons: Map<Seq<char>, Seq<Seq<char>>>,
    entities: Map<Seq<char>, MemoryEntityView>,
    relationships: Seq<MemoryRelationshipView>,
    policy: MemoryContextPolicyView,
    budget: EffectiveBudget,
    answers: Seq<u64>,
    at: int,
    source: PageSource,
    offsets: Seq<int>,
    pages: Seq<ContextPage>,
    id: Seq<char>,
    place: int,
)
    requires
        0 <= place < relationships.len(),
        followed(relationships[place], policy) is Some,
        policy.direction != EdgeDirection::Incoming && relationships[place].source == id
            || policy.direction != EdgeDirection::Outgoing && followed(relationships[place], policy)
            == Some(id),
        are_all_pages(source, offsets, pages),
        ({
            let end = walked(reasons, entities, relationships, policy, budget, answers, at);
            &&& source.assembly == gathered(end, entities)
            &&& end.truncation is None
            &&& end.selected.contains_key(id)
            &&& end.selected[id].depth < budget.max_depth
        }),
    ensures
        ({
            let end = walked(reasons, entities, relationships, policy, budget, answers, at);
            &&& end.relationships.contains_key(relationships[place].id)
            &&& is_on_a_page(pages, end.relationships[relationships[place].id])
        }),
{
    let ids = in_order(reasons.dom());
    let start = started(ids, reasons, entities, at);
    let end = walked(reasons, entities, relationships, policy, budget, answers, at);
    every_followed_relationship_is_selected(
        ids,
        reasons,
        entities,
        at,
        relationships,
        policy,
        budget,
        answers,
        id,
        place,
    );
    start_selects_nothing(ids, reasons, entities, at);
    start_is_level(ids, reasons, entities, at);
    let count = traversal_ends(start, relationships, policy, budget, answers);
    visits_select_finitely(start, count, relationships, policy, budget, answers);
    values_stand_under_keys(end.relationships);
    all_pages_hold_every_entry(source, offsets, pages);
    let found = end.relationships[relationships[place].id];
    let r = choose|r: int|
        0 <= r < source.assembly.relationships.len() && source.assembly.relationships[r] == found;
    assert(is_on_a_page(pages, source.assembly.relationships[r]));
}

}
