//! Along which relationships a context goes on from where it starts.
use vstd::prelude::*;
use crate::budget::EffectiveBudget;
use crate::context::assembled;
use crate::diagnostics::MemoryDiagnosticCode;
use crate::domain::{
    MemoryEntityDataView, MemoryEntityView, MemoryRelationshipKind, MemoryRelationshipTargetView, MemoryRelationshipView,
};
use crate::laws::lists::{deduplicated_holds, push_holds, sorted_holds};
use crate::laws::starting::{
    entity_seeds_start_at_their_entity, is_shown, milestone_seeds_start_at_what_belongs_to_them,
    run_seeds_start_at_their_run, task_seeds_start_at_their_task_and_its_runs,
};
use crate::order::{in_order, in_order_holds, listed, values_in_order};
use crate::query::{
    MemoryContextPolicyView, MemoryContextRequestView, MemoryContextSeedView, MemoryQueryErrorView,
};
use crate::reach::{leads, traversal_ends};
use crate::repository::EdgeDirection;
use crate::seeds::{
    all_relationships, entities_by_id, entities_stand_under_their_ids, seed_matches, seed_reason,
    seed_reasons, with_reason,
};
use crate::sort::{deduplicated, sorted};
use crate::traversal::{
    candidates_among, edges_from, gathered, neighbors, next_visit, started, visits, walked, with_edge,
    with_edges, with_neighbor, ContextCandidate, ContextCandidateView, Edge, EdgeView, Traversal,
};

verus! {

/// Whether a relationship joins an entity to another, is shown, and is of a kind that a policy follows;
/// a policy that lists no kinds follows all of them.
pub open spec fn joins(
    relationship: MemoryRelationshipView,
    policy: MemoryContextPolicyView,
    source: Seq<char>,
    target: Seq<char>,
) -> bool {
    &&& relationship.source == source
    &&& relationship.target == (MemoryRelationshipTargetView::MemoryEntity { entity_id: target })
    &&& is_shown(relationship.provenance.resolution, policy)
    &&& policy.relationship_kinds == Seq::<MemoryRelationshipKind>::empty() || exists|i: int|
        0 <= i < policy.relationship_kinds.len() && policy.relationship_kinds[i] == relationship.kind
}

/// Whether a policy goes from one entity to another along a relationship: with it, against it, or both.
pub open spec fn goes_along(
    relationship: MemoryRelationshipView,
    policy: MemoryContextPolicyView,
    from: Seq<char>,
    to: Seq<char>,
) -> bool {
    match policy.direction {
        EdgeDirection::Outgoing => joins(relationship, policy, from, to),
        EdgeDirection::Incoming => joins(relationship, policy, to, from),
        EdgeDirection::Both => joins(relationship, policy, from, to) || joins(relationship, policy, to, from),
    }
}

proof fn edges_hold(
    relationships: Seq<MemoryRelationshipView>,
    policy: MemoryContextPolicyView,
    from: Seq<char>,
    to: Seq<char>,
    at: int,
)
    ensures
        edges_from(relationships, policy, from).contains(EdgeView { neighbor: to, relationship: at }) == (0 <= at
            < relationships.len() && goes_along(relationships[at], policy, from, to)),
    decreases relationships.len(),
{
    assert((policy.relationship_kinds.len() == 0) == (policy.relationship_kinds =~= Seq::empty()));
    if relationships.len() > 0 {
        let rest = relationships.drop_last();
        let last = relationships.last();
        let edge = EdgeView { neighbor: to, relationship: at };
        edges_hold(rest, policy, from, to, at);
        let before = edges_from(rest, policy, from);
        let place = relationships.len() - 1;
        if let Some(target) = crate::traversal::followed(last, policy) {
            assert(joins(last, policy, last.source, target));
            let outgoing = if policy.direction != EdgeDirection::Incoming && last.source == from {
                before.push(EdgeView { neighbor: target, relationship: place })
            } else {
                before
            };
            push_holds(before, EdgeView { neighbor: target, relationship: place }, edge);
            push_holds(outgoing, EdgeView { neighbor: last.source, relationship: place }, edge);
        }
        if at < place {
            assert(0 <= at ==> rest[at] == relationships[at]);
        }
    }
}

/// One entity leads to another exactly where a relationship goes from the one to the other, in a
/// direction that the policy follows.
pub proof fn entities_lead_to_their_neighbors(
    relationships: Seq<MemoryRelationshipView>,
    policy: MemoryContextPolicyView,
    from: Seq<char>,
    to: Seq<char>,
)
    ensures
        leads(relationships, policy, from, to) == exists|at: int|
            0 <= at < relationships.len() && goes_along(#[trigger] relationships[at], policy, from, to),
{
    let edges = edges_from(relationships, policy, from);
    let found = neighbors(relationships, policy, from);
    if leads(relationships, policy, from, to) {
        let i = choose|i: int|
            0 <= i < found.len() && (#[trigger] neighbors(relationships, policy, from)[i]).neighbor == to;
        assert(found.contains(found[i]));
        sorted_holds::<Edge>(edges, found[i]);
        edges_hold(relationships, policy, from, to, found[i].relationship);
        assert(found[i] == (EdgeView { neighbor: to, relationship: found[i].relationship }));
        assert(goes_along(relationships[found[i].relationship], policy, from, to));
    }
    if exists|at: int|
        0 <= at < relationships.len() && goes_along(#[trigger] relationships[at], policy, from, to) {
        let at = choose|at: int|
            0 <= at < relationships.len() && goes_along(#[trigger] relationships[at], policy, from, to);
        let edge = EdgeView { neighbor: to, relationship: at };
        edges_hold(relationships, policy, from, to, at);
        sorted_holds::<Edge>(edges, edge);
        let i = choose|i: int| 0 <= i < found.len() && found[i] == edge;
        assert(neighbors(relationships, policy, from)[i].neighbor == to);
    }
}

/// Whether what was selected before is selected after in the same way.
spec fn keeps_selection(before: Traversal, after: Traversal) -> bool {
    forall|id: Seq<char>| #[trigger]
        before.selected.contains_key(id) ==> after.selected.contains_key(id) && after.selected[id]
            == before.selected[id]
}

proof fn edges_keep_selection(
    state: Traversal,
    edges: Seq<EdgeView>,
    count: int,
    depth: u32,
    relationships: Seq<MemoryRelationshipView>,
    budget: EffectiveBudget,
    answers: Seq<u64>,
)
    ensures
        keeps_selection(state, with_edges(state, edges, count, depth, relationships, budget, answers)),
    decreases count,
{
    if count > 0 {
        edges_keep_selection(state, edges, count - 1, depth, relationships, budget, answers);
        let before = with_edges(state, edges, count - 1, depth, relationships, budget, answers);
        let after = with_edge(before, edges[count - 1], depth, relationships, budget, answers);
        assert(keeps_selection(before, after));
        assert forall|id: Seq<char>| #[trigger] state.selected.contains_key(id) implies after.selected.contains_key(id)
            && after.selected[id] == state.selected[id] by {
            assert(before.selected.contains_key(id));
        }
    }
}

proof fn visits_keep_selection(
    state: Traversal,
    count: nat,
    relationships: Seq<MemoryRelationshipView>,
    policy: MemoryContextPolicyView,
    budget: EffectiveBudget,
    answers: Seq<u64>,
)
    ensures
        keeps_selection(state, visits(state, count, relationships, policy, budget, answers)),
    decreases count,
{
    if count > 0 {
        visits_keep_selection(state, (count - 1) as nat, relationships, policy, budget, answers);
        let before = visits(state, (count - 1) as nat, relationships, policy, budget, answers);
        let after = next_visit(before, relationships, policy, budget, answers);
        if !crate::traversal::is_finished(before) {
            let visit = before.queue[0];
            let edges = neighbors(relationships, policy, visit.id);
            let explored = Traversal {
                queue: before.queue.skip(1),
                at: before.at + 1,
                explored_depth: if visit.depth > before.explored_depth {
                    visit.depth
                } else {
                    before.explored_depth
                },
                ..before
            };
            edges_keep_selection(explored, edges, edges.len() as int, visit.depth, relationships, budget, answers);
            let walked_on = with_edges(
                explored,
                edges,
                edges.len() as int,
                visit.depth,
                relationships,
                budget,
                answers,
            );
            assert forall|id: Seq<char>| #[trigger] before.selected.contains_key(id) implies
                after.selected.contains_key(id) && after.selected[id] == before.selected[id] by {
                assert(explored.selected.contains_key(id));
            }
        }
        assert(keeps_selection(before, after));
        assert forall|id: Seq<char>| #[trigger] state.selected.contains_key(id) implies after.selected.contains_key(id)
            && after.selected[id] == state.selected[id] by {
            assert(before.selected.contains_key(id));
        }
    }
}

proof fn starts_are_selected(
    ids: Seq<Seq<char>>,
    reasons: Map<Seq<char>, Seq<Seq<char>>>,
    entities: Map<Seq<char>, MemoryEntityView>,
    at: int,
    id: Seq<char>,
)
    ensures
        started(ids, reasons, entities, at).selected.dom().finite(),
        started(ids, reasons, entities, at).selected.contains_key(id) == (ids.contains(id)
            && entities.contains_key(id)),
        started(ids, reasons, entities, at).selected.contains_key(id) ==> started(
            ids,
            reasons,
            entities,
            at,
        ).selected[id].depth == 0 && started(ids, reasons, entities, at).selected[id].reasons == listed(reasons, id),
    decreases ids.len(),
{
    if ids.len() > 0 {
        let rest = ids.drop_last();
        starts_are_selected(rest, reasons, entities, at, id);
        assert(ids =~= rest.push(ids.last()));
        push_holds(rest, ids.last(), id);
    }
}

proof fn candidates_hold(
    ids: Seq<Seq<char>>,
    selected: Map<Seq<char>, crate::traversal::SelectionView>,
    entities: Map<Seq<char>, MemoryEntityView>,
    id: Seq<char>,
)
    requires
        ids.contains(id),
        entities.contains_key(id),
    ensures
        candidates_among(ids, selected, entities).contains(
            ContextCandidateView {
                entity: entities[id],
                depth: selected[id].depth,
                selection_reasons: deduplicated::<MemoryDiagnosticCode>(
                    sorted::<MemoryDiagnosticCode>(selected[id].reasons),
                ),
            },
        ),
    decreases ids.len(),
{
    let rest = ids.drop_last();
    let last = ids.last();
    assert(ids =~= rest.push(last));
    push_holds(rest, last, id);
    let candidate = ContextCandidateView {
        entity: entities[id],
        depth: selected[id].depth,
        selection_reasons: deduplicated::<MemoryDiagnosticCode>(
            sorted::<MemoryDiagnosticCode>(selected[id].reasons),
        ),
    };
    let before = candidates_among(rest, selected, entities);
    let all = candidates_among(ids, selected, entities);
    if rest.contains(id) {
        candidates_hold(rest, selected, entities, id);
    }
    if entities.contains_key(last) {
        push_holds(before, all.last(), candidate);
        assert(all =~= before.push(all.last()));
    }
}

/// Of several records with one id the last stands under it.
proof fn last_entity_stands(entities: Seq<MemoryEntityView>, at: int)
    requires
        0 <= at < entities.len(),
        forall|i: int| at < i < entities.len() ==> (#[trigger] entities[i]).id != entities[at].id,
    ensures
        entities_by_id(entities).contains_key(entities[at].id),
        entities_by_id(entities)[entities[at].id] == entities[at],
    decreases entities.len(),
{
    if at < entities.len() - 1 {
        let rest = entities.drop_last();
        assert(rest[at] == entities[at]);
        assert forall|i: int| at < i < rest.len() implies (#[trigger] rest[i]).id != rest[at].id by {
            assert(entities[i].id != entities[at].id);
        }
        last_entity_stands(rest, at);
        assert(entities[entities.len() - 1].id != entities[at].id);
    }
}

/// Every entity of the revision at which a seed starts is in its context at depth zero, before any
/// time-out or budget ends it, and says of itself that it is a seed where the seed names it, and that it
/// is linked to the repository where the seed is a place there.
pub proof fn contexts_hold_their_starts(
    request: MemoryContextRequestView,
    budget: EffectiveBudget,
    entities: Seq<MemoryEntityView>,
    relationships: Seq<MemoryRelationshipView>,
    links: Seq<MemoryRelationshipView>,
    answers: Seq<u64>,
    at: int,
    place: int,
    seed: int,
)
    requires
        0 <= place < entities.len(),
        forall|i: int| place < i < entities.len() ==> (#[trigger] entities[i]).id != entities[place].id,
        0 <= seed < request.seeds.len(),
        seed_matches(
            request.seeds[seed],
            values_in_order(entities_by_id(entities)),
            all_relationships(relationships, links),
            request.policy,
        ).contains(entities[place].id),
    ensures
        ({
            let result = assembled(
                request,
                budget,
                Ok::<Seq<MemoryEntityView>, MemoryQueryErrorView>(entities),
                Ok::<Seq<MemoryRelationshipView>, MemoryQueryErrorView>(relationships),
                Ok::<Seq<MemoryRelationshipView>, MemoryQueryErrorView>(links),
                answers,
                at,
            );
            &&& result is Ok
            &&& exists|i: int|
                0 <= i < result->Ok_0.0.candidates.len() && {
                    let candidate = #[trigger] result->Ok_0.0.candidates[i];
                    &&& candidate.entity == entities[place]
                    &&& candidate.depth == 0
                    &&& !crate::laws::starting::is_place(request.seeds[seed])
                        ==> candidate.selection_reasons.contains("context.seed"@)
                    &&& crate::laws::starting::is_place(request.seeds[seed])
                        ==> candidate.selection_reasons.contains("context.repositorylink"@)
                }
        }),
{
    let by_id = entities_by_id(entities);
    let merged = all_relationships(relationships, links);
    let id = entities[place].id;
    let known = values_in_order(by_id);
    let reasons = seed_reasons(request.seeds, known, merged, request.policy);
    last_entity_stands(entities, place);
    crate::laws::starting::starts_are_those_of_the_seeds(request.seeds, known, merged, request.policy, id);
    assert(seed_matches(request.seeds[seed], known, merged, request.policy).contains(id));
    assert(reasons.contains_key(id));
    reasons_are_finite(request.seeds, known, merged, request.policy);
    walks_hold_their_starts(reasons, by_id, merged, request.policy, budget, answers, at, id);
    codes_are_kept(listed(reasons, id), "context.seed"@);
    codes_are_kept(listed(reasons, id), "context.repositorylink"@);
    let candidates = gathered(
        walked(reasons, by_id, merged, request.policy, budget, answers, at),
        by_id,
    ).candidates;
    let candidate = start_candidate(reasons, by_id, id);
    let i = choose|i: int| 0 <= i < candidates.len() && candidates[i] == candidate;
    let result = assembled(
        request,
        budget,
        Ok::<Seq<MemoryEntityView>, MemoryQueryErrorView>(entities),
        Ok::<Seq<MemoryRelationshipView>, MemoryQueryErrorView>(relationships),
        Ok::<Seq<MemoryRelationshipView>, MemoryQueryErrorView>(links),
        answers,
        at,
    );
    reveal(assembled);
    assert(result is Ok && result->Ok_0.0.candidates == candidates);
    assert(result->Ok_0.0.candidates[i] == candidate);
    assert(candidate.entity == entities[place] && candidate.depth == 0);
    if crate::laws::starting::is_place(request.seeds[seed]) {
        assert(listed(reasons, id).contains("context.repositorylink"@));
    } else {
        assert(listed(reasons, id).contains("context.seed"@));
    }
}

/// Whether a seed names an entity: by its id, or by the milestone, the task or the run that it is or
/// belongs to.
pub open spec fn is_named(seed: MemoryContextSeedView, entity: MemoryEntityView) -> bool {
    match seed {
        MemoryContextSeedView::Entity(id) => entity.id == id,
        MemoryContextSeedView::Milestone(id) => crate::laws::starting::is_of_milestone(entity, id),
        MemoryContextSeedView::Task(id) => crate::laws::starting::is_of_task(entity, id),
        MemoryContextSeedView::Run(id) => entity.data matches MemoryEntityDataView::RunReference { run_id, .. }
            && run_id == id,
        MemoryContextSeedView::RepositoryPath(_) => false,
        MemoryContextSeedView::RepositorySymbol(_) => false,
    }
}

/// The context of a seed holds every entity of the revision that the seed names, as a seed at depth
/// zero, however the deadline answers.
pub proof fn contexts_hold_what_their_seeds_name(
    request: MemoryContextRequestView,
    budget: EffectiveBudget,
    entities: Seq<MemoryEntityView>,
    relationships: Seq<MemoryRelationshipView>,
    links: Seq<MemoryRelationshipView>,
    answers: Seq<u64>,
    at: int,
    place: int,
    seed: int,
)
    requires
        0 <= place < entities.len(),
        forall|i: int| place < i < entities.len() ==> (#[trigger] entities[i]).id != entities[place].id,
        0 <= seed < request.seeds.len(),
        is_named(request.seeds[seed], entities[place]),
    ensures
        ({
            let result = assembled(
                request,
                budget,
                Ok::<Seq<MemoryEntityView>, MemoryQueryErrorView>(entities),
                Ok::<Seq<MemoryRelationshipView>, MemoryQueryErrorView>(relationships),
                Ok::<Seq<MemoryRelationshipView>, MemoryQueryErrorView>(links),
                answers,
                at,
            );
            &&& result is Ok
            &&& exists|i: int|
                0 <= i < result->Ok_0.0.candidates.len() && {
                    let candidate = #[trigger] result->Ok_0.0.candidates[i];
                    &&& candidate.entity == entities[place]
                    &&& candidate.depth == 0
                    &&& candidate.selection_reasons.contains("context.seed"@)
                }
        }),
{
    let by_id = entities_by_id(entities);
    let merged = all_relationships(relationships, links);
    let known = values_in_order(by_id);
    let id = entities[place].id;
    let wanted = request.seeds[seed];
    last_entity_stands(entities, place);
    entities_stand_under_their_ids(entities);
    ordered_holds(by_id.dom(), id);
    let order = in_order(by_id.dom());
    let i = choose|i: int| 0 <= i < order.len() && order[i] == id;
    assert(known[i] == entities[place]);
    match wanted {
        MemoryContextSeedView::Entity(name) => {
            entity_seeds_start_at_their_entity(name, known, merged, request.policy, id);
        },
        MemoryContextSeedView::Milestone(name) => {
            milestone_seeds_start_at_what_belongs_to_them(name, known, merged, request.policy, id);
        },
        MemoryContextSeedView::Task(name) => {
            task_seeds_start_at_their_task_and_its_runs(name, known, merged, request.policy, id);
        },
        MemoryContextSeedView::Run(name) => {
            run_seeds_start_at_their_run(name, known, merged, request.policy, id);
        },
        _ => {},
    }
    contexts_hold_their_starts(request, budget, entities, relationships, links, answers, at, place, seed);
}

/// The candidate that an entity at which a context starts is.
spec fn start_candidate(
    reasons: Map<Seq<char>, Seq<Seq<char>>>,
    entities: Map<Seq<char>, MemoryEntityView>,
    id: Seq<char>,
) -> ContextCandidateView {
    ContextCandidateView {
        entity: entities[id],
        depth: 0,
        selection_reasons: deduplicated::<MemoryDiagnosticCode>(
            sorted::<MemoryDiagnosticCode>(listed(reasons, id)),
        ),
    }
}

proof fn walks_hold_their_starts(
    reasons: Map<Seq<char>, Seq<Seq<char>>>,
    entities: Map<Seq<char>, MemoryEntityView>,
    relationships: Seq<MemoryRelationshipView>,
    policy: MemoryContextPolicyView,
    budget: EffectiveBudget,
    answers: Seq<u64>,
    at: int,
    id: Seq<char>,
)
    requires
        reasons.dom().finite(),
        reasons.contains_key(id),
        entities.contains_key(id),
    ensures
        gathered(
            walked(reasons, entities, relationships, policy, budget, answers, at),
            entities,
        ).candidates.contains(start_candidate(reasons, entities, id)),
{
    ordered_holds(reasons.dom(), id);
    let ids = in_order(reasons.dom());
    let start = started(ids, reasons, entities, at);
    starts_are_selected(ids, reasons, entities, at, id);
    let count = traversal_ends(start, relationships, policy, budget, answers);
    visits_keep_selection(start, count, relationships, policy, budget, answers);
    visits_select_finitely(start, count, relationships, policy, budget, answers);
    let end = walked(reasons, entities, relationships, policy, budget, answers, at);
    assert(end == visits(start, count, relationships, policy, budget, answers));
    assert(start.selected.contains_key(id));
    assert(end.selected.contains_key(id) && end.selected[id] == start.selected[id]);
    ordered_holds(end.selected.dom(), id);
    let order = in_order(end.selected.dom());
    candidates_hold(order, end.selected, entities, id);
    sorted_holds::<ContextCandidate>(
        candidates_among(order, end.selected, entities),
        start_candidate(reasons, entities, id),
    );
}

proof fn codes_are_kept(codes: Seq<Seq<char>>, code: Seq<char>)
    ensures
        deduplicated::<MemoryDiagnosticCode>(sorted::<MemoryDiagnosticCode>(codes)).contains(code)
            == codes.contains(code),
{
    let ordered = sorted::<MemoryDiagnosticCode>(codes);
    sorted_holds::<MemoryDiagnosticCode>(codes, code);
    deduplicated_holds::<MemoryDiagnosticCode>(ordered, code);
    let kept = deduplicated::<MemoryDiagnosticCode>(ordered);
    if codes.contains(code) {
        let i = choose|i: int|
            0 <= i < kept.len() && <MemoryDiagnosticCode as crate::sort::Identified>::identity(#[trigger] kept[i])
                == <MemoryDiagnosticCode as crate::sort::Identified>::identity(code);
        assert(kept[i] == code);
    }
}

proof fn ordered_holds(keys: Set<Seq<char>>, key: Seq<char>)
    requires
        keys.finite(),
    ensures
        in_order(keys).contains(key) == keys.contains(key),
{
    let list = keys.to_seq();
    assert(list.to_set() =~= keys) by {
        assert forall|other: Seq<char>| list.to_set().contains(other) == keys.contains(other) by {
            broadcast use vstd::set::group_set_axioms;

            keys.lemma_to_seq_to_set_id();
        }
    }
    in_order_holds(list);
    assert(in_order(keys).to_set().contains(key) == keys.contains(key));
}

proof fn reasons_are_finite(
    seeds: Seq<MemoryContextSeedView>,
    entities: Seq<MemoryEntityView>,
    relationships: Seq<MemoryRelationshipView>,
    policy: MemoryContextPolicyView,
)
    ensures
        seed_reasons(seeds, entities, relationships, policy).dom().finite(),
    decreases seeds.len(),
{
    if seeds.len() > 0 {
        reasons_are_finite(seeds.drop_last(), entities, relationships, policy);
        adding_stays_finite(
            seed_reasons(seeds.drop_last(), entities, relationships, policy),
            seed_matches(seeds.last(), entities, relationships, policy),
            crate::seeds::seed_reason(seeds.last()),
        );
    }
}

proof fn adding_stays_finite(
    reasons: Map<Seq<char>, Seq<Seq<char>>>,
    ids: Seq<Seq<char>>,
    reason: Seq<char>,
)
    requires
        reasons.dom().finite(),
    ensures
        crate::seeds::with_reason(reasons, ids, reason).dom().finite(),
    decreases ids.len(),
{
    if ids.len() > 0 {
        adding_stays_finite(reasons, ids.drop_last(), reason);
    }
}

proof fn edges_stay_finite(
    state: Traversal,
    edges: Seq<EdgeView>,
    count: int,
    depth: u32,
    relationships: Seq<MemoryRelationshipView>,
    budget: EffectiveBudget,
    answers: Seq<u64>,
)
    requires
        state.selected.dom().finite(),
    ensures
        with_edges(state, edges, count, depth, relationships, budget, answers).selected.dom().finite(),
    decreases count,
{
    if count > 0 {
        edges_stay_finite(state, edges, count - 1, depth, relationships, budget, answers);
    }
}

proof fn visits_select_finitely(
    state: Traversal,
    count: nat,
    relationships: Seq<MemoryRelationshipView>,
    policy: MemoryContextPolicyView,
    budget: EffectiveBudget,
    answers: Seq<u64>,
)
    requires
        state.selected.dom().finite(),
    ensures
        visits(state, count, relationships, policy, budget, answers).selected.dom().finite(),
    decreases count,
{
    if count > 0 {
        visits_select_finitely(state, (count - 1) as nat, relationships, policy, budget, answers);
        let before = visits(state, (count - 1) as nat, relationships, policy, budget, answers);
        if !crate::traversal::is_finished(before) {
            let visit = before.queue[0];
            let edges = neighbors(relationships, policy, visit.id);
            let explored = Traversal {
                queue: before.queue.skip(1),
                at: before.at + 1,
                explored_depth: if visit.depth > before.explored_depth {
                    visit.depth
                } else {
                    before.explored_depth
                },
                ..before
            };
            edges_stay_finite(explored, edges, edges.len() as int, visit.depth, relationships, budget, answers);
        }
    }
}

/// A neighbor that is new is selected one step further than where it was met, because of the
/// relationship, and waits to be visited. One that is selected already stays as it is.
pub proof fn neighbors_are_selected_one_step_further(
    state: Traversal,
    neighbor: Seq<char>,
    depth: u32,
    other: Seq<char>,
)
    requires
        depth < u32::MAX,
    ensures
        state.selected.contains_key(neighbor) ==> with_neighbor(state, neighbor, depth) == state,
        !state.selected.contains_key(neighbor) && with_neighbor(state, neighbor, depth).truncation
            == state.truncation && state.truncation is None ==> {
            &&& with_neighbor(state, neighbor, depth).selected.contains_key(neighbor)
            &&& with_neighbor(state, neighbor, depth).selected[neighbor].depth == depth + 1
            &&& with_neighbor(state, neighbor, depth).selected[neighbor].reasons
                == seq!["context.relationship"@]
            &&& with_neighbor(state, neighbor, depth).queue.last().id == neighbor
            &&& with_neighbor(state, neighbor, depth).queue.last().depth == depth + 1
        },
        other != neighbor ==> with_neighbor(state, neighbor, depth).selected.contains_key(other)
            == state.selected.contains_key(other) && with_neighbor(state, neighbor, depth).selected[other]
            == state.selected[other],
{
    assert(Seq::<Seq<char>>::empty().push("context.relationship"@) =~= seq!["context.relationship"@]);
}

/// Where a seed starts, it is said why: a place in the repository starts at what is linked to it, and
/// any other seed at what it names.
pub proof fn starts_say_why_they_are_there(seed: MemoryContextSeedView)
    ensures
        seed is RepositoryPath || seed is RepositorySymbol ==> seed_reason(seed)
            == "context.repositorylink"@,
        !(seed is RepositoryPath || seed is RepositorySymbol) ==> seed_reason(seed) == "context.seed"@,
{
}

/// Each of the entities at which a seed starts gets its reason beside those that it had, and no other
/// entity does.
pub proof fn reasons_are_given_to_the_starts(
    reasons: Map<Seq<char>, Seq<Seq<char>>>,
    ids: Seq<Seq<char>>,
    reason: Seq<char>,
    id: Seq<char>,
)
    ensures
        ids.contains(id) ==> with_reason(reasons, ids, reason).contains_key(id) && with_reason(
            reasons,
            ids,
            reason,
        )[id].last() == reason && with_reason(reasons, ids, reason)[id].len() > 0,
        !ids.contains(id) ==> with_reason(reasons, ids, reason).contains_key(id)
            == reasons.contains_key(id) && with_reason(reasons, ids, reason)[id] == reasons[id],
    decreases ids.len(),
{
    if ids.len() > 0 {
        let rest = ids.drop_last();
        reasons_are_given_to_the_starts(reasons, rest, reason, id);
        assert(ids =~= rest.push(ids.last()));
        push_holds(rest, ids.last(), id);
    }
}

}
