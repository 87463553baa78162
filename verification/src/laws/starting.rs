//! At which entities a context starts.
use vstd::prelude::*;
use crate::domain::{
    MemoryEntityDataView, MemoryEntityView, MemoryRelationshipTargetView, MemoryRelationshipView,
    MemoryResolutionState,
};
use crate::laws::lists::push_holds;
use crate::order::{in_order_holds, listed};
use crate::query::{MemoryContextPolicyView, MemoryContextSeedView};
use crate::seeds::{
    linked_entities, named_entities, names_entity, names_target, seed_matches, seed_reason, seed_reasons,
    with_reason,
};

verus! {

/// Whether a policy shows what was resolved in this way: what is resolved always, and what is stale or
/// unresolved where the policy asks for it.
pub open spec fn is_shown(resolution: MemoryResolutionState, policy: MemoryContextPolicyView) -> bool {
    &&& resolution == MemoryResolutionState::Stale ==> policy.include_stale
    &&& resolution == MemoryResolutionState::Unresolved ==> policy.include_unresolved
}

proof fn named_entities_hold(seed: MemoryContextSeedView, entities: Seq<MemoryEntityView>, id: Seq<char>)
    ensures
        named_entities(seed, entities).contains(id) == exists|i: int|
            0 <= i < entities.len() && names_entity(seed, #[trigger] entities[i]) && entities[i].id == id,
    decreases entities.len(),
{
    let found = named_entities(seed, entities);
    if entities.len() > 0 {
        let rest = entities.drop_last();
        let before = named_entities(seed, rest);
        named_entities_hold(seed, rest, id);
        if found.contains(id) {
            let i = choose|i: int| 0 <= i < found.len() && found[i] == id;
            if i < before.len() {
                assert(before[i] == id);
                let j = choose|j: int|
                    0 <= j < rest.len() && names_entity(seed, #[trigger] rest[j]) && rest[j].id == id;
                assert(entities[j] == rest[j]);
            } else {
                assert(entities[entities.len() - 1] == entities.last());
            }
        }
        if exists|i: int|
            0 <= i < entities.len() && names_entity(seed, #[trigger] entities[i]) && entities[i].id == id {
            let i = choose|i: int|
                0 <= i < entities.len() && names_entity(seed, #[trigger] entities[i]) && entities[i].id == id;
            if i < rest.len() {
                assert(rest[i] == entities[i]);
                let j = choose|j: int| 0 <= j < before.len() && before[j] == id;
                assert(found[j] == id);
            } else {
                assert(found[before.len() as int] == id);
            }
        }
    }
}

proof fn linked_entities_hold(
    seed: MemoryContextSeedView,
    relationships: Seq<MemoryRelationshipView>,
    policy: MemoryContextPolicyView,
    id: Seq<char>,
)
    ensures
        linked_entities(seed, relationships, policy).contains(id) == exists|i: int|
            0 <= i < relationships.len() && names_target(seed, #[trigger] relationships[i], policy)
                && relationships[i].source == id,
    decreases relationships.len(),
{
    let found = linked_entities(seed, relationships, policy);
    if relationships.len() > 0 {
        let rest = relationships.drop_last();
        let before = linked_entities(seed, rest, policy);
        linked_entities_hold(seed, rest, policy, id);
        if found.contains(id) {
            let i = choose|i: int| 0 <= i < found.len() && found[i] == id;
            if i < before.len() {
                assert(before[i] == id);
                let j = choose|j: int|
                    0 <= j < rest.len() && names_target(seed, #[trigger] rest[j], policy) && rest[j].source == id;
                assert(relationships[j] == rest[j]);
            } else {
                assert(relationships[relationships.len() - 1] == relationships.last());
            }
        }
        if exists|i: int|
            0 <= i < relationships.len() && names_target(seed, #[trigger] relationships[i], policy)
                && relationships[i].source == id {
            let i = choose|i: int|
                0 <= i < relationships.len() && names_target(seed, #[trigger] relationships[i], policy)
                    && relationships[i].source == id;
            if i < rest.len() {
                assert(rest[i] == relationships[i]);
                let j = choose|j: int| 0 <= j < before.len() && before[j] == id;
                assert(found[j] == id);
            } else {
                assert(found[before.len() as int] == id);
            }
        }
    }
}

proof fn seed_matches_hold(
    seed: MemoryContextSeedView,
    entities: Seq<MemoryEntityView>,
    relationships: Seq<MemoryRelationshipView>,
    policy: MemoryContextPolicyView,
    id: Seq<char>,
)
    ensures
        seed_matches(seed, entities, relationships, policy).contains(id) == ({
            ||| exists|i: int|
                0 <= i < entities.len() && names_entity(seed, #[trigger] entities[i]) && entities[i].id == id
            ||| exists|i: int|
                0 <= i < relationships.len() && names_target(seed, #[trigger] relationships[i], policy)
                    && relationships[i].source == id
        }),
{
    let named = named_entities(seed, entities);
    let linked = linked_entities(seed, relationships, policy);
    let found = seed_matches(seed, entities, relationships, policy);
    named_entities_hold(seed, entities, id);
    linked_entities_hold(seed, relationships, policy, id);
    in_order_holds(named + linked);
    assert(found.to_set().contains(id) == (named + linked).to_set().contains(id));
    if (named + linked).contains(id) {
        let i = choose|i: int| 0 <= i < (named + linked).len() && (named + linked)[i] == id;
        if i < named.len() {
            assert(named[i] == id);
        } else {
            assert(linked[i - named.len()] == id);
        }
    }
    if named.contains(id) {
        let i = choose|i: int| 0 <= i < named.len() && named[i] == id;
        assert((named + linked)[i] == id);
    }
    if linked.contains(id) {
        let i = choose|i: int| 0 <= i < linked.len() && linked[i] == id;
        assert((named + linked)[named.len() + i] == id);
    }
}

/// A seed that is an entity starts at the entity with this id and at nothing else.
pub proof fn entity_seeds_start_at_their_entity(
    wanted: Seq<char>,
    entities: Seq<MemoryEntityView>,
    relationships: Seq<MemoryRelationshipView>,
    policy: MemoryContextPolicyView,
    id: Seq<char>,
)
    ensures
        seed_matches(MemoryContextSeedView::Entity(wanted), entities, relationships, policy).contains(id) == (id
            == wanted && exists|i: int| 0 <= i < entities.len() && (#[trigger] entities[i]).id == wanted),
{
    seed_matches_hold(MemoryContextSeedView::Entity(wanted), entities, relationships, policy, id);
}

/// A run seed starts at the reference of the run with this id, and neither at another run nor at
/// anything that is not a run.
pub proof fn run_seeds_start_at_their_run(
    run: Seq<char>,
    entities: Seq<MemoryEntityView>,
    relationships: Seq<MemoryRelationshipView>,
    policy: MemoryContextPolicyView,
    id: Seq<char>,
)
    ensures
        seed_matches(MemoryContextSeedView::Run(run), entities, relationships, policy).contains(id) == exists|
            i: int,
        |
            0 <= i < entities.len() && (#[trigger] entities[i]).id == id && (
            entities[i].data matches MemoryEntityDataView::RunReference { run_id, .. } && run_id == run),
{
    let seed = MemoryContextSeedView::Run(run);
    seed_matches_hold(seed, entities, relationships, policy, id);
    if exists|i: int|
        0 <= i < entities.len() && (#[trigger] entities[i]).id == id && (
        entities[i].data matches MemoryEntityDataView::RunReference { run_id, .. } && run_id == run) {
        let i = choose|i: int|
            0 <= i < entities.len() && (#[trigger] entities[i]).id == id && (
            entities[i].data matches MemoryEntityDataView::RunReference { run_id, .. } && run_id == run);
        assert(names_entity(seed, entities[i]));
    }
    if exists|i: int| 0 <= i < entities.len() && names_entity(seed, #[trigger] entities[i]) && entities[i].id == id {
        let i = choose|i: int|
            0 <= i < entities.len() && names_entity(seed, #[trigger] entities[i]) && entities[i].id == id;
        assert(entities[i].id == id && (
        entities[i].data matches MemoryEntityDataView::RunReference { run_id, .. } && run_id == run));
    }
}

/// Whether an entity is the reference of a task or of one of its runs.
pub open spec fn is_of_task(entity: MemoryEntityView, task: Seq<char>) -> bool {
    ||| (entity.data matches MemoryEntityDataView::TaskReference { task_id, .. } && task_id == task)
    ||| (entity.data matches MemoryEntityDataView::RunReference { task_id, .. } && task_id == task)
}

/// A task seed starts at the reference of the task with this id and at each of its runs.
pub proof fn task_seeds_start_at_their_task_and_its_runs(
    task: Seq<char>,
    entities: Seq<MemoryEntityView>,
    relationships: Seq<MemoryRelationshipView>,
    policy: MemoryContextPolicyView,
    id: Seq<char>,
)
    ensures
        seed_matches(MemoryContextSeedView::Task(task), entities, relationships, policy).contains(id) == exists|
            i: int,
        | 0 <= i < entities.len() && is_of_task(#[trigger] entities[i], task) && entities[i].id == id,
{
    let seed = MemoryContextSeedView::Task(task);
    seed_matches_hold(seed, entities, relationships, policy, id);
    assert forall|i: int| 0 <= i < entities.len() implies names_entity(seed, #[trigger] entities[i])
        == is_of_task(entities[i], task) by {}
}

/// Whether an entity is a milestone, or a task or follow-up work that belongs to it.
pub open spec fn is_of_milestone(entity: MemoryEntityView, milestone: Seq<char>) -> bool {
    ||| (entity.data matches MemoryEntityDataView::Milestone { milestone_id, .. } && milestone_id == milestone)
    ||| (entity.data matches MemoryEntityDataView::TaskReference { milestone_id: Some(id), .. } && id == milestone)
    ||| (entity.data matches MemoryEntityDataView::FollowUpWork { milestone_id: Some(id), .. } && id == milestone)
}

/// A milestone seed starts at the milestone with this id, at its tasks and at its follow-up work.
pub proof fn milestone_seeds_start_at_what_belongs_to_them(
    milestone: Seq<char>,
    entities: Seq<MemoryEntityView>,
    relationships: Seq<MemoryRelationshipView>,
    policy: MemoryContextPolicyView,
    id: Seq<char>,
)
    ensures
        seed_matches(MemoryContextSeedView::Milestone(milestone), entities, relationships, policy).contains(id)
            == exists|i: int|
            0 <= i < entities.len() && is_of_milestone(#[trigger] entities[i], milestone) && entities[i].id == id,
{
    let seed = MemoryContextSeedView::Milestone(milestone);
    seed_matches_hold(seed, entities, relationships, policy, id);
    assert forall|i: int| 0 <= i < entities.len() implies names_entity(seed, #[trigger] entities[i])
        == is_of_milestone(entities[i], milestone) by {}
}

/// Whether a shown relationship ends at a path of the repository.
pub open spec fn is_to_path(
    relationship: MemoryRelationshipView,
    wanted: Seq<char>,
    policy: MemoryContextPolicyView,
) -> bool {
    is_shown(relationship.provenance.resolution, policy) && (
    relationship.target matches MemoryRelationshipTargetView::RepositoryPath { path, .. } && path == wanted)
}

/// Whether a shown relationship ends at a symbol of the repository.
pub open spec fn is_to_symbol(
    relationship: MemoryRelationshipView,
    wanted: Seq<char>,
    policy: MemoryContextPolicyView,
) -> bool {
    is_shown(relationship.provenance.resolution, policy) && (
    relationship.target matches MemoryRelationshipTargetView::RepositorySymbol { semantic_key, .. }
        && semantic_key == wanted)
}

/// The seed of a path or of a symbol starts where the shown relationships to it start, whatever
/// snapshot they name.
pub proof fn repository_seeds_start_where_their_links_start(
    wanted: Seq<char>,
    entities: Seq<MemoryEntityView>,
    relationships: Seq<MemoryRelationshipView>,
    policy: MemoryContextPolicyView,
    id: Seq<char>,
)
    ensures
        seed_matches(MemoryContextSeedView::RepositoryPath(wanted), entities, relationships, policy).contains(id)
            == exists|i: int|
            0 <= i < relationships.len() && is_to_path(#[trigger] relationships[i], wanted, policy)
                && relationships[i].source == id,
        seed_matches(MemoryContextSeedView::RepositorySymbol(wanted), entities, relationships, policy).contains(id)
            == exists|i: int|
            0 <= i < relationships.len() && is_to_symbol(#[trigger] relationships[i], wanted, policy)
                && relationships[i].source == id,
{
    let path = MemoryContextSeedView::RepositoryPath(wanted);
    let symbol = MemoryContextSeedView::RepositorySymbol(wanted);
    seed_matches_hold(path, entities, relationships, policy, id);
    seed_matches_hold(symbol, entities, relationships, policy, id);
    assert forall|i: int| 0 <= i < relationships.len() implies names_target(path, #[trigger] relationships[i], policy)
        == is_to_path(relationships[i], wanted, policy) by {}
    assert forall|i: int| 0 <= i < relationships.len() implies names_target(
        symbol,
        #[trigger] relationships[i],
        policy,
    ) == is_to_symbol(relationships[i], wanted, policy) by {}
}

proof fn reasons_grow(
    reasons: Map<Seq<char>, Seq<Seq<char>>>,
    ids: Seq<Seq<char>>,
    reason: Seq<char>,
    id: Seq<char>,
)
    ensures
        with_reason(reasons, ids, reason).contains_key(id) == (reasons.contains_key(id) || ids.contains(id)),
        forall|known: Seq<char>|
            listed(with_reason(reasons, ids, reason), id).contains(known) == (listed(reasons, id).contains(known)
                || (ids.contains(id) && known == reason)),
    decreases ids.len(),
{
    let all = with_reason(reasons, ids, reason);
    if ids.len() > 0 {
        let rest = ids.drop_last();
        let before = with_reason(reasons, rest, reason);
        reasons_grow(reasons, rest, reason, id);
        assert(ids.contains(id) == (rest.contains(id) || id == ids.last())) by {
            assert(ids =~= rest.push(ids.last()));
            push_holds(rest, ids.last(), id);
        }
        assert forall|known: Seq<char>| listed(all, id).contains(known) == (listed(reasons, id).contains(known) || (
        ids.contains(id) && known == reason)) by {
            assert(listed(before, id).contains(known) == (listed(reasons, id).contains(known) || (rest.contains(id)
                && known == reason)));
            if id == ids.last() {
                push_holds(listed(before, id), reason, known);
            }
        }
    }
}

/// Whether a seed names a place in the repository.
pub open spec fn is_place(seed: MemoryContextSeedView) -> bool {
    seed is RepositoryPath || seed is RepositorySymbol
}

/// The seeds together start at what each of them starts at; an entity that a seed names is there as a
/// seed, and one that is linked to a place which a seed names as linked to the repository.
pub proof fn starts_are_those_of_the_seeds(
    seeds: Seq<MemoryContextSeedView>,
    entities: Seq<MemoryEntityView>,
    relationships: Seq<MemoryRelationshipView>,
    policy: MemoryContextPolicyView,
    id: Seq<char>,
)
    ensures
        seed_reasons(seeds, entities, relationships, policy).contains_key(id) == exists|i: int|
            0 <= i < seeds.len() && seed_matches(#[trigger] seeds[i], entities, relationships, policy).contains(
                id,
            ),
        listed(seed_reasons(seeds, entities, relationships, policy), id).contains("context.seed"@) == exists|
            i: int,
        |
            0 <= i < seeds.len() && !is_place(seeds[i]) && seed_matches(
                #[trigger] seeds[i],
                entities,
                relationships,
                policy,
            ).contains(id),
        listed(seed_reasons(seeds, entities, relationships, policy), id).contains("context.repositorylink"@)
            == exists|i: int|
            0 <= i < seeds.len() && is_place(seeds[i]) && seed_matches(
                #[trigger] seeds[i],
                entities,
                relationships,
                policy,
            ).contains(id),
    decreases seeds.len(),
{
    reveal_strlit("context.seed");
    reveal_strlit("context.repositorylink");
    assert("context.seed"@.len() != "context.repositorylink"@.len());
    if seeds.len() > 0 {
        let rest = seeds.drop_last();
        let last = seeds.last();
        starts_are_those_of_the_seeds(rest, entities, relationships, policy, id);
        let before = seed_reasons(rest, entities, relationships, policy);
        let new = seed_matches(last, entities, relationships, policy);
        reasons_grow(before, new, seed_reason(last), id);
        assert(seeds[seeds.len() - 1] == last);
        assert forall|i: int| 0 <= i < rest.len() implies #[trigger] rest[i] == seeds[i] by {}
        if exists|i: int|
            0 <= i < rest.len() && seed_matches(#[trigger] rest[i], entities, relationships, policy).contains(id) {
            let i = choose|i: int|
                0 <= i < rest.len() && seed_matches(#[trigger] rest[i], entities, relationships, policy).contains(id);
            assert(seed_matches(seeds[i], entities, relationships, policy).contains(id));
        }
        if exists|i: int|
            0 <= i < seeds.len() && seed_matches(#[trigger] seeds[i], entities, relationships, policy).contains(id) {
            let i = choose|i: int|
                0 <= i < seeds.len() && seed_matches(#[trigger] seeds[i], entities, relationships, policy).contains(
                    id,
                );
            if i < rest.len() {
                assert(rest[i] == seeds[i]);
            }
        }
        if exists|i: int|
            0 <= i < rest.len() && !is_place(rest[i]) && seed_matches(
                #[trigger] rest[i],
                entities,
                relationships,
                policy,
            ).contains(id) {
            let i = choose|i: int|
                0 <= i < rest.len() && !is_place(rest[i]) && seed_matches(
                    #[trigger] rest[i],
                    entities,
                    relationships,
                    policy,
                ).contains(id);
            assert(!is_place(seeds[i]) && seed_matches(seeds[i], entities, relationships, policy).contains(id));
        }
        if exists|i: int|
            0 <= i < seeds.len() && !is_place(seeds[i]) && seed_matches(
                #[trigger] seeds[i],
                entities,
                relationships,
                policy,
            ).contains(id) {
            let i = choose|i: int|
                0 <= i < seeds.len() && !is_place(seeds[i]) && seed_matches(
                    #[trigger] seeds[i],
                    entities,
                    relationships,
                    policy,
                ).contains(id);
            if i < rest.len() {
                assert(!is_place(rest[i]) && seed_matches(rest[i], entities, relationships, policy).contains(id));
            }
        }
        if exists|i: int|
            0 <= i < rest.len() && is_place(rest[i]) && seed_matches(
                #[trigger] rest[i],
                entities,
                relationships,
                policy,
            ).contains(id) {
            let i = choose|i: int|
                0 <= i < rest.len() && is_place(rest[i]) && seed_matches(
                    #[trigger] rest[i],
                    entities,
                    relationships,
                    policy,
                ).contains(id);
            assert(is_place(seeds[i]) && seed_matches(seeds[i], entities, relationships, policy).contains(id));
        }
        if exists|i: int|
            0 <= i < seeds.len() && is_place(seeds[i]) && seed_matches(
                #[trigger] seeds[i],
                entities,
                relationships,
                policy,
            ).contains(id) {
            let i = choose|i: int|
                0 <= i < seeds.len() && is_place(seeds[i]) && seed_matches(
                    #[trigger] seeds[i],
                    entities,
                    relationships,
                    policy,
                ).contains(id);
            if i < rest.len() {
                assert(is_place(rest[i]) && seed_matches(rest[i], entities, relationships, policy).contains(id));
            }
        }
    }
}

}
