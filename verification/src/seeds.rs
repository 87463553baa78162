//! Where the context around some seeds starts.
use vstd::prelude::*;
use crate::diagnostics::{diagnostic_code, MemoryDiagnosticCode};
use crate::domain::{
    MemoryEntity, MemoryEntityData, MemoryEntityDataView, MemoryEntityView, MemoryRelationship,
    MemoryRelationshipTarget, MemoryRelationshipTargetView, MemoryRelationshipView,
    MemoryResolutionState,
};
use crate::order::{in_order, listed, sorted_distinct, values_in_order, OrderedMap};
use crate::query::{
    MemoryContextPolicy, MemoryContextPolicyView, MemoryContextSeed, MemoryContextSeedView,
};
use crate::record::Record;

verus! {

/// The entities under their ids; of two with one id the later counts.
pub open spec fn entities_by_id(entities: Seq<MemoryEntityView>) -> Map<Seq<char>, MemoryEntityView>
    decreases entities.len(),
{
    if entities.len() == 0 {
        Map::empty()
    } else {
        entities_by_id(entities.drop_last()).insert(entities.last().id, entities.last())
    }
}

/// The entities under their ids.
pub fn entity_map(entities: &Vec<MemoryEntity>) -> (map: OrderedMap<MemoryEntity>)
    ensures
        map.well_formed(),
        map.deep_view() == entities_by_id(entities.deep_view()),
{
    let mut map: OrderedMap<MemoryEntity> = OrderedMap::new();
    let mut at: usize = 0;
    while at < entities.len()
        invariant
            at <= entities.len(),
            map.well_formed(),
            map.deep_view() == entities_by_id(entities.deep_view().take(at as int)),
        decreases entities.len() - at,
    {
        let entity = &entities[at];
        proof {
            let next = entities.deep_view().take(at + 1);
            assert(next.drop_last() =~= entities.deep_view().take(at as int));
            assert(next.last() == entity.deep_view());
        }
        map.insert(entity.id.as_str().to_owned(), entity.copied());
        at += 1;
    }
    assert(entities.deep_view().take(at as int) =~= entities.deep_view());
    map
}

/// An entity stands under its own id.
pub proof fn entities_stand_under_their_ids(entities: Seq<MemoryEntityView>)
    ensures
        forall|id: Seq<char>| #[trigger]
            entities_by_id(entities).contains_key(id) ==> entities_by_id(entities)[id].id == id
                && entities.contains(entities_by_id(entities)[id]),
        entities_by_id(entities).dom().finite(),
    decreases entities.len(),
{
    if entities.len() > 0 {
        let rest = entities.drop_last();
        entities_stand_under_their_ids(rest);
        assert forall|id: Seq<char>| #[trigger] entities_by_id(entities).contains_key(id) implies entities_by_id(
            entities,
        )[id].id == id && entities.contains(entities_by_id(entities)[id]) by {
            if id == entities.last().id {
                assert(entities[entities.len() - 1] == entities.last());
            } else {
                let found = entities_by_id(rest)[id];
                assert(entities_by_id(rest).contains_key(id));
                let i = choose|i: int| 0 <= i < rest.len() && rest[i] == found;
                assert(entities[i] == found);
            }
        }
    }
}

/// Relationships under their ids; of two with one id the later counts.
pub open spec fn relationships_by_id(relationships: Seq<MemoryRelationshipView>) -> Map<
    Seq<char>,
    MemoryRelationshipView,
>
    decreases relationships.len(),
{
    if relationships.len() == 0 {
        Map::empty()
    } else {
        relationships_by_id(relationships.drop_last()).insert(
            relationships.last().id,
            relationships.last(),
        )
    }
}

/// Relationships with those links whose ids are new; of two links with one id the first counts.
pub open spec fn with_links(
    relationships: Map<Seq<char>, MemoryRelationshipView>,
    links: Seq<MemoryRelationshipView>,
) -> Map<Seq<char>, MemoryRelationshipView>
    decreases links.len(),
{
    if links.len() == 0 {
        relationships
    } else {
        let rest = with_links(relationships, links.drop_last());
        if rest.contains_key(links.last().id) {
            rest
        } else {
            rest.insert(links.last().id, links.last())
        }
    }
}

/// All the relationships of a revision in the order of their ids, given its own and the links of its
/// link sets, the newest set first.
pub open spec fn all_relationships(
    relationships: Seq<MemoryRelationshipView>,
    links: Seq<MemoryRelationshipView>,
) -> Seq<MemoryRelationshipView> {
    values_in_order(with_links(relationships_by_id(relationships), links))
}

/// All the relationships of a revision in the order of their ids. A link does not replace a
/// relationship of the revision, nor an older link a newer one.
pub fn merge_relationships(
    relationships: &Vec<MemoryRelationship>,
    links: &Vec<MemoryRelationship>,
) -> (merged: Vec<MemoryRelationship>)
    ensures
        merged.deep_view() == all_relationships(relationships.deep_view(), links.deep_view()),
{
    let mut map: OrderedMap<MemoryRelationship> = OrderedMap::new();
    let mut at: usize = 0;
    while at < relationships.len()
        invariant
            at <= relationships.len(),
            map.well_formed(),
            map.deep_view() == relationships_by_id(relationships.deep_view().take(at as int)),
        decreases relationships.len() - at,
    {
        let relationship = &relationships[at];
        proof {
            let next = relationships.deep_view().take(at + 1);
            assert(next.drop_last() =~= relationships.deep_view().take(at as int));
            assert(next.last() == relationship.deep_view());
        }
        map.insert(relationship.id.as_str().to_owned(), relationship.copied());
        at += 1;
    }
    assert(relationships.deep_view().take(at as int) =~= relationships.deep_view());
    let ghost own = map.deep_view();
    let mut at: usize = 0;
    while at < links.len()
        invariant
            at <= links.len(),
            map.well_formed(),
            map.deep_view() == with_links(own, links.deep_view().take(at as int)),
        decreases links.len() - at,
    {
        let link = &links[at];
        proof {
            let next = links.deep_view().take(at + 1);
            assert(next.drop_last() =~= links.deep_view().take(at as int));
            assert(next.last() == link.deep_view());
        }
        map.or_insert(link.id.as_str().to_owned(), link.copied());
        at += 1;
    }
    assert(links.deep_view().take(at as int) =~= links.deep_view());
    map.into_values()
}

/// Whether a policy shows a relationship with this resolution.
pub open spec fn is_visible(
    resolution: MemoryResolutionState,
    policy: MemoryContextPolicyView,
) -> bool {
    match resolution {
        MemoryResolutionState::Resolved => true,
        MemoryResolutionState::Stale => policy.include_stale,
        MemoryResolutionState::Unresolved => policy.include_unresolved,
    }
}

/// Whether a policy shows a relationship with this resolution.
pub fn resolution_visible(
    resolution: MemoryResolutionState,
    policy: &MemoryContextPolicy,
) -> (visible: bool)
    ensures
        visible == is_visible(resolution, policy.deep_view()),
{
    match resolution {
        MemoryResolutionState::Resolved => true,
        MemoryResolutionState::Stale => policy.include_stale,
        MemoryResolutionState::Unresolved => policy.include_unresolved,
    }
}

/// Whether a seed names an entity.
pub open spec fn names_entity(seed: MemoryContextSeedView, entity: MemoryEntityView) -> bool {
    match seed {
        MemoryContextSeedView::Entity(id) => entity.id == id,
        MemoryContextSeedView::Milestone(record) => match entity.data {
            MemoryEntityDataView::Milestone { milestone_id, .. } => milestone_id == record,
            MemoryEntityDataView::TaskReference { milestone_id, .. } => {
                milestone_id == Some(record)
            },
            MemoryEntityDataView::FollowUpWork { milestone_id, .. } => milestone_id == Some(record),
            _ => false,
        },
        MemoryContextSeedView::Task(record) => match entity.data {
            MemoryEntityDataView::TaskReference { task_id, .. } => task_id == record,
            MemoryEntityDataView::RunReference { task_id, .. } => task_id == record,
            _ => false,
        },
        MemoryContextSeedView::Run(record) => match entity.data {
            MemoryEntityDataView::RunReference { run_id, .. } => run_id == record,
            _ => false,
        },
        _ => false,
    }
}

/// Whether a seed names what a visible relationship points at.
pub open spec fn names_target(
    seed: MemoryContextSeedView,
    relationship: MemoryRelationshipView,
    policy: MemoryContextPolicyView,
) -> bool {
    is_visible(relationship.provenance.resolution, policy) && match seed {
        MemoryContextSeedView::RepositoryPath(wanted) => match relationship.target {
            MemoryRelationshipTargetView::RepositoryPath { path, .. } => path == wanted,
            _ => false,
        },
        MemoryContextSeedView::RepositorySymbol(wanted) => match relationship.target {
            MemoryRelationshipTargetView::RepositorySymbol { semantic_key, .. } => {
                semantic_key == wanted
            },
            _ => false,
        },
        _ => false,
    }
}

fn is_record<T: Record>(found: &Option<T>, wanted: &T) -> (same: bool)
    ensures
        same == (found.deep_view() == Some(wanted.deep_view())),
{
    match found {
        Some(found) => found.same(wanted),
        None => false,
    }
}

fn seed_names_entity(seed: &MemoryContextSeed, entity: &MemoryEntity) -> (named: bool)
    ensures
        named == names_entity(seed.deep_view(), entity.deep_view()),
{
    match seed {
        MemoryContextSeed::Entity(id) => entity.id.same(id),
        MemoryContextSeed::Milestone(record) => match &entity.data {
            MemoryEntityData::Milestone { milestone_id, .. } => milestone_id.same(record),
            MemoryEntityData::TaskReference { milestone_id, .. } => is_record(milestone_id, record),
            MemoryEntityData::FollowUpWork { milestone_id, .. } => is_record(milestone_id, record),
            _ => false,
        },
        MemoryContextSeed::Task(record) => match &entity.data {
            MemoryEntityData::TaskReference { task_id, .. } => task_id.same(record),
            MemoryEntityData::RunReference { task_id, .. } => task_id.same(record),
            _ => false,
        },
        MemoryContextSeed::Run(record) => match &entity.data {
            MemoryEntityData::RunReference { run_id, .. } => run_id.same(record),
            _ => false,
        },
        _ => false,
    }
}

fn seed_names_target(
    seed: &MemoryContextSeed,
    relationship: &MemoryRelationship,
    policy: &MemoryContextPolicy,
) -> (named: bool)
    ensures
        named == names_target(seed.deep_view(), relationship.deep_view(), policy.deep_view()),
{
    resolution_visible(relationship.provenance.resolution, policy) && match seed {
        MemoryContextSeed::RepositoryPath(wanted) => match &relationship.target {
            MemoryRelationshipTarget::RepositoryPath { path, .. } => path.same(wanted),
            _ => false,
        },
        MemoryContextSeed::RepositorySymbol(wanted) => match &relationship.target {
            MemoryRelationshipTarget::RepositorySymbol { semantic_key, .. } => {
                semantic_key.same(wanted)
            },
            _ => false,
        },
        _ => false,
    }
}

/// The ids of the entities that a seed names.
pub open spec fn named_entities(
    seed: MemoryContextSeedView,
    entities: Seq<MemoryEntityView>,
) -> Seq<Seq<char>>
    decreases entities.len(),
{
    if entities.len() == 0 {
        Seq::empty()
    } else {
        let rest = named_entities(seed, entities.drop_last());
        if names_entity(seed, entities.last()) {
            rest.push(entities.last().id)
        } else {
            rest
        }
    }
}

/// The ids of the sources of those relationships whose target a seed names.
pub open spec fn linked_entities(
    seed: MemoryContextSeedView,
    relationships: Seq<MemoryRelationshipView>,
    policy: MemoryContextPolicyView,
) -> Seq<Seq<char>>
    decreases relationships.len(),
{
    if relationships.len() == 0 {
        Seq::empty()
    } else {
        let rest = linked_entities(seed, relationships.drop_last(), policy);
        if names_target(seed, relationships.last(), policy) {
            rest.push(relationships.last().source)
        } else {
            rest
        }
    }
}

/// The ids at which a seed starts, in order and once each.
pub open spec fn seed_matches(
    seed: MemoryContextSeedView,
    entities: Seq<MemoryEntityView>,
    relationships: Seq<MemoryRelationshipView>,
    policy: MemoryContextPolicyView,
) -> Seq<Seq<char>> {
    in_order(
        (named_entities(seed, entities) + linked_entities(seed, relationships, policy)).to_set(),
    )
}

/// The ids at which a seed starts, in order and once each: those of the entities that it names, or
/// those of the sources of the relationships to the place in the repository that it names.
pub fn matching_seed_entities(
    seed: &MemoryContextSeed,
    entities: &Vec<MemoryEntity>,
    relationships: &Vec<MemoryRelationship>,
    policy: &MemoryContextPolicy,
) -> (ids: Vec<String>)
    ensures
        ids.deep_view() == seed_matches(
            seed.deep_view(),
            entities.deep_view(),
            relationships.deep_view(),
            policy.deep_view(),
        ),
{
    let mut ids: Vec<String> = Vec::new();
    let mut at: usize = 0;
    assert(ids.deep_view() =~= named_entities(seed.deep_view(), entities.deep_view().take(0)));
    while at < entities.len()
        invariant
            at <= entities.len(),
            ids.deep_view() == named_entities(seed.deep_view(), entities.deep_view().take(at as int)),
        decreases entities.len() - at,
    {
        let entity = &entities[at];
        proof {
            let next = entities.deep_view().take(at + 1);
            assert(next.drop_last() =~= entities.deep_view().take(at as int));
            assert(next.last() == entity.deep_view());
        }
        if seed_names_entity(seed, entity) {
            let ghost before = ids.deep_view();
            ids.push(entity.id.as_str().to_owned());
            assert(ids.deep_view() =~= before.push(entity.id.deep_view()));
        }
        at += 1;
    }
    assert(entities.deep_view().take(at as int) =~= entities.deep_view());
    let ghost named = ids.deep_view();
    let mut at: usize = 0;
    assert(ids.deep_view() =~= named + linked_entities(
        seed.deep_view(),
        relationships.deep_view().take(0),
        policy.deep_view(),
    ));
    while at < relationships.len()
        invariant
            at <= relationships.len(),
            ids.deep_view() == named + linked_entities(
                seed.deep_view(),
                relationships.deep_view().take(at as int),
                policy.deep_view(),
            ),
        decreases relationships.len() - at,
    {
        let relationship = &relationships[at];
        proof {
            let next = relationships.deep_view().take(at + 1);
            assert(next.drop_last() =~= relationships.deep_view().take(at as int));
            assert(next.last() == relationship.deep_view());
        }
        if seed_names_target(seed, relationship, policy) {
            let ghost before = ids.deep_view();
            ids.push(relationship.source.as_str().to_owned());
            assert(ids.deep_view() =~= before.push(relationship.source.deep_view()));
            assert(ids.deep_view() =~= named + linked_entities(
                seed.deep_view(),
                relationships.deep_view().take(at + 1),
                policy.deep_view(),
            ));
        }
        at += 1;
    }
    assert(relationships.deep_view().take(at as int) =~= relationships.deep_view());
    sorted_distinct(&ids)
}

/// Why an entity at which a seed starts was selected.
pub open spec fn seed_reason(seed: MemoryContextSeedView) -> Seq<char> {
    match seed {
        MemoryContextSeedView::RepositoryPath(_) => "context.repositorylink"@,
        MemoryContextSeedView::RepositorySymbol(_) => "context.repositorylink"@,
        _ => "context.seed"@,
    }
}

fn reason_of(seed: &MemoryContextSeed) -> (reason: MemoryDiagnosticCode)
    ensures
        reason.deep_view() == seed_reason(seed.deep_view()),
{
    proof {
        reveal_strlit("context.repositorylink");
        reveal_strlit("context.seed");
    }
    match seed {
        MemoryContextSeed::RepositoryPath(_) => diagnostic_code("context.repositorylink"),
        MemoryContextSeed::RepositorySymbol(_) => diagnostic_code("context.repositorylink"),
        _ => diagnostic_code("context.seed"),
    }
}

/// Ids with their reasons, and one reason more for each of some ids.
pub open spec fn with_reason(
    reasons: Map<Seq<char>, Seq<Seq<char>>>,
    ids: Seq<Seq<char>>,
    reason: Seq<char>,
) -> Map<Seq<char>, Seq<Seq<char>>>
    decreases ids.len(),
{
    if ids.len() == 0 {
        reasons
    } else {
        let rest = with_reason(reasons, ids.drop_last(), reason);
        rest.insert(ids.last(), listed(rest, ids.last()).push(reason))
    }
}

/// The ids at which the seeds start, each with its reasons in the order of the seeds.
pub open spec fn seed_reasons(
    seeds: Seq<MemoryContextSeedView>,
    entities: Seq<MemoryEntityView>,
    relationships: Seq<MemoryRelationshipView>,
    policy: MemoryContextPolicyView,
) -> Map<Seq<char>, Seq<Seq<char>>>
    decreases seeds.len(),
{
    if seeds.len() == 0 {
        Map::empty()
    } else {
        with_reason(
            seed_reasons(seeds.drop_last(), entities, relationships, policy),
            seed_matches(seeds.last(), entities, relationships, policy),
            seed_reason(seeds.last()),
        )
    }
}

/// The ids at which the seeds start, each with its reasons in the order of the seeds.
pub fn start_reasons(
    seeds: &Vec<MemoryContextSeed>,
    entities: &Vec<MemoryEntity>,
    relationships: &Vec<MemoryRelationship>,
    policy: &MemoryContextPolicy,
) -> (reasons: OrderedMap<Vec<MemoryDiagnosticCode>>)
    ensures
        reasons.well_formed(),
        reasons.deep_view() == seed_reasons(
            seeds.deep_view(),
            entities.deep_view(),
            relationships.deep_view(),
            policy.deep_view(),
        ),
{
    let mut reasons: OrderedMap<Vec<MemoryDiagnosticCode>> = OrderedMap::new();
    let mut at: usize = 0;
    while at < seeds.len()
        invariant
            at <= seeds.len(),
            reasons.well_formed(),
            reasons.deep_view() == seed_reasons(
                seeds.deep_view().take(at as int),
                entities.deep_view(),
                relationships.deep_view(),
                policy.deep_view(),
            ),
        decreases seeds.len() - at,
    {
        let seed = &seeds[at];
        proof {
            let next = seeds.deep_view().take(at + 1);
            assert(next.drop_last() =~= seeds.deep_view().take(at as int));
            assert(next.last() == seed.deep_view());
        }
        let ids = matching_seed_entities(seed, entities, relationships, policy);
        let reason = reason_of(seed);
        add_reason(&mut reasons, &ids, &reason);
        at += 1;
    }
    assert(seeds.deep_view().take(at as int) =~= seeds.deep_view());
    reasons
}

fn add_reason(
    reasons: &mut OrderedMap<Vec<MemoryDiagnosticCode>>,
    ids: &Vec<String>,
    reason: &MemoryDiagnosticCode,
)
    requires
        old(reasons).well_formed(),
    ensures
        final(reasons).well_formed(),
        final(reasons).deep_view() == with_reason(
            old(reasons).deep_view(),
            ids.deep_view(),
            reason.deep_view(),
        ),
{
    let ghost start = reasons.deep_view();
    let mut at: usize = 0;
    while at < ids.len()
        invariant
            at <= ids.len(),
            reasons.well_formed(),
            reasons.deep_view() == with_reason(
                start,
                ids.deep_view().take(at as int),
                reason.deep_view(),
            ),
        decreases ids.len() - at,
    {
        proof {
            let next = ids.deep_view().take(at + 1);
            assert(next.drop_last() =~= ids.deep_view().take(at as int));
            assert(next.last() == ids@[at as int]@);
        }
        reasons.push(ids[at].clone(), reason.copied());
        at += 1;
    }
    assert(ids.deep_view().take(at as int) =~= ids.deep_view());
}

}
