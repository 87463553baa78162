//! What links carry from one domain to the other, and what the domains say about it.
use vstd::prelude::*;
use crate::budget::EffectiveBudget;
use crate::deadline::{begins, is_up, keeps_time, Deadline};
use crate::domain::{MemoryRelationship, MemoryRelationshipView, MemoryResolutionState};
use crate::federation::asking::{exact_links, links_found, DomainLinks, DomainLinksView};
use crate::federation::fitting::too_late;
use crate::federation::seeds::{
    cross_link_kind_allowed, kind_is_allowed, repository_seed_from_target, repository_seed_matches,
    seed_from_target, seed_meets_target,
};
use crate::federation::state::{
    graph_error, repository_error, selected_for, MAX_FEDERATION_CANDIDATES,
};
use crate::federation::{
    FederatedContextRequest, FederatedContextRequestView, RepositoryContextTarget,
    RepositoryContextTargetView,
};
use crate::ports::{
    BoundedRepositoryLinksView, GraphQuery, LinkSetRequestView, LinksRequestView, MemoryLinkStore,
    MemoryQuery,
};
use crate::query::{
    MemoryContextPolicy, MemoryContextPolicyView, MemoryContextRequestView, MemoryContextResponse,
    MemoryContextResponseView, MemoryContextSeed, MemoryContextSeedView, MemoryFreshnessComparison,
    MemoryFreshnessComparisonView, MemoryQueryError, MemoryQueryErrorView, MemoryQueryScope,
    MemoryQueryScopeView, MemoryRevisionSelector, MemoryRevisionSelectorView, MemoryStatusRequest,
    MemoryStatusRequestView, MemoryStatusResponse, MemoryStatusResponseView,
    MemoryTruncationReason,
};
use crate::record::Record;
use crate::repository::{
    ContextRequestView, ContextResponseView, ContextSeed, ContextSeedView, EdgeDirection,
    QueryErrorCode, QueryScope, QueryScopeView, SnapshotId, StatusResponse, StatusResponseView,
};
use crate::scope::ReadFailure;
use crate::MEMORY_QUERY_WIRE_VERSION;

verus! {

/// Whether a link may be crossed: it leads to what is there, and the policy follows its kind.
pub open spec fn is_crossable(
    relationship: MemoryRelationshipView,
    policy: MemoryContextPolicyView,
) -> bool {
    relationship.provenance.resolution == MemoryResolutionState::Resolved && kind_is_allowed(
        policy,
        relationship,
    )
}

fn crossable(relationship: &MemoryRelationship, policy: &MemoryContextPolicy) -> (crossable: bool)
    ensures
        crossable == is_crossable(relationship.deep_view(), policy.deep_view()),
{
    relationship.provenance.resolution == MemoryResolutionState::Resolved && cross_link_kind_allowed(
        policy,
        relationship,
    )
}

/// The links that lead to a repository seed.
pub open spec fn links_to(
    seed: ContextSeedView,
    links: Seq<MemoryRelationshipView>,
    policy: MemoryContextPolicyView,
    snapshot_id: Option<Seq<char>>,
) -> Seq<MemoryRelationshipView>
    decreases links.len(),
{
    if links.len() == 0 {
        links
    } else {
        let rest = links_to(seed, links.drop_last(), policy, snapshot_id);
        if is_crossable(links.last(), policy) && seed_meets_target(seed, links.last().target, snapshot_id) {
            rest.push(links.last())
        } else {
            rest
        }
    }
}

/// The links that lead to some repository seeds, seed by seed.
pub open spec fn links_to_all(
    seeds: Seq<ContextSeedView>,
    links: Seq<MemoryRelationshipView>,
    policy: MemoryContextPolicyView,
    snapshot_id: Option<Seq<char>>,
) -> Seq<MemoryRelationshipView>
    decreases seeds.len(),
{
    if seeds.len() == 0 {
        Seq::empty()
    } else {
        links_to_all(seeds.drop_last(), links, policy, snapshot_id) + links_to(
            seeds.last(),
            links,
            policy,
            snapshot_id,
        )
    }
}

/// The links over which repository seeds lead into the memory, where the policy goes that way.
pub open spec fn links_in(
    seeds: Seq<ContextSeedView>,
    links: Seq<MemoryRelationshipView>,
    policy: MemoryContextPolicyView,
    snapshot_id: Option<Seq<char>>,
) -> Seq<MemoryRelationshipView> {
    if policy.direction == EdgeDirection::Outgoing {
        Seq::empty()
    } else {
        links_to_all(seeds, links, policy, snapshot_id)
    }
}

/// The memory seeds at the sources of some links.
pub open spec fn sources_of(links: Seq<MemoryRelationshipView>) -> Seq<MemoryContextSeedView> {
    links.map_values(|link: MemoryRelationshipView| MemoryContextSeedView::Entity(link.source))
}

pub(crate) fn cross_in(
    seeds: &Vec<ContextSeed>,
    links: &Vec<MemoryRelationship>,
    policy: &MemoryContextPolicy,
    snapshot_id: &Option<SnapshotId>,
) -> (result: (Vec<MemoryContextSeed>, Vec<MemoryRelationship>))
    ensures
        result.1.deep_view() == links_in(
            seeds.deep_view(),
            links.deep_view(),
            policy.deep_view(),
            snapshot_id.deep_view(),
        ),
        result.0.deep_view() == sources_of(result.1.deep_view()),
{
    let mut crossing: Vec<MemoryContextSeed> = Vec::new();
    let mut crossed: Vec<MemoryRelationship> = Vec::new();
    assert(crossing.deep_view() =~= sources_of(crossed.deep_view()));
    assert(crossed.deep_view() =~= Seq::<MemoryRelationshipView>::empty());
    if policy.direction == EdgeDirection::Outgoing {
        return (crossing, crossed);
    }
    let mut next: usize = 0;
    while next < seeds.len()
        invariant
            next <= seeds.len(),
            crossing.deep_view() == sources_of(crossed.deep_view()),
            crossed.deep_view() == links_to_all(
                seeds.deep_view().take(next as int),
                links.deep_view(),
                policy.deep_view(),
                snapshot_id.deep_view(),
            ),
        decreases seeds.len() - next,
    {
        let seed = &seeds[next];
        let ghost before = crossed.deep_view();
        proof {
            let taken = seeds.deep_view().take(next + 1);
            assert(taken.drop_last() =~= seeds.deep_view().take(next as int));
            assert(taken.last() == seed.deep_view());
        }
        let mut at: usize = 0;
        assert(crossed.deep_view() =~= before + links_to(
            seed.deep_view(),
            links.deep_view().take(0),
            policy.deep_view(),
            snapshot_id.deep_view(),
        ));
        while at < links.len()
            invariant
                at <= links.len(),
                crossing.deep_view() == sources_of(crossed.deep_view()),
                crossed.deep_view() == before + links_to(
                    seed.deep_view(),
                    links.deep_view().take(at as int),
                    policy.deep_view(),
                    snapshot_id.deep_view(),
                ),
            decreases links.len() - at,
        {
            let link = &links[at];
            let ghost held = crossed.deep_view();
            let ghost led = crossing.deep_view();
            proof {
                let taken = links.deep_view().take(at + 1);
                assert(taken.drop_last() =~= links.deep_view().take(at as int));
                assert(taken.last() == link.deep_view());
            }
            if crossable(link, policy) && repository_seed_matches(seed, &link.target, snapshot_id) {
                crossing.push(MemoryContextSeed::Entity(link.source.copied()));
                crossed.push(link.copied());
                assert(crossed.deep_view() =~= held.push(link.deep_view()));
                assert(crossing.deep_view() =~= led.push(
                    MemoryContextSeedView::Entity(link.source.deep_view()),
                ));
                assert(crossing.deep_view() =~= sources_of(crossed.deep_view()));
            }
            assert(crossed.deep_view() =~= before + links_to(
                seed.deep_view(),
                links.deep_view().take(at + 1),
                policy.deep_view(),
                snapshot_id.deep_view(),
            ));
            at += 1;
        }
        assert(links.deep_view().take(at as int) =~= links.deep_view());
        next += 1;
    }
    assert(seeds.deep_view().take(next as int) =~= seeds.deep_view());
    (crossing, crossed)
}

/// Memory answers, each with the number of links that were crossed to get it.
pub type MemoryAnswers = Vec<(MemoryContextResponse, u32)>;

/// Whether an answer holds an entity as a seed.
pub open spec fn holds_seed(response: MemoryContextResponseView, id: Seq<char>) -> bool {
    exists|i: int|
        0 <= i < response.items.len() && (#[trigger] response.items[i]).entity.id == id
            && response.items[i].selection_reasons.contains("context.seed"@)
}

/// Whether one of the answers holds an entity as a seed.
pub open spec fn any_holds_seed(
    responses: Seq<(MemoryContextResponseView, u32)>,
    id: Seq<char>,
) -> bool {
    exists|i: int| 0 <= i < responses.len() && holds_seed((#[trigger] responses[i]).0, id)
}

fn has_seed(response: &MemoryContextResponse, link: &MemoryRelationship) -> (found: bool)
    ensures
        found == holds_seed(response.deep_view(), link.deep_view().source),
{
    let ghost items = response.deep_view().items;
    let mut at: usize = 0;
    while at < response.items.len()
        invariant
            at <= response.items.len(),
            items == response.deep_view().items,
            forall|i: int|
                0 <= i < at ==> (#[trigger] items[i]).entity.id != link.deep_view().source
                    || !items[i].selection_reasons.contains("context.seed"@),
        decreases response.items.len() - at,
    {
        assert(items[at as int] == response.items@[at as int].deep_view());
        if response.items[at].entity.id.same(&link.source) && selected_for(
            &response.items[at].selection_reasons,
            "context.seed",
        ) {
            return true;
        }
        at += 1;
    }
    false
}

fn any_has_seed(responses: &MemoryAnswers, link: &MemoryRelationship) -> (found: bool)
    ensures
        found == any_holds_seed(responses.deep_view(), link.deep_view().source),
{
    let ghost models = responses.deep_view();
    let mut at: usize = 0;
    while at < responses.len()
        invariant
            at <= responses.len(),
            models == responses.deep_view(),
            forall|i: int| 0 <= i < at ==> !holds_seed((#[trigger] models[i]).0, link.deep_view().source),
        decreases responses.len() - at,
    {
        assert(models[at as int] == responses@[at as int].deep_view());
        if has_seed(&responses[at].0, link) {
            return true;
        }
        at += 1;
    }
    false
}

/// The links over which the memory seeds lead into the repository, and where they lead.
pub open spec fn ways_out(
    responses: Seq<(MemoryContextResponseView, u32)>,
    links: Seq<MemoryRelationshipView>,
    policy: MemoryContextPolicyView,
    snapshot_id: Option<Seq<char>>,
) -> Seq<(ContextSeedView, MemoryRelationshipView)>
    decreases links.len(),
{
    if links.len() == 0 || policy.direction == EdgeDirection::Incoming {
        Seq::empty()
    } else {
        let rest = ways_out(responses, links.drop_last(), policy, snapshot_id);
        if is_crossable(links.last(), policy) && any_holds_seed(responses, links.last().source) {
            match seed_from_target(links.last().target, snapshot_id) {
                Some(seed) => rest.push((seed, links.last())),
                None => rest,
            }
        } else {
            rest
        }
    }
}

/// Where some ways lead.
pub open spec fn ends_of(
    ways: Seq<(ContextSeedView, MemoryRelationshipView)>,
) -> Seq<ContextSeedView> {
    ways.map_values(|way: (ContextSeedView, MemoryRelationshipView)| way.0)
}

/// The links of some ways.
pub open spec fn links_of(ways: Seq<(ContextSeedView, MemoryRelationshipView)>) -> Seq<
    MemoryRelationshipView,
> {
    ways.map_values(|way: (ContextSeedView, MemoryRelationshipView)| way.1)
}

pub(crate) fn cross_out(
    responses: &MemoryAnswers,
    links: &Vec<MemoryRelationship>,
    policy: &MemoryContextPolicy,
    snapshot_id: &Option<SnapshotId>,
) -> (result: (Vec<ContextSeed>, Vec<MemoryRelationship>))
    ensures
        ({
            let ways = ways_out(
                responses.deep_view(),
                links.deep_view(),
                policy.deep_view(),
                snapshot_id.deep_view(),
            );
            &&& result.0.deep_view() == ends_of(ways)
            &&& result.1.deep_view() == links_of(ways)
        }),
{
    let ghost mut ways: Seq<(ContextSeedView, MemoryRelationshipView)> = Seq::empty();
    let mut ends: Vec<ContextSeed> = Vec::new();
    let mut crossed: Vec<MemoryRelationship> = Vec::new();
    let mut at: usize = 0;
    assert(ends.deep_view() =~= ends_of(ways));
    assert(crossed.deep_view() =~= links_of(ways));
    if policy.direction == EdgeDirection::Incoming {
        return (ends, crossed);
    }
    while at < links.len()
        invariant
            at <= links.len(),
            policy.direction != EdgeDirection::Incoming,
            ways == ways_out(
                responses.deep_view(),
                links.deep_view().take(at as int),
                policy.deep_view(),
                snapshot_id.deep_view(),
            ),
            ends.deep_view() == ends_of(ways),
            crossed.deep_view() == links_of(ways),
        decreases links.len() - at,
    {
        let link = &links[at];
        proof {
            let taken = links.deep_view().take(at + 1);
            assert(taken.drop_last() =~= links.deep_view().take(at as int));
            assert(taken.last() == link.deep_view());
        }
        if crossable(link, policy) && any_has_seed(responses, link) {
            if let Some(seed) = repository_seed_from_target(&link.target, snapshot_id) {
                let ghost ended = ends.deep_view();
                let ghost held = crossed.deep_view();
                let ghost way = (seed.deep_view(), link.deep_view());
                ends.push(seed);
                crossed.push(link.copied());
                assert(ends.deep_view() =~= ended.push(way.0));
                assert(crossed.deep_view() =~= held.push(way.1));
                proof {
                    ways = ways.push(way);
                }
                assert(ends.deep_view() =~= ends_of(ways));
                assert(crossed.deep_view() =~= links_of(ways));
            }
        }
        at += 1;
    }
    assert(links.deep_view().take(at as int) =~= links.deep_view());
    (ends, crossed)
}

/// Only resolved links of a kind that the policy follows are crossed, and only from a seed.
pub proof fn ways_out_start_at_seeds(
    responses: Seq<(MemoryContextResponseView, u32)>,
    links: Seq<MemoryRelationshipView>,
    policy: MemoryContextPolicyView,
    snapshot_id: Option<Seq<char>>,
)
    ensures
        forall|i: int|
            0 <= i < ways_out(responses, links, policy, snapshot_id).len() ==> {
                let way = #[trigger] ways_out(responses, links, policy, snapshot_id)[i];
                &&& links.contains(way.1)
                &&& is_crossable(way.1, policy)
                &&& any_holds_seed(responses, way.1.source)
                &&& seed_meets_target(way.0, way.1.target, snapshot_id)
            },
    decreases links.len(),
{
    if links.len() > 0 && policy.direction != EdgeDirection::Incoming {
        let rest = ways_out(responses, links.drop_last(), policy, snapshot_id);
        let ways = ways_out(responses, links, policy, snapshot_id);
        ways_out_start_at_seeds(responses, links.drop_last(), policy, snapshot_id);
        crate::federation::seeds::links_lead_both_ways(links.last().target, snapshot_id);
        assert forall|i: int| 0 <= i < ways.len() implies {
            let way = #[trigger] ways[i];
            &&& links.contains(way.1)
            &&& is_crossable(way.1, policy)
            &&& any_holds_seed(responses, way.1.source)
            &&& seed_meets_target(way.0, way.1.target, snapshot_id)
        } by {
            if i < rest.len() {
                assert(ways[i] == rest[i]);
                let j = choose|j: int| 0 <= j < links.drop_last().len() && links.drop_last()[j] == rest[i].1;
                assert(links[j] == rest[i].1);
            } else {
                assert(links[links.len() - 1] == ways[i].1);
            }
        }
    }
}

/// All that the domains said to a question for context.
pub struct Said {
    pub repository_statuses: Seq<(QueryScopeView, Result<StatusResponseView, QueryErrorCode>)>,
    pub repository_contexts: Seq<(ContextRequestView, Result<ContextResponseView, QueryErrorCode>)>,
    pub memory_statuses: Seq<
        (MemoryStatusRequestView, Result<MemoryStatusResponseView, MemoryQueryErrorView>),
    >,
    pub memory_contexts: Seq<
        (MemoryContextRequestView, Result<MemoryContextResponseView, MemoryQueryErrorView>),
    >,
    pub link_sets: Seq<
        (
            LinkSetRequestView,
            Result<Option<crate::domain::MemoryRepositoryLinkSetView>, ReadFailure>,
        ),
    >,
    pub links: Seq<(LinksRequestView, Result<BoundedRepositoryLinksView, ReadFailure>)>,
}

/// All that the domains said so far.
pub open spec fn said<R: GraphQuery, M: MemoryQuery, L: MemoryLinkStore>(
    repository: R,
    memory: M,
    links: L,
) -> Said {
    Said {
        repository_statuses: repository.statuses(),
        repository_contexts: repository.contexts(),
        memory_statuses: memory.statuses(),
        memory_contexts: memory.contexts(),
        link_sets: links.set_reads(),
        links: links.link_reads(),
    }
}

/// Whether the domains said this first.
pub open spec fn said_first(first: Said, all: Said) -> bool {
    &&& begins(first.repository_statuses, all.repository_statuses)
    &&& begins(first.repository_contexts, all.repository_contexts)
    &&& begins(first.memory_statuses, all.memory_statuses)
    &&& begins(first.memory_contexts, all.memory_contexts)
    &&& begins(first.link_sets, all.link_sets)
    &&& begins(first.links, all.links)
}

/// What is known of both domains before they are asked for context: their states, and the links
/// between them.
pub struct BothKnown {
    pub repository: StatusResponseView,
    pub memory: MemoryStatusResponseView,
    pub links: DomainLinksView,
    pub at: int,
}

/// What is known of both domains before they are asked for context. A memory without a revision has
/// none to give.
#[verifier::opaque]
pub open spec fn both_known(
    budget: EffectiveBudget,
    all: Said,
    from: Said,
    answers: Seq<u64>,
    at: int,
) -> Result<BothKnown, MemoryQueryErrorView> {
    if is_up(answers[at]) {
        Err(too_late())
    } else {
        match all.repository_statuses[from.repository_statuses.len() as int].1 {
            Err(code) => Err(repository_error(code)),
            Ok(repository) => if is_up(answers[at + 1]) {
                Err(too_late())
            } else {
                match all.memory_statuses[from.memory_statuses.len() as int].1 {
                    Err(error) => Err(error),
                    Ok(memory) => match memory.revision_id {
                        None => Err(MemoryQueryErrorView::Unavailable),
                        Some(revision_id) => if is_up(answers[at + 2]) {
                            Err(too_late())
                        } else {
                            match links_found(
                                revision_id,
                                memory.data.build_id,
                                budget.max_diagnostics,
                                all.link_sets[from.link_sets.len() as int].1,
                                all.links[from.links.len() as int].1,
                            ) {
                                Err(error) => Err(error),
                                Ok(links) => if is_up(answers[at + 3]) {
                                    Err(too_late())
                                } else {
                                    Ok(BothKnown { repository, memory, links, at: at + 4 })
                                },
                            }
                        },
                    },
                }
            },
        }
    }
}

/// What is known of both domains.
pub struct Known {
    pub repository: StatusResponse,
    pub memory: MemoryStatusResponse,
    pub links: DomainLinks,
}

/// What learning came to.
pub open spec fn known(
    result: Result<Known, MemoryQueryError>,
    at: int,
) -> Result<BothKnown, MemoryQueryErrorView> {
    match result {
        Ok(known) => Ok(
            BothKnown {
                repository: known.repository.deep_view(),
                memory: known.memory.deep_view(),
                links: known.links.deep_view(),
                at,
            },
        ),
        Err(error) => Err(error.deep_view()),
    }
}

/// What is asked of the repository for its state.
pub open spec fn repository_status_scope(
    target: RepositoryContextTargetView,
    budget: EffectiveBudget,
) -> QueryScopeView {
    QueryScopeView {
        repository: target.repository,
        snapshot: target.snapshot,
        budget: budget.for_repository(),
    }
}

/// What is asked of the memory for its state.
pub open spec fn memory_status_request(
    request: FederatedContextRequestView,
    selector: MemoryRevisionSelectorView,
    budget: EffectiveBudget,
    freshness: Option<MemoryFreshnessComparisonView>,
) -> MemoryStatusRequestView {
    MemoryStatusRequestView {
        scope: MemoryQueryScopeView {
            wire_version: MEMORY_QUERY_WIRE_VERSION,
            project: request.scope.project,
            revision: selector,
            budget: budget.for_memory(),
            freshness_comparison: freshness,
        },
    }
}

/// Whether the repository was asked for this state from some question on, once at most.
pub open spec fn status_scopes_are(
    log: Seq<(QueryScopeView, Result<StatusResponseView, QueryErrorCode>)>,
    from: int,
    scope: QueryScopeView,
) -> bool {
    &&& log.len() <= from + 1
    &&& log.len() > from ==> log[from].0 == scope
}

/// Whether the memory was asked for this state from some question on, once at most.
pub open spec fn status_requests_are(
    log: Seq<(MemoryStatusRequestView, Result<MemoryStatusResponseView, MemoryQueryErrorView>)>,
    from: int,
    request: MemoryStatusRequestView,
) -> bool {
    &&& log.len() <= from + 1
    &&& log.len() > from ==> log[from].0 == request
}

/// Whether the links between the domains were asked for exactly: those of the set that the memory's
/// revision has for the repository's snapshot, once, in the time that was left then.
pub open spec fn links_asked(
    target: RepositoryContextTargetView,
    budget: EffectiveBudget,
    all: Said,
    from: Said,
    left_ms: u64,
) -> bool {
    let set_at = from.link_sets.len() as int;
    let links_at = from.links.len() as int;
    let repository = all.repository_statuses[from.repository_statuses.len() as int].1;
    let memory = all.memory_statuses[from.memory_statuses.len() as int].1;
    &&& all.link_sets.len() <= set_at + 1
    &&& all.links.len() <= links_at + 1
    &&& all.link_sets.len() > set_at ==> repository is Ok && memory is Ok
        && memory->Ok_0.revision_id is Some && all.link_sets[set_at].0 == (LinkSetRequestView {
        revision_id: memory->Ok_0.revision_id->0,
        repository: target.repository,
        snapshot_id: repository->Ok_0.snapshot_id,
    })
    &&& all.links.len() > links_at ==> all.link_sets.len() > set_at && all.link_sets[set_at].1 is Ok
        && all.link_sets[set_at].1->Ok_0 is Some && all.links[links_at].0 == (LinksRequestView {
        link_set_id: all.link_sets[set_at].1->Ok_0->0.id,
        max_links: MAX_FEDERATION_CANDIDATES as u32,
        max_diagnostics: budget.max_diagnostics,
        max_duration_ms: budget.within(left_ms).max_duration_ms,
    })
}

/// The links between the domains, as the link store gave them.
pub open spec fn links_said(all: Said, from: Said) -> Seq<MemoryRelationshipView> {
    match all.link_sets[from.link_sets.len() as int].1 {
        Ok(Some(_)) => match all.links[from.links.len() as int].1 {
            Ok(links) => links.relationships,
            Err(_) => Seq::empty(),
        },
        _ => Seq::empty(),
    }
}

/// The snapshot that the repository said it is asked about.
pub open spec fn snapshot_said(all: Said, from: Said) -> Option<Seq<char>> {
    match all.repository_statuses[from.repository_statuses.len() as int].1 {
        Ok(repository) => repository.snapshot_id,
        Err(_) => None,
    }
}

/// Learns what has to be known of both domains before they are asked for context.
pub fn learn<R: GraphQuery, M: MemoryQuery, L: MemoryLinkStore, D: Deadline>(
    repository: &mut R,
    memory: &mut M,
    links: &mut L,
    request: &FederatedContextRequest,
    target: &RepositoryContextTarget,
    selector: &MemoryRevisionSelector,
    budget: EffectiveBudget,
    freshness: &Option<MemoryFreshnessComparison>,
    deadline: &mut D,
) -> (result: Result<Known, MemoryQueryError>)
    ensures
        begins(old(deadline).answers(), final(deadline).answers()),
        keeps_time(*old(deadline), *final(deadline)),
        said_first(
            said(*old(repository), *old(memory), *old(links)),
            said(*final(repository), *final(memory), *final(links)),
        ),
        final(repository).contexts() == old(repository).contexts(),
        final(memory).contexts() == old(memory).contexts(),
        final(repository).searches() == old(repository).searches(),
        final(memory).searches() == old(memory).searches(),
        forall|all: Seq<u64>| #[trigger]
            begins(final(deadline).answers(), all) ==> {
                let at = old(deadline).answers().len() as int;
                &&& links_asked(
                    target.deep_view(),
                    budget,
                    said(*final(repository), *final(memory), *final(links)),
                    said(*old(repository), *old(memory), *old(links)),
                    all[at + 2],
                )
                &&& status_scopes_are(
                    final(repository).statuses(),
                    old(repository).statuses().len() as int,
                    repository_status_scope(target.deep_view(), budget.within(all[at])),
                )
                &&& status_requests_are(
                    final(memory).statuses(),
                    old(memory).statuses().len() as int,
                    memory_status_request(
                        request.deep_view(),
                        selector.deep_view(),
                        budget.within(all[at + 1]),
                        freshness.deep_view(),
                    ),
                )
            },
        result is Ok ==> final(deadline).answers().len() == old(deadline).answers().len() + 4,
        result matches Ok(known) ==> {
            let all = said(*final(repository), *final(memory), *final(links));
            let from = said(*old(repository), *old(memory), *old(links));
            &&& links_said(all, from) == known.links.relationships.deep_view()
            &&& snapshot_said(all, from) == known.repository.snapshot_id.deep_view()
            &&& all.link_sets.len() > from.link_sets.len()
            &&& all.repository_statuses.len() > from.repository_statuses.len()
        },
        forall|all: Seq<u64>, later: Said|
            begins(final(deadline).answers(), all) && said_first(
                said(*final(repository), *final(memory), *final(links)),
                later,
            ) ==> #[trigger] both_known(
                budget,
                later,
                said(*old(repository), *old(memory), *old(links)),
                all,
                old(deadline).answers().len() as int,
            ) == known(result, final(deadline).answers().len() as int),
{
    proof {
        reveal(both_known);
    }
    let rest = match budget.remaining(deadline.remaining_ms()) {
        Ok(rest) => rest,
        Err(error) => {
            return Err(error);
        },
    };
    let scope = QueryScope {
        repository: target.repository.copied(),
        snapshot: target.snapshot.copied(),
        budget: rest.repository_budget(),
    };
    let repository_status = match repository.status(&scope) {
        Ok(status) => status,
        Err(code) => {
            return Err(graph_error(code));
        },
    };
    let rest = match budget.remaining(deadline.remaining_ms()) {
        Ok(rest) => rest,
        Err(error) => {
            return Err(error);
        },
    };
    let mut scope = MemoryQueryScope::current(
        request.scope.project.copied(),
        selector.copied(),
        rest.memory_budget(),
    );
    scope.freshness_comparison = freshness.copied();
    let memory_status = match memory.status(&MemoryStatusRequest { scope }) {
        Ok(status) => status,
        Err(error) => {
            return Err(error);
        },
    };
    let revision_id = match &memory_status.revision_id {
        Some(revision_id) => revision_id,
        None => {
            return Err(MemoryQueryError::Unavailable);
        },
    };
    let rest = match budget.remaining(deadline.remaining_ms()) {
        Ok(rest) => rest,
        Err(error) => {
            return Err(error);
        },
    };
    let found = match exact_links(
        links,
        revision_id,
        &memory_status.data.build_id,
        target,
        &repository_status.snapshot_id,
        rest.max_duration_ms,
        budget.max_diagnostics,
    ) {
        Ok(found) => found,
        Err(error) => {
            return Err(error);
        },
    };
    if deadline.expired() {
        return Err(MemoryQueryError::BudgetExceeded(MemoryTruncationReason::Duration));
    }
    Ok(Known { repository: repository_status, memory: memory_status, links: found })
}

}
