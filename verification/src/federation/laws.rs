//! What holds of every answer about memory and repository together.
use vstd::prelude::*;
use crate::deadline::is_up;
use crate::budget::{effective, saturated, EffectiveBudget};
use crate::cursor::{federation_cursor, FederationCursorPayloadView};
use crate::domain::{MemoryRelationship, MemoryRelationshipView};
use crate::federation::bounds::{kept, kept_records_fit};
use crate::federation::collecting::{
    both_domains, context_findings, memory_alone, repository_alone, ContextFindingsView,
};
use crate::federation::context::{
    all_items, answered_relationships, context_found, federated_context_answer, item_size,
    items_page, memory_items, reason_before, repository_items, returns_entity, starting,
    supplements, touching,
};
use crate::federation::crossing::{
    is_crossable, links_in, links_of, links_to, links_to_all, ways_out, Said,
};
use crate::federation::fitting::{fitted_search_fits, search_size, PagePlaceView};
use crate::federation::search::{
    federated_search_answer, findings, memory_findings, pending, pending_offset,
    repository_findings, search_found, taken, wanted, DomainFindings,
};
use crate::federation::state::{
    context_identity, result_key, revisions_key, search_identity, MAX_FEDERATION_CANDIDATES,
};
use crate::federation::{
    ContextDomain, FederatedContextItem, FederatedContextItemView, FederatedContextRequestView,
    FederatedContextResponseView, FederatedPageInfoView,
    FederatedSearchRequestView, FederatedSearchResponseView, FederatedSearchResult,
    FederatedSearchResultView, FederatedTargetView,
};
use crate::query::{
    MemoryContextPolicyView, MemoryContextResponseView, MemoryQueryErrorView,
    MemorySearchRequestView, MemorySearchResponseView, MemoryTruncationReason,
};
use crate::repository::{
    ContextSeedView, QueryErrorCode, QueryLimitsConfigView, SearchRequestView, SearchResponseView,
};
use crate::sort::{
    deduplicated, distinct_keys, is_keyed, is_sorted, key_lt, key_order_is_total, sorted,
    sorting_orders_and_keeps, Identified, Sortable,
};
use crate::FEDERATION_WIRE_VERSION;

verus! {

/// Whether all links may be crossed.
pub open spec fn all_crossable(
    links: Seq<MemoryRelationshipView>,
    policy: MemoryContextPolicyView,
) -> bool {
    forall|i: int| 0 <= i < links.len() ==> is_crossable(#[trigger] links[i], policy)
}

proof fn links_to_are_crossable(
    seed: ContextSeedView,
    links: Seq<MemoryRelationshipView>,
    policy: MemoryContextPolicyView,
    snapshot_id: Option<Seq<char>>,
)
    ensures
        all_crossable(links_to(seed, links, policy, snapshot_id), policy),
    decreases links.len(),
{
    if links.len() > 0 {
        links_to_are_crossable(seed, links.drop_last(), policy, snapshot_id);
    }
}

proof fn links_in_are_crossable(
    seeds: Seq<ContextSeedView>,
    links: Seq<MemoryRelationshipView>,
    policy: MemoryContextPolicyView,
    snapshot_id: Option<Seq<char>>,
)
    ensures
        all_crossable(links_to_all(seeds, links, policy, snapshot_id), policy),
    decreases seeds.len(),
{
    if seeds.len() > 0 {
        links_in_are_crossable(seeds.drop_last(), links, policy, snapshot_id);
        links_to_are_crossable(seeds.last(), links, policy, snapshot_id);
    }
}

proof fn ways_out_are_crossable(
    responses: Seq<(MemoryContextResponseView, u32)>,
    links: Seq<MemoryRelationshipView>,
    policy: MemoryContextPolicyView,
    snapshot_id: Option<Seq<char>>,
)
    ensures
        all_crossable(links_of(ways_out(responses, links, policy, snapshot_id)), policy),
    decreases links.len(),
{
    if links.len() > 0 {
        ways_out_are_crossable(responses, links.drop_last(), policy, snapshot_id);
        let rest = ways_out(responses, links.drop_last(), policy, snapshot_id);
        let ways = ways_out(responses, links, policy, snapshot_id);
        assert forall|i: int| 0 <= i < links_of(ways).len() implies is_crossable(
            #[trigger] links_of(ways)[i],
            policy,
        ) by {
            if i < rest.len() {
                assert(links_of(ways)[i] == links_of(rest)[i]);
            }
        }
    }
}

/// What is left of some records is among them.
pub proof fn distinct_records_are_among_all<T: Sortable>(models: Seq<T::V>)
    ensures
        forall|i: int|
            0 <= i < distinct_keys::<T>(models).len() ==> models.contains(
                #[trigger] distinct_keys::<T>(models)[i],
            ),
    decreases models.len(),
{
    if models.len() > 0 {
        let before = models.drop_last();
        distinct_records_are_among_all::<T>(before);
        assert forall|i: int| 0 <= i < distinct_keys::<T>(models).len() implies models.contains(
            #[trigger] distinct_keys::<T>(models)[i],
        ) by {
            let record = distinct_keys::<T>(models)[i];
            if i < distinct_keys::<T>(before).len() {
                assert(record == distinct_keys::<T>(before)[i]);
                let j = choose|j: int| 0 <= j < before.len() && before[j] == record;
                assert(models[j] == record);
            } else {
                assert(models[models.len() - 1] == record);
            }
        }
    }
}

proof fn ordering_keeps_crossable(
    links: Seq<MemoryRelationshipView>,
    policy: MemoryContextPolicyView,
)
    requires
        all_crossable(links, policy),
    ensures
        all_crossable(
            distinct_keys::<MemoryRelationship>(sorted::<MemoryRelationship>(links)),
            policy,
        ),
{
    let ordered = sorted::<MemoryRelationship>(links);
    sorting_orders_and_keeps::<MemoryRelationship>(links);
    distinct_records_are_among_all::<MemoryRelationship>(ordered);
    let distinct = distinct_keys::<MemoryRelationship>(ordered);
    assert forall|i: int|
        0 <= i < distinct.len() implies is_crossable(#[trigger] distinct[i], policy) by {
        assert(ordered.contains(distinct[i]));
        ordered.to_multiset_ensures();
        links.to_multiset_ensures();
        assert(ordered.to_multiset().contains(distinct[i]));
        assert(links.contains(distinct[i]));
    }
}

/// Whatever the domains say, only resolved links of kinds that the policy follows are crossed.
pub proof fn only_resolved_links_are_crossed(
    request: FederatedContextRequestView,
    budget: EffectiveBudget,
    desired: int,
    all: Said,
    from: Said,
    answers: Seq<u64>,
    at: int,
)
    ensures
        context_findings(request, budget, desired, all, from, answers, at) matches Ok((findings, _))
            ==> all_crossable(findings.links, request.memory_policy),
{
    reveal(repository_alone);
    reveal(memory_alone);
    reveal(both_domains);
    let policy = request.memory_policy;
    assert forall|
        seeds: Seq<ContextSeedView>,
        links: Seq<MemoryRelationshipView>,
        snapshot_id: Option<Seq<char>>,
        responses: Seq<(MemoryContextResponseView, u32)>,
    | all_crossable(
        #[trigger] distinct_keys::<MemoryRelationship>(
            sorted::<MemoryRelationship>(
                links_in(seeds, links, policy, snapshot_id) + links_of(
                    ways_out(responses, links, policy, snapshot_id),
                ),
            ),
        ),
        policy,
    ) by {
        links_in_are_crossable(seeds, links, policy, snapshot_id);
        ways_out_are_crossable(responses, links, policy, snapshot_id);
        ordering_keeps_crossable(
            links_in(seeds, links, policy, snapshot_id) + links_of(
                ways_out(responses, links, policy, snapshot_id),
            ),
            policy,
        );
    }
}

proof fn starting_links_start_there(
    links: Seq<MemoryRelationshipView>,
    items: Seq<FederatedContextItemView>,
    policy: MemoryContextPolicyView,
)
    requires
        all_crossable(links, policy),
    ensures
        all_crossable(starting(links, items), policy),
        forall|i: int|
            0 <= i < starting(links, items).len() ==> returns_entity(
                items,
                (#[trigger] starting(links, items)[i]).source,
            ),
    decreases links.len(),
{
    if links.len() > 0 {
        starting_links_start_there(links.drop_last(), items, policy);
    }
}

/// Every link in an answer is resolved, is of a kind that the policy follows, and starts at an entity
/// that the answer returns; and the answer tells of the repository exactly where the repository was
/// asked, and of the memory exactly where the memory was.
pub proof fn answers_cross_only_resolved_links(
    request: FederatedContextRequestView,
    limits: QueryLimitsConfigView,
    all: Said,
    from: Said,
    answers: Seq<u64>,
    at: int,
)
    ensures
        federated_context_answer(request, limits, all, from, answers, at) matches Ok(response) ==> {
            &&& all_crossable(response.cross_domain_links, request.memory_policy)
            &&& forall|i: int|
                0 <= i < response.cross_domain_links.len() ==> returns_entity(
                    response.items,
                    (#[trigger] response.cross_domain_links[i]).source,
                )
            &&& response.requested_domain == request.scope.target.domain()
            &&& response.repository is Some == (response.requested_domain != ContextDomain::Memory)
            &&& response.memory is Some == (response.requested_domain != ContextDomain::Repository)
        },
{
    let budget = effective(request.scope.budget, limits);
    let fingerprint = context_identity(request);
    if let Ok(payload) = pending(request.cursor, "context"@, fingerprint) {
        let desired = wanted(pending_offset(payload), budget.max_results);
        findings_tell_of_their_domains(request, budget, desired, all, from, answers, at);
        only_resolved_links_are_crossed(request, budget, desired, all, from, answers, at);
        if let Ok((findings, collected_at)) = context_findings(
            request,
            budget,
            desired,
            all,
            from,
            answers,
            at,
        ) {
            answer_keeps_to_findings(
                request,
                budget,
                findings,
                payload,
                fingerprint,
                answers,
                collected_at,
            );
        }
    }
}

proof fn findings_tell_of_their_domains(
    request: FederatedContextRequestView,
    budget: EffectiveBudget,
    desired: int,
    all: Said,
    from: Said,
    answers: Seq<u64>,
    at: int,
)
    ensures
        context_findings(request, budget, desired, all, from, answers, at) matches Ok((findings, _))
            ==> findings.repository_state is Some == (request.scope.target.domain()
            != ContextDomain::Memory) && findings.memory_state is Some == (
        request.scope.target.domain() != ContextDomain::Repository),
{
    reveal(repository_alone);
    reveal(memory_alone);
    reveal(both_domains);
}

proof fn answer_keeps_to_findings(
    request: FederatedContextRequestView,
    budget: EffectiveBudget,
    findings: ContextFindingsView,
    payload: Option<FederationCursorPayloadView>,
    fingerprint: Seq<char>,
    answers: Seq<u64>,
    at: int,
)
    requires
        all_crossable(findings.links, request.memory_policy),
    ensures
        context_found(request, budget, findings, payload, fingerprint, answers, at) matches Ok(response)
            ==> {
            &&& all_crossable(response.cross_domain_links, request.memory_policy)
            &&& forall|i: int|
                0 <= i < response.cross_domain_links.len() ==> returns_entity(
                    response.items,
                    (#[trigger] response.cross_domain_links[i]).source,
                )
            &&& response.requested_domain == request.scope.target.domain()
            &&& response.repository == findings.repository_state
            &&& response.memory == findings.memory_state
        },
{
    reveal(context_found);
    if let Ok(response) = context_found(
        request,
        budget,
        findings,
        payload,
        fingerprint,
        answers,
        at,
    ) {
        let offset = pending_offset(payload);
        let rest = all_items(findings).skip(offset as int);
        let page = items_page(
            rest,
            0,
            0,
            reason_before(findings, wanted(offset, budget.max_results)),
            budget,
            answers,
            at,
        )->0;
        supplemented_links_start_there(
            findings,
            response.items,
            budget,
            (budget.max_bytes - page.bytes) as u64,
            request.memory_policy,
        );
    }
}

proof fn supplemented_links_start_there(
    findings: ContextFindingsView,
    items: Seq<FederatedContextItemView>,
    budget: EffectiveBudget,
    room: u64,
    policy: MemoryContextPolicyView,
)
    requires
        all_crossable(findings.links, policy),
    ensures
        all_crossable(supplements(findings, items, budget, room).links, policy),
        forall|i: int|
            0 <= i < supplements(findings, items, budget, room).links.len() ==> returns_entity(
                items,
                (#[trigger] supplements(findings, items, budget, room).links[i]).source,
            ),
{
    reveal(supplements);
    let links = starting(findings.links, items);
    starting_links_start_there(findings.links, items, policy);
    let relationships = distinct_keys::<MemoryRelationship>(
        sorted::<MemoryRelationship>(touching(answered_relationships(findings.memory), items)),
    );
    let (_, left) = kept::<MemoryRelationship>(relationships, 0, budget.max_results as int, room);
    kept_records_fit::<MemoryRelationship>(links, 0, budget.max_results as int, left);
    let (second, _) = kept::<MemoryRelationship>(links, 0, budget.max_results as int, left);
    assert(supplements(findings, items, budget, room).links == links.take(second));
    assert forall|i: int| 0 <= i < links.take(second).len() implies is_crossable(
        #[trigger] links.take(second)[i],
        policy,
    ) && returns_entity(items, links.take(second)[i].source) by {
        assert(links.take(second)[i] == links[i]);
    }
}

/// Whether a result comes from a domain that was asked.
pub open spec fn is_result_of(result: FederatedSearchResultView, domain: ContextDomain) -> bool {
    match result {
        FederatedSearchResultView::Repository(_) => domain != ContextDomain::Memory,
        FederatedSearchResultView::Memory(_) => domain != ContextDomain::Repository,
    }
}

/// Whether all results come from domains that were asked.
pub open spec fn are_results_of(
    results: Seq<FederatedSearchResultView>,
    domain: ContextDomain,
) -> bool {
    forall|i: int| 0 <= i < results.len() ==> is_result_of(#[trigger] results[i], domain)
}

proof fn findings_stay_in_their_domain(
    target: FederatedTargetView,
    repository: Seq<(SearchRequestView, Result<SearchResponseView, QueryErrorCode>)>,
    repository_from: int,
    memory: Seq<(MemorySearchRequestView, Result<MemorySearchResponseView, MemoryQueryErrorView>)>,
    memory_from: int,
    desired: int,
    answers: Seq<u64>,
    at: int,
)
    ensures
        findings(
            target,
            repository,
            repository_from,
            memory,
            memory_from,
            desired,
            answers,
            at,
        ) matches Ok(found) ==> are_results_of(found.results, target.domain()) && (target.domain()
            == ContextDomain::Memory ==> found.repository is None) && (target.domain()
            == ContextDomain::Repository ==> found.memory is None),
{
    reveal(findings);
    reveal(repository_findings);
    reveal(memory_findings);
}

proof fn ordering_keeps_domain(results: Seq<FederatedSearchResultView>, domain: ContextDomain)
    requires
        are_results_of(results, domain),
    ensures
        are_results_of(
            deduplicated::<FederatedSearchResult>(sorted::<FederatedSearchResult>(results)),
            domain,
        ),
{
    let ordered = sorted::<FederatedSearchResult>(results);
    sorting_orders_and_keeps::<FederatedSearchResult>(results);
    ordered.to_multiset_ensures();
    results.to_multiset_ensures();
    assert forall|i: int|
        0 <= i < ordered.len() implies is_result_of(#[trigger] ordered[i], domain) by {
        assert(ordered.to_multiset().contains(ordered[i]));
        assert(results.contains(ordered[i]));
    }
    dropping_keeps_domain(ordered, domain);
}

proof fn dropping_keeps_domain(results: Seq<FederatedSearchResultView>, domain: ContextDomain)
    requires
        are_results_of(results, domain),
    ensures
        are_results_of(deduplicated::<FederatedSearchResult>(results), domain),
    decreases results.len(),
{
    if results.len() > 0 {
        dropping_keeps_domain(results.drop_last(), domain);
    }
}

/// A search never leaves the domains that were asked: every result comes from one of them, and an
/// answer tells nothing of the other. The whole answer is no larger than it may be, and states its own
/// size where it states one.
pub proof fn searches_stay_in_their_domain(
    request: FederatedSearchRequestView,
    limits: QueryLimitsConfigView,
    repository: Seq<(SearchRequestView, Result<SearchResponseView, QueryErrorCode>)>,
    repository_from: int,
    memory: Seq<(MemorySearchRequestView, Result<MemorySearchResponseView, MemoryQueryErrorView>)>,
    memory_from: int,
    answers: Seq<u64>,
    at: int,
)
    ensures
        federated_search_answer(
            request,
            limits,
            repository,
            repository_from,
            memory,
            memory_from,
            answers,
            at,
        ) matches Ok(response) ==> {
            &&& response.requested_domain == request.scope.target.domain()
            &&& are_results_of(response.results, response.requested_domain)
            &&& response.requested_domain == ContextDomain::Memory ==> response.repository is None
            &&& response.requested_domain == ContextDomain::Repository ==> response.memory is None
            &&& search_size(response) <= effective(request.scope.budget, limits).max_bytes
            &&& response.page.truncation matches Some(truncation) ==> truncation.returned_bytes
                == search_size(response)
        },
{
    let budget = effective(request.scope.budget, limits);
    let fingerprint = search_identity(request);
    if let Ok(payload) = pending(request.cursor, "search"@, fingerprint) {
        let desired = wanted(pending_offset(payload), budget.max_results);
        findings_stay_in_their_domain(
            request.scope.target,
            repository,
            repository_from,
            memory,
            memory_from,
            desired,
            answers,
            at,
        );
        if let Ok(found) = findings(
            request.scope.target,
            repository,
            repository_from,
            memory,
            memory_from,
            desired,
            answers,
            at,
        ) {
            found_stay_in_their_domain(request, budget, found, payload, fingerprint, answers);
        }
    }
}

proof fn found_stay_in_their_domain(
    request: FederatedSearchRequestView,
    budget: EffectiveBudget,
    found: DomainFindings,
    payload: Option<FederationCursorPayloadView>,
    fingerprint: Seq<char>,
    answers: Seq<u64>,
)
    requires
        are_results_of(found.results, request.scope.target.domain()),
    ensures
        search_found(request, budget, found, payload, fingerprint, answers) matches Ok(response) ==> {
            &&& response.requested_domain == request.scope.target.domain()
            &&& response.repository == found.repository
            &&& response.memory == found.memory
            &&& are_results_of(response.results, response.requested_domain)
            &&& search_size(response) <= budget.max_bytes
            &&& response.page.truncation matches Some(truncation) ==> truncation.returned_bytes
                == search_size(response)
        },
{
    reveal(search_found);
    let domain = request.scope.target.domain();
    let offset = pending_offset(payload);
    let results = deduplicated::<FederatedSearchResult>(sorted::<FederatedSearchResult>(found.results));
    ordering_keeps_domain(found.results, domain);
    if let Ok(response) = search_found(request, budget, found, payload, fingerprint, answers) {
        let capped = wanted(offset, budget.max_results) == MAX_FEDERATION_CANDIDATES && found.more;
        let start = if capped {
            Some(MemoryTruncationReason::Results)
        } else {
            None
        };
        let (count, reason, next) = taken(
            results.len() - offset,
            0,
            start,
            budget.max_results,
            answers,
            found.at,
        );
        taken_is_available(results.len() - offset, 0, start, budget.max_results, answers, found.at);
        let page = results.skip(offset as int).take(count);
        assert forall|i: int|
            0 <= i < page.len() implies is_result_of(#[trigger] page[i], domain) by {
            assert(page[i] == results[offset + i]);
        }
        let whole = FederatedSearchResponseView {
            wire_version: FEDERATION_WIRE_VERSION,
            project: request.scope.project,
            requested_domain: domain,
            repository: found.repository,
            memory: found.memory,
            federation_diagnostics: Seq::empty(),
            page: FederatedPageInfoView { next_cursor: None, truncation: None },
            results: page,
        };
        let place = PagePlaceView {
            offset: offset as int,
            total: results.len() as int,
            fingerprint,
            revision_key: revisions_key(found.repository, found.memory),
        };
        fitted_search_fits(whole, budget.max_bytes, reason, place, answers, next);
        let kept = choose|kept: int|
            0 <= kept <= page.len() && response.results == #[trigger] page.take(kept);
        assert forall|i: int| 0 <= i < response.results.len() implies is_result_of(
            #[trigger] response.results[i],
            domain,
        ) by {
            assert(response.results[i] == page[i]);
        }
    }
}

proof fn taken_is_available(
    available: int,
    count: int,
    reason: Option<MemoryTruncationReason>,
    max_results: u32,
    answers: Seq<u64>,
    at: int,
)
    requires
        0 <= count <= available,
    ensures
        0 <= taken(available, count, reason, max_results, answers, at).0 <= available,
        count <= max_results ==> taken(available, count, reason, max_results, answers, at).0
            <= max_results,
    decreases available - count,
{
    reveal(taken);
    if count < available && count < max_results && !is_up(answers[at]) {
        taken_is_available(available, count + 1, reason, max_results, answers, at + 1);
    }
}

/// Records that stand in order, each thing once, stand in an order without ties.
proof fn distinct_records_are_keyed<T: Sortable + Identified>(records: Seq<T::V>)
    requires
        forall|left: T::V, right: T::V|
            #[trigger] T::key(left) == #[trigger] T::key(right) ==> T::identity(left) == T::identity(
                right,
            ),
        is_sorted::<T>(records),
    ensures
        is_keyed::<T>(deduplicated::<T>(records)),
        forall|i: int|
            0 <= i < deduplicated::<T>(records).len() ==> records.contains(
                #[trigger] deduplicated::<T>(records)[i],
            ),
    decreases records.len(),
{
    if records.len() > 0 {
        let before = records.drop_last();
        let last = records.last();
        let rest = deduplicated::<T>(before);
        let all = deduplicated::<T>(records);
        distinct_records_are_keyed::<T>(before);
        assert forall|i: int| 0 <= i < rest.len() implies records.contains(#[trigger] rest[i]) && !key_lt(
            T::key(last),
            T::key(rest[i]),
        ) by {
            let place = choose|place: int| 0 <= place < before.len() && before[place] == rest[i];
            assert(records[place] == rest[i]);
            assert(records[records.len() - 1] == last);
        }
        assert(records[records.len() - 1] == last);
        if all.len() > rest.len() {
            assert forall|i: int, j: int| 0 <= i < j < all.len() implies key_lt(
                T::key(#[trigger] all[i]),
                T::key(#[trigger] all[j]),
            ) by {
                if j == rest.len() {
                    let nearest = rest.last();
                    assert(all[i] == rest[i] && all[j] == last);
                    assert(rest[rest.len() - 1] == nearest);
                    key_order_is_total(
                        T::key(nearest),
                        T::key(last),
                    );
                    key_order_is_total(
                        T::key(rest[i]),
                        T::key(last),
                    );
                    key_order_is_total(
                        T::key(rest[i]),
                        T::key(nearest),
                    );
                    if i < rest.len() - 1 {
                        assert(key_lt(
                            T::key(rest[i]),
                            T::key(rest[rest.len() - 1]),
                        ));
                    }
                } else {
                    assert(all[i] == rest[i] && all[j] == rest[j]);
                }
            }
        }
    }
}

/// What the domains found, each thing once, in the order in which it is answered.
pub open spec fn in_answer_order(found: DomainFindings) -> Seq<FederatedSearchResultView> {
    deduplicated::<FederatedSearchResult>(sorted::<FederatedSearchResult>(found.results))
}

/// The answer to a search is a part of all that was found, and its cursor names the place behind it.
pub proof fn search_page_is_a_part(
    request: FederatedSearchRequestView,
    budget: EffectiveBudget,
    found: DomainFindings,
    payload: Option<FederationCursorPayloadView>,
    fingerprint: Seq<char>,
    answers: Seq<u64>,
    response: FederatedSearchResponseView,
)
    requires
        search_found(request, budget, found, payload, fingerprint, answers) == Ok::<
            _,
            MemoryQueryErrorView,
        >(response),
    ensures
        ({
            let all = in_answer_order(found);
            let offset = pending_offset(payload) as int;
            &&& offset + response.results.len() <= all.len()
            &&& response.results.len() <= budget.max_results
            &&& response.results == all.subrange(offset, offset + response.results.len())
            &&& response.page.next_cursor matches Some(cursor) ==> cursor == federation_cursor(
                "search"@,
                fingerprint,
                revisions_key(found.repository, found.memory),
                (offset + response.results.len()) as u64,
            )
        }),
{
    reveal(search_found);
    let offset = pending_offset(payload);
    let results = in_answer_order(found);
    let capped = wanted(offset, budget.max_results) == MAX_FEDERATION_CANDIDATES && found.more;
    let start = if capped {
        Some(MemoryTruncationReason::Results)
    } else {
        None
    };
    let (count, reason, next) = taken(
        results.len() - offset,
        0,
        start,
        budget.max_results,
        answers,
        found.at,
    );
    taken_is_available(results.len() - offset, 0, start, budget.max_results, answers, found.at);
    let page = results.skip(offset as int).take(count);
    let whole = FederatedSearchResponseView {
        wire_version: FEDERATION_WIRE_VERSION,
        project: request.scope.project,
        requested_domain: request.scope.target.domain(),
        repository: found.repository,
        memory: found.memory,
        federation_diagnostics: Seq::empty(),
        page: FederatedPageInfoView { next_cursor: None, truncation: None },
        results: page,
    };
    let place = PagePlaceView {
        offset: offset as int,
        total: results.len() as int,
        fingerprint,
        revision_key: revisions_key(found.repository, found.memory),
    };
    fitted_search_fits(whole, budget.max_bytes, reason, place, answers, next);
    let kept = choose|kept: int|
        0 <= kept <= page.len() && response.results == #[trigger] page.take(kept);
    assert(response.results =~= results.subrange(offset as int, offset + response.results.len()));
}

/// Whether what was found later goes on behind what was found first: nothing is lost, and what is new
/// stands behind the first so many.
pub open spec fn goes_on(
    first: Seq<FederatedSearchResultView>,
    second: Seq<FederatedSearchResultView>,
    count: int,
) -> bool {
    &&& count <= first.len()
    &&& forall|i: int| 0 <= i < first.len() ==> second.contains(#[trigger] first[i])
    &&& forall|i: int, j: int|
        0 <= i < count && 0 <= j < second.len() && !first.contains(second[j]) ==> key_lt(
            FederatedSearchResult::key(#[trigger] first[i]),
            FederatedSearchResult::key(#[trigger] second[j]),
        )
}

/// What goes on begins with what was there.
proof fn going_on_keeps_the_first(
    first: Seq<FederatedSearchResultView>,
    second: Seq<FederatedSearchResultView>,
    count: int,
)
    requires
        0 <= count,
        is_keyed::<FederatedSearchResult>(first),
        is_keyed::<FederatedSearchResult>(second),
        goes_on(first, second, count),
    ensures
        count <= second.len(),
        first.take(count) == second.take(count),
    decreases count,
{
    if count > 0 {
        going_on_keeps_the_first(first, second, count - 1);
        let at = count - 1;
        assert(first.take(at) =~= second.take(at));
        let k = choose|k: int| 0 <= k < second.len() && second[k] == first[at];
        assert(k >= at) by {
            if k < at {
                assert(second.take(at)[k] == first.take(at)[k]);
                assert(key_lt(
                    FederatedSearchResult::key(first[k]),
                    FederatedSearchResult::key(first[at]),
                ));
                key_order_is_total(
                    FederatedSearchResult::key(first[k]),
                    FederatedSearchResult::key(first[at]),
                );
            }
        }
        assert(second[at] == first[at]) by {
            if k > at {
                let here = second[at];
                assert(key_lt(
                    FederatedSearchResult::key(second[at]),
                    FederatedSearchResult::key(second[k]),
                ));
                key_order_is_total(
                    FederatedSearchResult::key(second[at]),
                    FederatedSearchResult::key(first[at]),
                );
                if first.contains(here) {
                    let j = choose|j: int| 0 <= j < first.len() && first[j] == here;
                    if j < at {
                        assert(first.take(at)[j] == second.take(at)[j]);
                        assert(key_lt(
                            FederatedSearchResult::key(second[j]),
                            FederatedSearchResult::key(second[at]),
                        ));
                        key_order_is_total(
                            FederatedSearchResult::key(second[j]),
                            FederatedSearchResult::key(second[at]),
                        );
                    } else if j > at {
                        assert(key_lt(
                            FederatedSearchResult::key(first[at]),
                            FederatedSearchResult::key(first[j]),
                        ));
                    }
                }
            }
        }
        assert(first.take(count) =~= first.take(at).push(first[at]));
        assert(second.take(count) =~= second.take(at).push(second[at]));
    }
}

/// Whether the domains found nothing twice.
pub open spec fn found_once(found: DomainFindings) -> bool {
    forall|i: int, j: int|
        0 <= i < j < found.results.len() ==> result_key(#[trigger] found.results[i]) != result_key(
            #[trigger] found.results[j],
        )
}

/// Nothing in the order of the answer stands in the same place as another thing.
pub proof fn answer_order_has_no_ties(found: DomainFindings)
    ensures
        is_keyed::<FederatedSearchResult>(in_answer_order(found)),
        forall|i: int|
            0 <= i < in_answer_order(found).len() ==> found.results.contains(
                #[trigger] in_answer_order(found)[i],
            ),
{
    let ordered = sorted::<FederatedSearchResult>(found.results);
    sorting_orders_and_keeps::<FederatedSearchResult>(found.results);
    distinct_records_are_keyed::<FederatedSearchResult>(ordered);
    ordered.to_multiset_ensures();
    found.results.to_multiset_ensures();
    assert forall|i: int| 0 <= i < in_answer_order(found).len() implies found.results.contains(
        #[trigger] in_answer_order(found)[i],
    ) by {
        assert(ordered.contains(in_answer_order(found)[i]));
        assert(ordered.to_multiset().contains(in_answer_order(found)[i]));
    }
}

/// The pages of a search follow each other and repeat nothing: where what the domains found for the
/// second page goes on behind the first, and the second page starts where the first ended, their results
/// together are what stands from the first page on among all that was found, and no result is on both
/// pages, nor anything that the domains found once. The first page names the place behind its last
/// result, where it says that it continues.
pub proof fn combined_pages_follow_each_other(
    request: FederatedSearchRequestView,
    second_request: FederatedSearchRequestView,
    first_budget: EffectiveBudget,
    second_budget: EffectiveBudget,
    first: DomainFindings,
    second: DomainFindings,
    first_payload: Option<FederationCursorPayloadView>,
    second_payload: Option<FederationCursorPayloadView>,
    fingerprint: Seq<char>,
    first_answers: Seq<u64>,
    second_answers: Seq<u64>,
    before: FederatedSearchResponseView,
    after: FederatedSearchResponseView,
)
    requires
        search_found(request, first_budget, first, first_payload, fingerprint, first_answers) == Ok::<
            _,
            MemoryQueryErrorView,
        >(before),
        search_found(
            second_request,
            second_budget,
            second,
            second_payload,
            fingerprint,
            second_answers,
        ) == Ok::<_, MemoryQueryErrorView>(after),
        pending_offset(second_payload) == pending_offset(first_payload) + before.results.len(),
        goes_on(
            in_answer_order(first),
            in_answer_order(second),
            pending_offset(first_payload) + before.results.len(),
        ),
    ensures
        ({
            let all = in_answer_order(second);
            let offset = pending_offset(first_payload) as int;
            let end = offset + before.results.len() + after.results.len();
            &&& end <= all.len()
            &&& before.results + after.results == all.subrange(offset, end)
            &&& is_keyed::<FederatedSearchResult>(before.results + after.results)
            &&& forall|i: int, j: int|
                0 <= i < before.results.len() && 0 <= j < after.results.len()
                    ==> #[trigger] before.results[i] != #[trigger] after.results[j]
            &&& found_once(second) ==> forall|i: int, j: int|
                0 <= i < before.results.len() && 0 <= j < after.results.len() ==> result_key(
                    #[trigger] before.results[i],
                ) != result_key(#[trigger] after.results[j])
            &&& before.page.next_cursor matches Some(cursor) ==> cursor == federation_cursor(
                "search"@,
                fingerprint,
                revisions_key(first.repository, first.memory),
                (offset + before.results.len()) as u64,
            )
        }),
{
    let all = in_answer_order(second);
    let offset = pending_offset(first_payload) as int;
    let middle = offset + before.results.len();
    search_page_is_a_part(
        request,
        first_budget,
        first,
        first_payload,
        fingerprint,
        first_answers,
        before,
    );
    search_page_is_a_part(
        second_request,
        second_budget,
        second,
        second_payload,
        fingerprint,
        second_answers,
        after,
    );
    answer_order_has_no_ties(first);
    answer_order_has_no_ties(second);
    going_on_keeps_the_first(in_answer_order(first), all, middle);
    assert forall|i: int| 0 <= i < before.results.len() implies before.results[i] == #[trigger] all[offset
        + i] by {
        assert(in_answer_order(first).take(middle)[offset + i] == all.take(middle)[offset + i]);
    }
    let both = before.results + after.results;
    assert forall|i: int| 0 <= i < both.len() implies #[trigger] both[i] == all[offset + i] by {
        if i >= before.results.len() {
            let behind = i - before.results.len();
            assert(after.results[behind] == all.subrange(middle, middle + after.results.len())[behind]);
        } else {
            assert(before.results[i] == all[offset + i]);
        }
    }
    assert(both =~= all.subrange(offset, middle + after.results.len()));
    assert forall|i: int, j: int| 0 <= i < j < both.len() implies key_lt(
        FederatedSearchResult::key(#[trigger] both[i]),
        FederatedSearchResult::key(#[trigger] both[j]),
    ) by {
        assert(both[i] == all[offset + i] && both[j] == all[offset + j]);
    }
    assert forall|i: int, j: int|
        0 <= i < before.results.len() && 0 <= j < after.results.len() implies #[trigger] before.results[i]
        != #[trigger] after.results[j] && (found_once(second) ==> result_key(before.results[i])
        != result_key(after.results[j])) by {
        let place = before.results.len() + j;
        let (left, right) = (both[i], both[place]);
        assert(left == before.results[i] && right == after.results[j]);
        key_order_is_total(FederatedSearchResult::key(left), FederatedSearchResult::key(right));
        assert(left == all[offset + i] && right == all[offset + place]);
        if found_once(second) {
            let p = choose|p: int| 0 <= p < second.results.len() && second.results[p] == left;
            let q = choose|q: int| 0 <= q < second.results.len() && second.results[q] == right;
            assert(p != q);
        }
    }
}

/// Two searches, the second from the cursor of the first on, repeat nothing, whatever pages they ask the
/// domains for: where what the domains found for the second goes on behind the answer to the first, the
/// results of both together stand in the order of all results, and no result is in both answers. Where a
/// revision has changed in between, the cursor is stale.
pub proof fn searches_do_not_repeat(
    first: FederatedSearchRequestView,
    second: FederatedSearchRequestView,
    limits: QueryLimitsConfigView,
    repository: Seq<(SearchRequestView, Result<SearchResponseView, QueryErrorCode>)>,
    repository_from: int,
    memory: Seq<(MemorySearchRequestView, Result<MemorySearchResponseView, MemoryQueryErrorView>)>,
    memory_from: int,
    answers: Seq<u64>,
    at: int,
    later_repository: Seq<(SearchRequestView, Result<SearchResponseView, QueryErrorCode>)>,
    later_repository_from: int,
    later_memory: Seq<
        (MemorySearchRequestView, Result<MemorySearchResponseView, MemoryQueryErrorView>),
    >,
    later_memory_from: int,
    later_answers: Seq<u64>,
    later_at: int,
    payload: Option<FederationCursorPayloadView>,
    later_payload: FederationCursorPayloadView,
    found: DomainFindings,
    later_found: DomainFindings,
    before: FederatedSearchResponseView,
)
    requires
        federated_search_answer(
            first,
            limits,
            repository,
            repository_from,
            memory,
            memory_from,
            answers,
            at,
        ) == Ok::<_, MemoryQueryErrorView>(before),
        second == (FederatedSearchRequestView { cursor: before.page.next_cursor, ..first }),
        pending(first.cursor, "search"@, search_identity(first)) == Ok::<_, MemoryQueryErrorView>(payload),
        pending(second.cursor, "search"@, search_identity(second)) == Ok::<_, MemoryQueryErrorView>(
            Some(later_payload),
        ),
        later_payload.offset == pending_offset(payload) + before.results.len(),
        later_payload.revision_key == revisions_key(found.repository, found.memory),
        findings(
            first.scope.target,
            repository,
            repository_from,
            memory,
            memory_from,
            wanted(pending_offset(payload), effective(first.scope.budget, limits).max_results),
            answers,
            at,
        ) == Ok::<_, MemoryQueryErrorView>(found),
        findings(
            second.scope.target,
            later_repository,
            later_repository_from,
            later_memory,
            later_memory_from,
            wanted(later_payload.offset, effective(second.scope.budget, limits).max_results),
            later_answers,
            later_at,
        ) == Ok::<_, MemoryQueryErrorView>(later_found),
        goes_on(
            in_answer_order(found),
            in_answer_order(later_found),
            later_payload.offset as int,
        ),
        later_payload.offset <= usize::MAX,
    ensures
        ({
            let answer = federated_search_answer(
                second,
                limits,
                later_repository,
                later_repository_from,
                later_memory,
                later_memory_from,
                later_answers,
                later_at,
            );
            &&& answer matches Ok(after) ==> {
                &&& is_keyed::<FederatedSearchResult>(before.results + after.results)
                &&& forall|i: int, j: int|
                    0 <= i < before.results.len() && 0 <= j < after.results.len()
                        ==> #[trigger] before.results[i] != #[trigger] after.results[j]
                &&& found_once(later_found) ==> forall|i: int, j: int|
                    0 <= i < before.results.len() && 0 <= j < after.results.len() ==> result_key(
                        #[trigger] before.results[i],
                    ) != result_key(#[trigger] after.results[j])
            }
            &&& revisions_key(later_found.repository, later_found.memory) != revisions_key(
                found.repository,
                found.memory,
            ) ==> answer == Err::<FederatedSearchResponseView, _>(MemoryQueryErrorView::StaleCursor)
        }),
{
    assert(search_identity(second) == search_identity(first));
    reveal(search_found);
    let fingerprint = search_identity(first);
    let budget = effective(first.scope.budget, limits);
    let answer = search_found(
        second,
        budget,
        later_found,
        Some(later_payload),
        fingerprint,
        later_answers,
    );
    if let Ok(after) = answer {
        combined_pages_follow_each_other(
            first,
            second,
            budget,
            budget,
            found,
            later_found,
            payload,
            Some(later_payload),
            fingerprint,
            answers,
            later_answers,
            before,
            after,
        );
    }
}

proof fn items_page_is_available(
    items: Seq<FederatedContextItemView>,
    count: int,
    bytes: u64,
    reason: Option<MemoryTruncationReason>,
    budget: EffectiveBudget,
    answers: Seq<u64>,
    at: int,
)
    requires
        0 <= count <= items.len(),
    ensures
        items_page(items, count, bytes, reason, budget, answers, at) matches Some(page) ==> 0 <= page.count
            <= items.len(),
    decreases items.len() - count,
{
    reveal(items_page);
    if count < items.len() && count < budget.max_results && !is_up(answers[at]) {
        let size = item_size(items[count]);
        if saturated(bytes, size) <= budget.max_bytes {
            items_page_is_available(
                items,
                count + 1,
                saturated(bytes, size),
                reason,
                budget,
                answers,
                at + 1,
            );
        }
    }
}

proof fn context_page_is_a_part(
    request: FederatedContextRequestView,
    budget: EffectiveBudget,
    findings: ContextFindingsView,
    payload: Option<FederationCursorPayloadView>,
    fingerprint: Seq<char>,
    answers: Seq<u64>,
    at: int,
    response: FederatedContextResponseView,
)
    requires
        context_found(request, budget, findings, payload, fingerprint, answers, at) == Ok::<
            _,
            MemoryQueryErrorView,
        >(response),
    ensures
        ({
            let all = all_items(findings);
            let offset = pending_offset(payload) as int;
            &&& offset + response.items.len() <= all.len()
            &&& response.items == all.subrange(offset, offset + response.items.len())
            &&& response.page.next_cursor matches Some(cursor) ==> cursor == federation_cursor(
                "context"@,
                fingerprint,
                revisions_key(findings.repository_state, findings.memory_state),
                (offset + response.items.len()) as u64,
            )
        }),
{
    reveal(context_found);
    let all = all_items(findings);
    let offset = pending_offset(payload);
    let rest = all.skip(offset as int);
    let reason = reason_before(findings, wanted(offset, budget.max_results));
    items_page_is_available(rest, 0, 0, reason, budget, answers, at);
    assert(response.items =~= all.subrange(offset as int, offset + response.items.len()));
}

/// The pages of a context follow each other and repeat nothing: where the domains said the same, and
/// the second page starts where the first ended, their items together are what stands from the first
/// page on among all items, and no item is on both pages. The first page names the place behind its
/// last item, where it says that it continues.
pub proof fn context_pages_follow_each_other(
    request: FederatedContextRequestView,
    first_budget: EffectiveBudget,
    second_budget: EffectiveBudget,
    first: ContextFindingsView,
    second: ContextFindingsView,
    first_payload: Option<FederationCursorPayloadView>,
    second_payload: Option<FederationCursorPayloadView>,
    fingerprint: Seq<char>,
    first_answers: Seq<u64>,
    second_answers: Seq<u64>,
    first_at: int,
    second_at: int,
    before: FederatedContextResponseView,
    after: FederatedContextResponseView,
)
    requires
        context_found(
            request,
            first_budget,
            first,
            first_payload,
            fingerprint,
            first_answers,
            first_at,
        ) == Ok::<_, MemoryQueryErrorView>(before),
        context_found(
            request,
            second_budget,
            second,
            second_payload,
            fingerprint,
            second_answers,
            second_at,
        ) == Ok::<_, MemoryQueryErrorView>(after),
        all_items(second) == all_items(first),
        pending_offset(second_payload) == pending_offset(first_payload) + before.items.len(),
    ensures
        ({
            let all = all_items(first);
            let offset = pending_offset(first_payload) as int;
            let end = offset + before.items.len() + after.items.len();
            &&& end <= all.len()
            &&& before.items + after.items == all.subrange(offset, end)
            &&& forall|i: int, j: int|
                0 <= i < before.items.len() && 0 <= j < after.items.len() ==> #[trigger] before.items[i]
                    != #[trigger] after.items[j]
            &&& before.page.next_cursor matches Some(cursor) ==> cursor == federation_cursor(
                "context"@,
                fingerprint,
                revisions_key(first.repository_state, first.memory_state),
                (offset + before.items.len()) as u64,
            )
        }),
{
    let all = all_items(first);
    let offset = pending_offset(first_payload) as int;
    context_page_is_a_part(
        request,
        first_budget,
        first,
        first_payload,
        fingerprint,
        first_answers,
        first_at,
        before,
    );
    context_page_is_a_part(
        request,
        second_budget,
        second,
        second_payload,
        fingerprint,
        second_answers,
        second_at,
        after,
    );
    let items = repository_items(first.repository, first.links) + memory_items(
        first.memory,
        first.links,
    );
    sorting_orders_and_keeps::<FederatedContextItem>(items);
    distinct_records_are_keyed::<FederatedContextItem>(sorted::<FederatedContextItem>(items));
    assert(before.items + after.items =~= all.subrange(
        offset,
        offset + before.items.len() + after.items.len(),
    ));
    assert forall|i: int, j: int|
        0 <= i < before.items.len() && 0 <= j < after.items.len() implies #[trigger] before.items[i]
        != #[trigger] after.items[j] by {
        let place = offset + before.items.len() + j;
        assert(all[offset + i] == before.items[i]);
        assert(all[place] == after.items[j]);
        key_order_is_total(
            FederatedContextItem::key(all[offset + i]),
            FederatedContextItem::key(all[place]),
        );
    }
}

}
