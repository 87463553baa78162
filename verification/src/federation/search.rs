//! Searching over the domains.
use vstd::prelude::*;
use crate::budget::{backend, backend_error, effective, EffectiveBudget};
use crate::cursor::{
    decode_federation_cursor, federation_cursor, federation_cursor_payload, validate_cursor_revision,
    FederationCursorPayload, FederationCursorPayloadView, CURSOR_VERSION,
};
use crate::deadline::{begins, is_up, keeps_time, Deadline};
use crate::diagnostics::{MemoryDiagnostic, MemoryDiagnosticView};
use crate::domain::MemoryStatusToken;
use crate::federation::fitting::{
    first, fit_federated_search_response, search_fitted, too_late, PagePlace, PagePlaceView,
};
use crate::federation::gathering::{
    gather, gather_memory_search, gather_repository_search, memory_search_asked,
    memory_search_pages, repository_search_asked, repository_search_pages,
};
use crate::federation::state::{
    candidate_cap_truncated, federated_search_fingerprint, memory_state_from_search,
    repository_state_from_search, revision_key, revisions_key, search_identity, searched_memory,
    searched_repository, MAX_FEDERATION_CANDIDATES,
};
use crate::federation::{
    FederatedPageInfo, FederatedPageInfoView, FederatedSearchRequest, FederatedSearchRequestView,
    FederatedSearchResponse, FederatedSearchResponseView, FederatedSearchResult,
    FederatedSearchResultView, FederatedTarget, FederatedTargetView, MemoryDomainState,
    MemoryDomainStateView, RepositoryContextTarget, RepositoryContextTargetView,
    RepositoryDomainState, RepositoryDomainStateView,
};
use crate::ports::{GraphQuery, MemoryQuery};
use crate::query::{
    MemoryFreshnessComparison, MemoryFreshnessComparisonView, MemoryPageRequest,
    MemoryPageRequestView, MemoryQueryError, MemoryQueryErrorView, MemoryQueryScope,
    MemoryQueryScopeView, MemoryRevisionSelector, MemoryRevisionSelectorView, MemorySearchHit,
    MemorySearchHitView, MemorySearchRequest, MemorySearchRequestView, MemorySearchResponseView,
    MemoryTruncationReason,
};
use crate::record::{outcome, Record};
use crate::repository::{
    QueryErrorCode, QueryLimitsConfig, QueryLimitsConfigView, QueryScope, QueryScopeView, SearchHit,
    SearchHitView, SearchRequest, SearchRequestView, SearchResponseView,
};
use crate::sort::{dedup, deduplicated, sort, sorted};
use crate::{FEDERATION_WIRE_VERSION, MEMORY_QUERY_WIRE_VERSION};

verus! {

/// Admits federated requests in the current version alone.
pub fn validate_federation_version(wire_version: u32) -> (result: Result<(), MemoryQueryError>)
    ensures
        result is Ok == (wire_version == FEDERATION_WIRE_VERSION),
        result matches Err(error) ==> error.deep_view() == backend("federation.wireversion"@),
{
    if wire_version == FEDERATION_WIRE_VERSION {
        Ok(())
    } else {
        proof {
            reveal_strlit("federation.wireversion");
        }
        Err(backend_error("federation.wireversion"))
    }
}

/// How many results of the domains are wanted to fill a page at an offset and to see whether there is
/// more.
pub open spec fn wanted(offset: u64, max_results: u32) -> int {
    if offset + max_results + 1 < MAX_FEDERATION_CANDIDATES {
        offset + max_results + 1
    } else {
        MAX_FEDERATION_CANDIDATES as int
    }
}

/// How many results of the domains are wanted to fill a page at an offset and to see whether there is
/// more.
pub fn desired_results(offset: u64, max_results: u32) -> (desired: usize)
    ensures
        desired == wanted(offset, max_results),
        0 < desired <= MAX_FEDERATION_CANDIDATES,
{
    let sum = offset as u128 + max_results as u128 + 1;
    if sum < MAX_FEDERATION_CANDIDATES as u128 {
        sum as usize
    } else {
        MAX_FEDERATION_CANDIDATES
    }
}

/// What is asked of the repository for a federated search.
pub open spec fn repository_part(
    request: FederatedSearchRequestView,
    target: RepositoryContextTargetView,
    budget: EffectiveBudget,
) -> SearchRequestView {
    SearchRequestView {
        scope: QueryScopeView {
            repository: target.repository,
            snapshot: target.snapshot,
            budget: budget.for_repository(),
        },
        text: request.text,
        node_kinds: request.repository_kinds,
        paths: request.repository_paths,
        cursor: None,
    }
}

/// What is asked of the memory for a federated search.
pub open spec fn memory_part(
    request: FederatedSearchRequestView,
    selector: MemoryRevisionSelectorView,
    budget: EffectiveBudget,
    freshness: Option<MemoryFreshnessComparisonView>,
) -> MemorySearchRequestView {
    MemorySearchRequestView {
        scope: MemoryQueryScopeView {
            wire_version: MEMORY_QUERY_WIRE_VERSION,
            project: request.scope.project,
            revision: selector,
            budget: budget.for_memory(),
            freshness_comparison: freshness,
        },
        text: request.text,
        entity_kinds: request.memory_kinds,
        source_categories: request.memory_sources,
        page: MemoryPageRequestView { cursor: None },
    }
}

fn token_texts(tokens: &Vec<MemoryStatusToken>) -> (texts: Vec<String>)
    ensures
        texts.deep_view() == tokens.deep_view(),
{
    let mut texts: Vec<String> = Vec::new();
    while texts.len() < tokens.len()
        invariant
            texts.len() <= tokens.len(),
            texts.deep_view() =~= tokens.deep_view().take(texts.len() as int),
        decreases tokens.len() - texts.len(),
    {
        let ghost before = texts.deep_view();
        let text = tokens[texts.len()].as_str().to_owned();
        texts.push(text);
        assert(texts.deep_view() =~= before.push(text@));
    }
    assert(texts.deep_view() =~= tokens.deep_view());
    texts
}

fn ask_repository(
    request: &FederatedSearchRequest,
    target: &RepositoryContextTarget,
    budget: EffectiveBudget,
) -> (result: SearchRequest)
    ensures
        result.deep_view() == repository_part(request.deep_view(), target.deep_view(), budget),
{
    SearchRequest {
        scope: QueryScope {
            repository: target.repository.copied(),
            snapshot: target.snapshot.copied(),
            budget: budget.repository_budget(),
        },
        text: request.text.as_str().to_owned(),
        node_kinds: token_texts(&request.repository_kinds),
        paths: request.repository_paths.copied(),
        cursor: None,
    }
}

fn ask_memory(
    request: &FederatedSearchRequest,
    selector: &MemoryRevisionSelector,
    budget: EffectiveBudget,
    freshness: &Option<MemoryFreshnessComparison>,
) -> (result: MemorySearchRequest)
    ensures
        result.deep_view() == memory_part(
            request.deep_view(),
            selector.deep_view(),
            budget,
            freshness.deep_view(),
        ),
{
    let mut scope = MemoryQueryScope::current(
        request.scope.project.copied(),
        selector.copied(),
        budget.memory_budget(),
    );
    scope.freshness_comparison = freshness.copied();
    MemorySearchRequest {
        scope,
        text: request.text.copied(),
        entity_kinds: request.memory_kinds.copied(),
        source_categories: request.memory_sources.copied(),
        page: MemoryPageRequest::default(),
    }
}

/// Repository hits as results of a federated search.
pub open spec fn repository_results(hits: Seq<SearchHitView>) -> Seq<FederatedSearchResultView> {
    hits.map_values(|hit: SearchHitView| FederatedSearchResultView::Repository(hit))
}

/// Memory hits as results of a federated search.
pub open spec fn memory_results(hits: Seq<MemorySearchHitView>) -> Seq<FederatedSearchResultView> {
    hits.map_values(|hit: MemorySearchHitView| FederatedSearchResultView::Memory(hit))
}

fn add_repository_results(results: &mut Vec<FederatedSearchResult>, hits: &Vec<SearchHit>)
    ensures
        final(results).deep_view() == old(results).deep_view() + repository_results(hits.deep_view()),
{
    let ghost start = results.deep_view();
    let ghost all = repository_results(hits.deep_view());
    let mut at: usize = 0;
    assert(results.deep_view() =~= start + all.take(0));
    while at < hits.len()
        invariant
            at <= hits.len(),
            all == repository_results(hits.deep_view()),
            results.deep_view() == start + all.take(at as int),
        decreases hits.len() - at,
    {
        let ghost before = results.deep_view();
        results.push(FederatedSearchResult::Repository(hits[at].copied()));
        assert(results.deep_view() =~= before.push(all[at as int]));
        assert(before.push(all[at as int]) =~= start + all.take(at + 1));
        at += 1;
    }
    assert(all.take(at as int) =~= all);
}

fn add_memory_results(results: &mut Vec<FederatedSearchResult>, hits: &Vec<MemorySearchHit>)
    ensures
        final(results).deep_view() == old(results).deep_view() + memory_results(hits.deep_view()),
{
    let ghost start = results.deep_view();
    let ghost all = memory_results(hits.deep_view());
    let mut at: usize = 0;
    assert(results.deep_view() =~= start + all.take(0));
    while at < hits.len()
        invariant
            at <= hits.len(),
            all == memory_results(hits.deep_view()),
            results.deep_view() == start + all.take(at as int),
        decreases hits.len() - at,
    {
        let ghost before = results.deep_view();
        results.push(FederatedSearchResult::Memory(hits[at].copied()));
        assert(results.deep_view() =~= before.push(all[at as int]));
        assert(before.push(all[at as int]) =~= start + all.take(at + 1));
        at += 1;
    }
    assert(all.take(at as int) =~= all);
}

/// What the domains found: their states, their results, whether one of them has more, and how many
/// answers of the deadline are known then.
pub struct DomainFindings {
    pub repository: Option<RepositoryDomainStateView>,
    pub memory: Option<MemoryDomainStateView>,
    pub results: Seq<FederatedSearchResultView>,
    pub more: bool,
    pub at: int,
}

/// What the repository found.
#[verifier::opaque]
pub open spec fn repository_findings(
    log: Seq<(SearchRequestView, Result<SearchResponseView, QueryErrorCode>)>,
    from: int,
    desired: int,
    answers: Seq<u64>,
    at: int,
) -> Result<DomainFindings, MemoryQueryErrorView> {
    match gather(repository_search_pages(log), from, true, Seq::empty(), false, desired, answers, at) {
        Err(error) => Err(error),
        Ok(gathered) => Ok(
            DomainFindings {
                repository: match log[gathered.pages - 1].1 {
                    Ok(response) => Some(searched_repository(response)),
                    Err(_) => None,
                },
                memory: None,
                results: repository_results(gathered.items),
                more: gathered.more,
                at: gathered.at,
            },
        ),
    }
}

/// What the memory found.
#[verifier::opaque]
pub open spec fn memory_findings(
    log: Seq<(MemorySearchRequestView, Result<MemorySearchResponseView, MemoryQueryErrorView>)>,
    from: int,
    desired: int,
    answers: Seq<u64>,
    at: int,
) -> Result<DomainFindings, MemoryQueryErrorView> {
    match gather(memory_search_pages(log), from, true, Seq::empty(), false, desired, answers, at) {
        Err(error) => Err(error),
        Ok(gathered) => Ok(
            DomainFindings {
                repository: None,
                memory: match log[gathered.pages - 1].1 {
                    Ok(response) => Some(searched_memory(response)),
                    Err(_) => None,
                },
                results: memory_results(gathered.items),
                more: gathered.more,
                at: gathered.at,
            },
        ),
    }
}

/// What the domains of a target found. The memory is asked behind the repository, and only while
/// there is time.
#[verifier::opaque]
pub open spec fn findings(
    target: FederatedTargetView,
    repository: Seq<(SearchRequestView, Result<SearchResponseView, QueryErrorCode>)>,
    repository_from: int,
    memory: Seq<(MemorySearchRequestView, Result<MemorySearchResponseView, MemoryQueryErrorView>)>,
    memory_from: int,
    desired: int,
    answers: Seq<u64>,
    at: int,
) -> Result<DomainFindings, MemoryQueryErrorView> {
    if is_up(answers[at]) {
        Err(too_late())
    } else {
        match target {
            FederatedTargetView::Repository { .. } => repository_findings(
                repository,
                repository_from,
                desired,
                answers,
                at + 1,
            ),
            FederatedTargetView::Memory { .. } => memory_findings(
                memory,
                memory_from,
                desired,
                answers,
                at + 1,
            ),
            FederatedTargetView::All { .. } => match repository_findings(
                repository,
                repository_from,
                desired,
                answers,
                at + 1,
            ) {
                Err(error) => Err(error),
                Ok(first) => if is_up(answers[first.at]) {
                    Err(too_late())
                } else {
                    match memory_findings(memory, memory_from, desired, answers, first.at + 1) {
                        Err(error) => Err(error),
                        Ok(second) => Ok(
                            DomainFindings {
                                repository: first.repository,
                                memory: second.memory,
                                results: first.results + second.results,
                                more: first.more || second.more,
                                at: second.at,
                            },
                        ),
                    }
                },
            },
        }
    }
}

/// What domains found, as it is gathered.
struct Findings {
    repository: Option<RepositoryDomainState>,
    memory: Option<MemoryDomainState>,
    results: Vec<FederatedSearchResult>,
    more: bool,
}

impl Findings {
    spec fn model(self, at: int) -> DomainFindings {
        DomainFindings {
            repository: self.repository.deep_view(),
            memory: self.memory.deep_view(),
            results: self.results.deep_view(),
            more: self.more,
            at,
        }
    }
}

/// What looking came to.
spec fn found(result: Result<Findings, MemoryQueryError>, at: int) -> Result<
    DomainFindings,
    MemoryQueryErrorView,
> {
    match result {
        Ok(findings) => Ok(findings.model(at)),
        Err(error) => Err(error.deep_view()),
    }
}

fn repository_search<R: GraphQuery, D: Deadline>(
    repository: &mut R,
    request: &SearchRequest,
    desired: usize,
    deadline: &mut D,
) -> (result: Result<Findings, MemoryQueryError>)
    ensures
        begins(old(deadline).answers(), final(deadline).answers()),
        keeps_time(*old(deadline), *final(deadline)),
        begins(old(repository).searches(), final(repository).searches()),
        final(repository).contexts() == old(repository).contexts(),
        final(repository).statuses() == old(repository).statuses(),
        repository_searched(
            request.deep_view(),
            final(repository).searches(),
            old(repository).searches().len() as int,
            final(deadline).answers(),
            old(deadline).answers().len() as int,
        ),
        forall|all: Seq<u64>| #[trigger]
            begins(final(deadline).answers(), all) ==> repository_was_read(
                final(repository).searches(),
                old(repository).searches().len() as int,
                desired as int,
                all,
                old(deadline).answers().len() as int,
            ),
        forall|all: Seq<u64>|
            begins(final(deadline).answers(), all) ==> #[trigger] repository_findings(
                final(repository).searches(),
                old(repository).searches().len() as int,
                desired as int,
                all,
                old(deadline).answers().len() as int,
            ) == found(result, final(deadline).answers().len() as int),
{
    proof {
        reveal(repository_findings);
    }
    match gather_repository_search(repository, request, desired, deadline) {
        Ok((last, hits, more)) => {
            let mut results: Vec<FederatedSearchResult> = Vec::new();
            assert(results.deep_view() =~= Seq::<FederatedSearchResultView>::empty());
            add_repository_results(&mut results, &hits);
            assert(results.deep_view() =~= repository_results(hits.deep_view()));
            Ok(
                Findings {
                    repository: Some(repository_state_from_search(&last)),
                    memory: None,
                    results,
                    more,
                },
            )
        },
        Err(error) => Err(error),
    }
}

fn memory_search<M: MemoryQuery, D: Deadline>(
    memory: &mut M,
    request: &MemorySearchRequest,
    desired: usize,
    deadline: &mut D,
) -> (result: Result<Findings, MemoryQueryError>)
    ensures
        begins(old(deadline).answers(), final(deadline).answers()),
        keeps_time(*old(deadline), *final(deadline)),
        begins(old(memory).searches(), final(memory).searches()),
        final(memory).contexts() == old(memory).contexts(),
        final(memory).statuses() == old(memory).statuses(),
        memory_searched(
            request.deep_view(),
            final(memory).searches(),
            old(memory).searches().len() as int,
            final(deadline).answers(),
            old(deadline).answers().len() as int,
        ),
        forall|all: Seq<u64>| #[trigger]
            begins(final(deadline).answers(), all) ==> memory_was_read(
                final(memory).searches(),
                old(memory).searches().len() as int,
                desired as int,
                all,
                old(deadline).answers().len() as int,
            ),
        forall|all: Seq<u64>|
            begins(final(deadline).answers(), all) ==> #[trigger] memory_findings(
                final(memory).searches(),
                old(memory).searches().len() as int,
                desired as int,
                all,
                old(deadline).answers().len() as int,
            ) == found(result, final(deadline).answers().len() as int),
{
    proof {
        reveal(memory_findings);
    }
    match gather_memory_search(memory, request, desired, deadline) {
        Ok((last, hits, more)) => {
            let mut results: Vec<FederatedSearchResult> = Vec::new();
            assert(results.deep_view() =~= Seq::<FederatedSearchResultView>::empty());
            add_memory_results(&mut results, &hits);
            assert(results.deep_view() =~= memory_results(hits.deep_view()));
            Ok(
                Findings {
                    repository: None,
                    memory: Some(memory_state_from_search(&last)),
                    results,
                    more,
                },
            )
        },
        Err(error) => Err(error),
    }
}

/// Whether the repository was searched this, page by page, from one search on.
pub open spec fn repository_searched(
    request: SearchRequestView,
    log: Seq<(SearchRequestView, Result<SearchResponseView, QueryErrorCode>)>,
    from: int,
    lefts: Seq<u64>,
    first: int,
) -> bool {
    forall|at: int|
        from <= at < log.len() ==> #[trigger] repository_search_asked(request, log, from, at, lefts, first)
}

/// Whether the memory was searched this, page by page, from one search on.
pub open spec fn memory_searched(
    request: MemorySearchRequestView,
    log: Seq<(MemorySearchRequestView, Result<MemorySearchResponseView, MemoryQueryErrorView>)>,
    from: int,
    lefts: Seq<u64>,
    first: int,
) -> bool {
    forall|at: int|
        from <= at < log.len() ==> #[trigger] memory_search_asked(request, log, from, at, lefts, first)
}

/// Whether all that the repository was searched for was read.
pub open spec fn repository_was_read(
    log: Seq<(SearchRequestView, Result<SearchResponseView, QueryErrorCode>)>,
    from: int,
    desired: int,
    lefts: Seq<u64>,
    first: int,
) -> bool {
    gather(repository_search_pages(log), from, true, Seq::empty(), false, desired, lefts, first) matches Ok(
        gathered,
    ) ==> gathered.pages == log.len()
}

/// Whether all that the memory was searched for was read.
pub open spec fn memory_was_read(
    log: Seq<(MemorySearchRequestView, Result<MemorySearchResponseView, MemoryQueryErrorView>)>,
    from: int,
    desired: int,
    lefts: Seq<u64>,
    first: int,
) -> bool {
    gather(memory_search_pages(log), from, true, Seq::empty(), false, desired, lefts, first) matches Ok(
        gathered,
    ) ==> gathered.pages == log.len()
}

proof fn repository_was_searched(
    request: SearchRequestView,
    log: Seq<(SearchRequestView, Result<SearchResponseView, QueryErrorCode>)>,
    from: int,
    lefts: Seq<u64>,
    first: int,
)
    requires
        repository_searched(request, log, from, lefts, first),
    ensures
        forall|all: Seq<u64>| #[trigger]
            begins(lefts, all) ==> repository_searched(request, log, from, all, first),
{
    assert forall|all: Seq<u64>| #[trigger] begins(lefts, all) implies repository_searched(
        request,
        log,
        from,
        all,
        first,
    ) by {
        assert forall|at: int| from <= at < log.len() implies #[trigger] repository_search_asked(
            request,
            log,
            from,
            at,
            all,
            first,
        ) by {
            assert(repository_search_asked(request, log, from, at, lefts, first));
            assert(all[first + 2 * (at - from)] == lefts[first + 2 * (at - from)]);
        }
    }
}

proof fn memory_was_searched(
    request: MemorySearchRequestView,
    log: Seq<(MemorySearchRequestView, Result<MemorySearchResponseView, MemoryQueryErrorView>)>,
    from: int,
    lefts: Seq<u64>,
    first: int,
)
    requires
        memory_searched(request, log, from, lefts, first),
    ensures
        forall|all: Seq<u64>| #[trigger]
            begins(lefts, all) ==> memory_searched(request, log, from, all, first),
{
    assert forall|all: Seq<u64>| #[trigger] begins(lefts, all) implies memory_searched(
        request,
        log,
        from,
        all,
        first,
    ) by {
        assert forall|at: int| from <= at < log.len() implies #[trigger] memory_search_asked(
            request,
            log,
            from,
            at,
            all,
            first,
        ) by {
            assert(memory_search_asked(request, log, from, at, lefts, first));
            assert(all[first + 2 * (at - from)] == lefts[first + 2 * (at - from)]);
        }
    }
}

/// Whether all that the domains of a target were searched for was read.
pub open spec fn all_was_read(
    target: FederatedTargetView,
    repository: Seq<(SearchRequestView, Result<SearchResponseView, QueryErrorCode>)>,
    repository_from: int,
    memory: Seq<(MemorySearchRequestView, Result<MemorySearchResponseView, MemoryQueryErrorView>)>,
    memory_from: int,
    desired: int,
    lefts: Seq<u64>,
    at: int,
) -> bool {
    &&& !(target is Memory) ==> repository_was_read(
        repository,
        repository_from,
        desired,
        lefts,
        at + 1,
    )
    &&& !(target is Repository) ==> memory_was_read(
        memory,
        memory_from,
        desired,
        lefts,
        if target is All {
            repository_findings(repository, repository_from, desired, lefts, at + 1)->Ok_0.at + 1
        } else {
            at + 1
        },
    )
}

/// Whether the domains were asked as a request says: each domain of its target, and no other, each page
/// in the time that was left for it. The memory is not asked where the repository failed.
pub open spec fn asked_for_search(
    request: FederatedSearchRequestView,
    budget: EffectiveBudget,
    freshness: Option<MemoryFreshnessComparisonView>,
    repository: Seq<(SearchRequestView, Result<SearchResponseView, QueryErrorCode>)>,
    repository_from: int,
    memory: Seq<(MemorySearchRequestView, Result<MemorySearchResponseView, MemoryQueryErrorView>)>,
    memory_from: int,
    desired: int,
    lefts: Seq<u64>,
    at: int,
) -> bool {
    match request.scope.target {
        FederatedTargetView::Repository { repository: target } => {
            &&& repository_searched(
                repository_part(request, target, budget),
                repository,
                repository_from,
                lefts,
                at + 1,
            )
            &&& memory.len() == memory_from
        },
        FederatedTargetView::Memory { memory: selector } => {
            &&& repository.len() == repository_from
            &&& memory_searched(
                memory_part(request, selector, budget, freshness),
                memory,
                memory_from,
                lefts,
                at + 1,
            )
        },
        FederatedTargetView::All { repository: target, memory: selector } => {
            &&& repository_searched(
                repository_part(request, target, budget),
                repository,
                repository_from,
                lefts,
                at + 1,
            )
            &&& memory.len() > memory_from ==> repository_findings(
                repository,
                repository_from,
                desired,
                lefts,
                at + 1,
            ) is Ok && memory_searched(
                memory_part(request, selector, budget, freshness),
                memory,
                memory_from,
                lefts,
                repository_findings(repository, repository_from, desired, lefts, at + 1)->Ok_0.at + 1,
            )
        },
    }
}

fn look<R: GraphQuery, M: MemoryQuery, D: Deadline>(
    repository: &mut R,
    memory: &mut M,
    request: &FederatedSearchRequest,
    budget: EffectiveBudget,
    freshness: &Option<MemoryFreshnessComparison>,
    desired: usize,
    deadline: &mut D,
) -> (result: Result<Findings, MemoryQueryError>)
    ensures
        begins(old(deadline).answers(), final(deadline).answers()),
        keeps_time(*old(deadline), *final(deadline)),
        begins(old(repository).searches(), final(repository).searches()),
        begins(old(memory).searches(), final(memory).searches()),
        final(repository).contexts() == old(repository).contexts(),
        final(repository).statuses() == old(repository).statuses(),
        final(memory).contexts() == old(memory).contexts(),
        final(memory).statuses() == old(memory).statuses(),
        forall|all: Seq<u64>| #[trigger]
            begins(final(deadline).answers(), all) ==> asked_for_search(
                request.deep_view(),
                budget,
                freshness.deep_view(),
                final(repository).searches(),
                old(repository).searches().len() as int,
                final(memory).searches(),
                old(memory).searches().len() as int,
                desired as int,
                all,
                old(deadline).answers().len() as int,
            ),
        result is Ok ==> forall|all: Seq<u64>| #[trigger]
            begins(final(deadline).answers(), all) ==> all_was_read(
                request.deep_view().scope.target,
                final(repository).searches(),
                old(repository).searches().len() as int,
                final(memory).searches(),
                old(memory).searches().len() as int,
                desired as int,
                all,
                old(deadline).answers().len() as int,
            ),
        forall|all: Seq<u64>|
            begins(final(deadline).answers(), all) ==> #[trigger] findings(
                request.deep_view().scope.target,
                final(repository).searches(),
                old(repository).searches().len() as int,
                final(memory).searches(),
                old(memory).searches().len() as int,
                desired as int,
                all,
                old(deadline).answers().len() as int,
            ) == found(result, final(deadline).answers().len() as int),
{
    proof {
        reveal(findings);
    }
    let ghost before = deadline.answers();
    let late = deadline.expired();
    proof {
        assert forall|all: Seq<u64>|
            begins(deadline.answers(), all) implies is_up(all[before.len() as int]) == late by {
            assert(all[before.len() as int] == deadline.answers()[before.len() as int]);
        }
    }
    if late {
        return Err(MemoryQueryError::BudgetExceeded(MemoryTruncationReason::Duration));
    }
    match &request.scope.target {
        FederatedTarget::Repository { repository: target } => {
            let asked = ask_repository(request, target, budget);
            let ghost first = repository.searches().len() as int;
            let ghost asked_at = deadline.answers().len() as int;
            let result = repository_search(repository, &asked, desired, deadline);
            proof {
                repository_was_searched(
                    asked.deep_view(),
                    repository.searches(),
                    first,
                    deadline.answers(),
                    asked_at,
                );
            }
            result
        },
        FederatedTarget::Memory { memory: selector } => {
            let asked = ask_memory(request, selector, budget, freshness);
            let ghost first = memory.searches().len() as int;
            let ghost asked_at = deadline.answers().len() as int;
            let result = memory_search(memory, &asked, desired, deadline);
            proof {
                memory_was_searched(
                    asked.deep_view(),
                    memory.searches(),
                    first,
                    deadline.answers(),
                    asked_at,
                );
            }
            result
        },
        FederatedTarget::All { repository: target, memory: selector } => {
            let asked = ask_repository(request, target, budget);
            let ghost first = repository.searches().len() as int;
            let ghost asked_at = deadline.answers().len() as int;
            let result = repository_search(repository, &asked, desired, deadline);
            proof {
                repository_was_searched(
                    asked.deep_view(),
                    repository.searches(),
                    first,
                    deadline.answers(),
                    asked_at,
                );
            }
            let mut found = match result {
                Ok(found) => found,
                Err(error) => {
                    return Err(error);
                },
            };
            let ghost middle = deadline.answers();
            let late = deadline.expired();
            proof {
                assert forall|all: Seq<u64>| begins(deadline.answers(), all) implies begins(middle, all) && is_up(all[
                    middle.len() as int
                ]) == late by {
                    assert(all[middle.len() as int] == deadline.answers()[middle.len() as int]);
                }
                assert forall|all: Seq<u64>| #[trigger] begins(deadline.answers(), all) implies begins(
                    middle,
                    all,
                ) by {
                    assert forall|i: int| 0 <= i < middle.len() implies #[trigger] all[i] == middle[i] by {
                        assert(all[i] == deadline.answers()[i]);
                    }
                }
            }
            if late {
                return Err(MemoryQueryError::BudgetExceeded(MemoryTruncationReason::Duration));
            }
            let asked = ask_memory(request, selector, budget, freshness);
            let ghost first = memory.searches().len() as int;
            let ghost asked_at = deadline.answers().len() as int;
            let result = memory_search(memory, &asked, desired, deadline);
            proof {
                memory_was_searched(
                    asked.deep_view(),
                    memory.searches(),
                    first,
                    deadline.answers(),
                    asked_at,
                );
                assert forall|all: Seq<u64>| #[trigger] begins(deadline.answers(), all) implies begins(
                    middle,
                    all,
                ) by {
                    assert forall|i: int| 0 <= i < middle.len() implies #[trigger] all[i] == middle[i] by {
                        assert(all[i] == deadline.answers()[i]);
                    }
                }
            }
            let second = match result {
                Ok(second) => second,
                Err(error) => {
                    return Err(error);
                },
            };
            crate::federation::gathering::extend(&mut found.results, &second.results);
            found.memory = second.memory;
            found.more = found.more || second.more;
            Ok(found)
        },
    }
}

/// How many results a page takes, why it ends early, and how many answers of the deadline are known
/// then.
#[verifier::opaque]
pub open spec fn taken(
    available: int,
    count: int,
    reason: Option<MemoryTruncationReason>,
    max_results: u32,
    answers: Seq<u64>,
    at: int,
) -> (int, Option<MemoryTruncationReason>, int)
    decreases available - count,
{
    if count >= available {
        (count, reason, at)
    } else if count >= max_results {
        (count, Some(MemoryTruncationReason::Results), at)
    } else if is_up(answers[at]) {
        (count, Some(MemoryTruncationReason::Duration), at + 1)
    } else {
        taken(available, count + 1, reason, max_results, answers, at + 1)
    }
}

fn take<D: Deadline>(
    available: usize,
    reason: Option<MemoryTruncationReason>,
    max_results: u32,
    deadline: &mut D,
) -> (result: (usize, Option<MemoryTruncationReason>))
    ensures
        begins(old(deadline).answers(), final(deadline).answers()),
        keeps_time(*old(deadline), *final(deadline)),
        result.0 <= available,
        result.0 <= max_results,
        forall|all: Seq<u64>|
            begins(final(deadline).answers(), all) ==> #[trigger] taken(
                available as int,
                0,
                reason,
                max_results,
                all,
                old(deadline).answers().len() as int,
            ) == (result.0 as int, result.1, final(deadline).answers().len() as int),
{
    let ghost start = deadline.answers().len() as int;
    let mut count: usize = 0;
    while count < available
        invariant
            count <= available,
            count <= max_results,
            start == old(deadline).answers().len(),
            begins(old(deadline).answers(), deadline.answers()),
            keeps_time(*old(deadline), *deadline),
            forall|all: Seq<u64>|
                begins(deadline.answers(), all) ==> #[trigger] taken(
                    available as int,
                    0,
                    reason,
                    max_results,
                    all,
                    start,
                ) == taken(
                    available as int,
                    count as int,
                    reason,
                    max_results,
                    all,
                    deadline.answers().len() as int,
                ),
        decreases available - count,
    {
        proof {
            reveal(taken);
        }
        if count as u64 >= max_results as u64 {
            return (count, Some(MemoryTruncationReason::Results));
        }
        let ghost before = deadline.answers();
        let late = deadline.expired();
        proof {
            assert forall|all: Seq<u64>| begins(deadline.answers(), all) implies begins(before, all) && is_up(all[
                before.len() as int
            ]) == late by {
                assert(all[before.len() as int] == deadline.answers()[before.len() as int]);
            }
        }
        if late {
            return (count, Some(MemoryTruncationReason::Duration));
        }
        count += 1;
    }
    proof {
        reveal(taken);
    }
    (count, reason)
}

/// What a federation cursor says; nothing where there is none. It has to be one for this operation
/// and this request.
pub open spec fn pending(
    cursor: Option<Seq<char>>,
    operation: Seq<char>,
    fingerprint: Seq<char>,
) -> Result<Option<FederationCursorPayloadView>, MemoryQueryErrorView> {
    match cursor {
        None => Ok(None),
        Some(token) => match federation_cursor_payload(token, operation, fingerprint) {
            Some(payload) => Ok(Some(payload)),
            None => Err(MemoryQueryErrorView::StaleCursor),
        },
    }
}

/// Whether a cursor that was made for this operation and this request says what it was made of.
pub open spec fn own_cursor_is_taken(
    cursor: Option<Seq<char>>,
    operation: Seq<char>,
    fingerprint: Seq<char>,
) -> bool {
    forall|revision_key: Seq<char>, offset: u64|
        cursor == Some(#[trigger] federation_cursor(operation, fingerprint, revision_key, offset))
            ==> pending(cursor, operation, fingerprint) == Ok::<_, MemoryQueryErrorView>(
            Some(
                FederationCursorPayloadView {
                    version: CURSOR_VERSION,
                    operation,
                    fingerprint,
                    revision_key,
                    offset,
                },
            ),
        )
}

/// Where a request starts.
pub open spec fn pending_offset(payload: Option<FederationCursorPayloadView>) -> u64 {
    match payload {
        Some(payload) => payload.offset,
        None => 0,
    }
}

/// Whether a request may go on with these revisions.
pub open spec fn revisions_agree(
    payload: Option<FederationCursorPayloadView>,
    key: Seq<char>,
) -> bool {
    match payload {
        Some(payload) => payload.revision_key == key,
        None => true,
    }
}

/// The answer made of what the domains found.
#[verifier::opaque]
pub open spec fn search_found(
    request: FederatedSearchRequestView,
    budget: EffectiveBudget,
    found: DomainFindings,
    payload: Option<FederationCursorPayloadView>,
    fingerprint: Seq<char>,
    answers: Seq<u64>,
) -> Result<FederatedSearchResponseView, MemoryQueryErrorView> {
    let offset = pending_offset(payload);
    let results = deduplicated::<FederatedSearchResult>(sorted::<FederatedSearchResult>(found.results));
    if !revisions_agree(payload, revisions_key(found.repository, found.memory)) || offset > results.len() {
        Err(MemoryQueryErrorView::StaleCursor)
    } else {
        let capped = wanted(offset, budget.max_results) == MAX_FEDERATION_CANDIDATES && found.more;
        let (count, reason, next) = taken(
            results.len() - offset,
            0,
            if capped {
                Some(MemoryTruncationReason::Results)
            } else {
                None
            },
            budget.max_results,
            answers,
            found.at,
        );
        search_fitted(
            FederatedSearchResponseView {
                wire_version: FEDERATION_WIRE_VERSION,
                project: request.scope.project,
                requested_domain: request.scope.target.domain(),
                repository: found.repository,
                memory: found.memory,
                federation_diagnostics: Seq::empty(),
                page: FederatedPageInfoView { next_cursor: None, truncation: None },
                results: results.skip(offset as int).take(count),
            },
            budget.max_bytes,
            reason,
            PagePlaceView {
                offset: offset as int,
                total: results.len() as int,
                fingerprint,
                revision_key: revisions_key(found.repository, found.memory),
            },
            answers,
            next,
        )
    }
}

fn answer_search<D: Deadline>(
    request: &FederatedSearchRequest,
    budget: EffectiveBudget,
    found: Findings,
    payload: &Option<FederationCursorPayload>,
    offset: usize,
    desired: usize,
    fingerprint: &str,
    deadline: &mut D,
) -> (result: Result<FederatedSearchResponse, MemoryQueryError>)
    requires
        offset == pending_offset(payload.deep_view()),
        desired == wanted(offset as u64, budget.max_results),
    ensures
        begins(old(deadline).answers(), final(deadline).answers()),
        keeps_time(*old(deadline), *final(deadline)),
        outcome(result) == search_found(
            request.deep_view(),
            budget,
            found.model(old(deadline).answers().len() as int),
            payload.deep_view(),
            fingerprint@,
            final(deadline).answers(),
        ),
{
    proof {
        reveal(search_found);
    }
    let ordered = sort(found.results);
    let results = dedup(&ordered);
    let key = revision_key(&found.repository, &found.memory);
    match validate_cursor_revision(payload.as_ref(), key.as_str()) {
        Ok(()) => {},
        Err(error) => {
            return Err(error);
        },
    }
    if offset > results.len() {
        return Err(MemoryQueryError::StaleCursor);
    }
    let capped = if candidate_cap_truncated(desired, found.more) {
        Some(MemoryTruncationReason::Results)
    } else {
        None
    };
    let (count, reason) = take(results.len() - offset, capped, budget.max_results, deadline);
    let rest = from(&results, offset);
    let diagnostics: Vec<MemoryDiagnostic> = Vec::new();
    assert(diagnostics.deep_view() =~= Seq::<MemoryDiagnosticView>::empty());
    let response = FederatedSearchResponse {
        wire_version: FEDERATION_WIRE_VERSION,
        project: request.scope.project.copied(),
        requested_domain: request.scope.target.domain(),
        repository: found.repository,
        memory: found.memory,
        federation_diagnostics: diagnostics,
        page: FederatedPageInfo { next_cursor: None, truncation: None },
        results: first(&rest, count),
    };
    let place = PagePlace {
        offset,
        total: results.len(),
        fingerprint,
        revision_key: key.as_str(),
    };
    fit_federated_search_response(response, budget.max_bytes, reason, &place, deadline)
}

/// The records from one on.
pub fn from<T: Record>(records: &Vec<T>, start: usize) -> (result: Vec<T>)
    requires
        start <= records.len(),
    ensures
        result.deep_view() == records.deep_view().skip(start as int),
        result.len() == records.len() - start,
{
    let mut result: Vec<T> = Vec::new();
    let mut at: usize = start;
    assert(result.deep_view() =~= records.deep_view().subrange(start as int, start as int));
    while at < records.len()
        invariant
            start <= at <= records.len(),
            result.len() == at - start,
            result.deep_view() == records.deep_view().subrange(start as int, at as int),
        decreases records.len() - at,
    {
        let ghost before = result.deep_view();
        result.push(records[at].copied());
        assert(result.deep_view() =~= before.push(records@[at as int].deep_view()));
        assert(result.deep_view() =~= records.deep_view().subrange(start as int, at + 1));
        at += 1;
    }
    assert(records.deep_view().subrange(start as int, at as int) =~= records.deep_view().skip(start as int));
    result
}

/// How many results the domains are asked for.
pub open spec fn results_wanted(
    request: FederatedSearchRequestView,
    limits: QueryLimitsConfigView,
) -> int {
    match pending(request.cursor, "search"@, search_identity(request)) {
        Ok(payload) => wanted(
            pending_offset(payload),
            effective(request.scope.budget, limits).max_results,
        ) as int,
        Err(_) => 0,
    }
}

/// The answer to a federated search, given what the domains said.
pub open spec fn federated_search_answer(
    request: FederatedSearchRequestView,
    limits: QueryLimitsConfigView,
    repository: Seq<(SearchRequestView, Result<SearchResponseView, QueryErrorCode>)>,
    repository_from: int,
    memory: Seq<(MemorySearchRequestView, Result<MemorySearchResponseView, MemoryQueryErrorView>)>,
    memory_from: int,
    answers: Seq<u64>,
    at: int,
) -> Result<FederatedSearchResponseView, MemoryQueryErrorView> {
    if request.scope.wire_version != FEDERATION_WIRE_VERSION {
        Err(backend("federation.wireversion"@))
    } else {
        let budget = effective(request.scope.budget, limits);
        let fingerprint = search_identity(request);
        match pending(request.cursor, "search"@, fingerprint) {
            Err(error) => Err(error),
            Ok(payload) => if pending_offset(payload) > usize::MAX {
                Err(MemoryQueryErrorView::StaleCursor)
            } else {
                match findings(
                    request.scope.target,
                    repository,
                    repository_from,
                    memory,
                    memory_from,
                    wanted(pending_offset(payload), budget.max_results),
                    answers,
                    at,
                ) {
                    Err(error) => Err(error),
                    Ok(found) => {
                        search_found(request, budget, found, payload, fingerprint, answers)
                    },
                }
            },
        }
    }
}

/// Searches the domains that a request names. What a domain says is taken page by page.
pub fn federated_search<R: GraphQuery, M: MemoryQuery, D: Deadline>(
    repository: &mut R,
    memory: &mut M,
    limits: &QueryLimitsConfig,
    freshness: &Option<MemoryFreshnessComparison>,
    request: &FederatedSearchRequest,
    deadline: &mut D,
) -> (result: Result<FederatedSearchResponse, MemoryQueryError>)
    ensures
        request.deep_view().scope.wire_version == FEDERATION_WIRE_VERSION ==> own_cursor_is_taken(
            request.deep_view().cursor,
            "search"@,
            search_identity(request.deep_view()),
        ),
        begins(old(deadline).answers(), final(deadline).answers()),
        keeps_time(*old(deadline), *final(deadline)),
        begins(old(repository).searches(), final(repository).searches()),
        begins(old(memory).searches(), final(memory).searches()),
        final(repository).contexts() == old(repository).contexts(),
        final(repository).statuses() == old(repository).statuses(),
        final(memory).contexts() == old(memory).contexts(),
        final(memory).statuses() == old(memory).statuses(),
        asked_for_search(
            request.deep_view(),
            effective(request.deep_view().scope.budget, limits.deep_view()),
            freshness.deep_view(),
            final(repository).searches(),
            old(repository).searches().len() as int,
            final(memory).searches(),
            old(memory).searches().len() as int,
            results_wanted(request.deep_view(), limits.deep_view()),
            final(deadline).answers(),
            old(deadline).answers().len() as int,
        ),
        result is Ok ==> all_was_read(
            request.deep_view().scope.target,
            final(repository).searches(),
            old(repository).searches().len() as int,
            final(memory).searches(),
            old(memory).searches().len() as int,
            results_wanted(request.deep_view(), limits.deep_view()),
            final(deadline).answers(),
            old(deadline).answers().len() as int,
        ),
        outcome(result) == federated_search_answer(
            request.deep_view(),
            limits.deep_view(),
            final(repository).searches(),
            old(repository).searches().len() as int,
            final(memory).searches(),
            old(memory).searches().len() as int,
            final(deadline).answers(),
            old(deadline).answers().len() as int,
        ),
{
    match validate_federation_version(request.scope.wire_version) {
        Ok(()) => {},
        Err(error) => {
            return Err(error);
        },
    }
    let budget = EffectiveBudget::new(&request.scope.budget, limits);
    let fingerprint = federated_search_fingerprint(request);
    let payload = match decode_federation_cursor(
        request.cursor.as_ref(),
        "search",
        fingerprint.as_str(),
    ) {
        Ok(payload) => payload,
        Err(error) => {
            return Err(error);
        },
    };
    let offset: u64 = match &payload {
        Some(payload) => payload.offset,
        None => 0,
    };
    if offset > usize::MAX as u64 {
        return Err(MemoryQueryError::StaleCursor);
    }
    let desired = desired_results(offset, budget.max_results);
    let found = look(repository, memory, request, budget, freshness, desired, deadline);
    assert(begins(deadline.answers(), deadline.answers()));
    match found {
        Ok(found) => answer_search(
            request,
            budget,
            found,
            &payload,
            offset as usize,
            desired,
            fingerprint.as_str(),
            deadline,
        ),
        Err(error) => Err(error),
    }
}

}
