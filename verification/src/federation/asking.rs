//! Asking the domains for context, and for the links between them.
use vstd::prelude::*;
use crate::budget::{backend, backend_error, EffectiveBudget};
use crate::deadline::{begins, keeps_time, Deadline};
use crate::diagnostics::{
    diagnostic_code, MemoryDiagnostic, MemoryDiagnosticMetrics, MemoryDiagnosticMetricsView,
    MemoryDiagnosticSeverity, MemoryDiagnosticView,
};
use crate::domain::{
    MemoryBuildId, MemoryRelationship, MemoryRelationshipView, MemoryRepositoryLinkSetView,
    MemoryRevisionId, ProjectRef, ProjectRefView,
};
use crate::federation::fitting::first;
use crate::federation::gathering::{
    gather, gather_memory_context, gather_repository_context, memory_context_asked,
    memory_context_pages, memory_context_relationships, repository_context_asked,
    repository_context_pages, repository_context_snippets,
};
use crate::federation::seeds::{distinct, sort_and_dedup};
use crate::federation::state::{is_exact, selected_exactly, selected_for, MAX_FEDERATION_CANDIDATES};
use crate::federation::{RepositoryContextTarget, RepositoryContextTargetView};
use crate::order::values_in_order;
use crate::ports::{
    BoundedRepositoryLinksView, GraphQuery, LinkSetRequest, LinkSetRequestView, LinksRequest,
    LinksRequestView, MemoryLinkStore, MemoryQuery,
};
use crate::query::{
    MemoryContextItem, MemoryContextItemView, MemoryContextPolicy, MemoryContextPolicyView,
    MemoryContextRequest, MemoryContextRequestView, MemoryContextResponse,
    MemoryContextResponseView, MemoryContextSeed, MemoryContextSeedView, MemoryFreshnessComparison,
    MemoryFreshnessComparisonView, MemoryPageInfoView, MemoryPageRequest, MemoryPageRequestView,
    MemoryQueryError, MemoryQueryErrorView, MemoryQueryScope, MemoryQueryScopeView,
    MemoryRevisionSelector, MemoryRevisionSelectorView, MemoryTruncationView,
};
use crate::record::{outcome, Record};
use crate::repository::{
    ContextItem, ContextItemView, ContextPolicy, ContextPolicyView, ContextRequest,
    ContextRequestView, ContextResponse, ContextResponseView, ContextSeed, ContextSeedView,
    ContextSnippet, ContextSnippetView, PageInfoView, QueryErrorCode, QueryScope, QueryScopeView,
    SnapshotId, TruncationView,
};
use crate::scope::ReadFailure;
use crate::seeds::{merge_relationships, relationships_by_id};
use crate::MEMORY_QUERY_WIRE_VERSION;

verus! {

/// What a domain was asked for context: what it said, if it was asked, and how many pages of it and
/// answers of the deadline are known then.
pub struct AskedContext<T> {
    pub response: Option<T>,
    pub pages: int,
    pub at: int,
}

/// The repository items that are seeds.
pub open spec fn exact_items(items: Seq<ContextItemView>) -> Seq<ContextItemView>
    decreases items.len(),
{
    if items.len() == 0 {
        items
    } else {
        let rest = exact_items(items.drop_last());
        if is_exact(items.last().selection_reasons) {
            rest.push(items.last())
        } else {
            rest
        }
    }
}

/// Whether one of the items stands at a path.
pub open spec fn has_path(items: Seq<ContextItemView>, path: Seq<char>) -> bool {
    exists|i: int| 0 <= i < items.len() && (#[trigger] items[i]).path == path
}

/// The snippets at the paths of some items.
pub open spec fn snippets_at(
    snippets: Seq<ContextSnippetView>,
    items: Seq<ContextItemView>,
) -> Seq<ContextSnippetView>
    decreases snippets.len(),
{
    if snippets.len() == 0 {
        snippets
    } else {
        let rest = snippets_at(snippets.drop_last(), items);
        if has_path(items, snippets.last().path) {
            rest.push(snippets.last())
        } else {
            rest
        }
    }
}

/// A repository answer that goes no further than its seeds.
pub open spec fn repository_seeds_only(response: ContextResponseView) -> ContextResponseView {
    let items = exact_items(response.items);
    ContextResponseView {
        items,
        snippets: snippets_at(response.snippets, items),
        page: PageInfoView {
            truncation: match response.page.truncation {
                Some(truncation) => Some(TruncationView { explored_depth: 0, ..truncation }),
                None => None,
            },
            ..response.page
        },
        ..response
    }
}

fn keep_exact(items: &Vec<ContextItem>) -> (kept: Vec<ContextItem>)
    ensures
        kept.deep_view() == exact_items(items.deep_view()),
{
    let mut kept: Vec<ContextItem> = Vec::new();
    let mut at: usize = 0;
    assert(kept.deep_view() =~= exact_items(items.deep_view().take(0)));
    while at < items.len()
        invariant
            at <= items.len(),
            kept.deep_view() == exact_items(items.deep_view().take(at as int)),
        decreases items.len() - at,
    {
        proof {
            let next = items.deep_view().take(at + 1);
            assert(next.drop_last() =~= items.deep_view().take(at as int));
            assert(next.last() == items@[at as int].deep_view());
        }
        if selected_exactly(&items[at].selection_reasons) {
            let ghost before = kept.deep_view();
            kept.push(items[at].copied());
            assert(kept.deep_view() =~= before.push(items@[at as int].deep_view()));
        }
        at += 1;
    }
    assert(items.deep_view().take(at as int) =~= items.deep_view());
    kept
}

fn stands_at(items: &Vec<ContextItem>, snippet: &ContextSnippet) -> (found: bool)
    ensures
        found == has_path(items.deep_view(), snippet.deep_view().path),
{
    let mut at: usize = 0;
    while at < items.len()
        invariant
            at <= items.len(),
            forall|i: int| 0 <= i < at ==> (#[trigger] items.deep_view()[i]).path != snippet.deep_view().path,
        decreases items.len() - at,
    {
        assert(items.deep_view()[at as int].path == items@[at as int].path.deep_view());
        if items[at].path.same(&snippet.path) {
            return true;
        }
        at += 1;
    }
    false
}

fn keep_snippets(
    snippets: &Vec<ContextSnippet>,
    items: &Vec<ContextItem>,
) -> (kept: Vec<ContextSnippet>)
    ensures
        kept.deep_view() == snippets_at(snippets.deep_view(), items.deep_view()),
{
    let mut kept: Vec<ContextSnippet> = Vec::new();
    let mut at: usize = 0;
    assert(kept.deep_view() =~= snippets_at(snippets.deep_view().take(0), items.deep_view()));
    while at < snippets.len()
        invariant
            at <= snippets.len(),
            kept.deep_view() == snippets_at(snippets.deep_view().take(at as int), items.deep_view()),
        decreases snippets.len() - at,
    {
        proof {
            let next = snippets.deep_view().take(at + 1);
            assert(next.drop_last() =~= snippets.deep_view().take(at as int));
            assert(next.last() == snippets@[at as int].deep_view());
        }
        if stands_at(items, &snippets[at]) {
            let ghost before = kept.deep_view();
            kept.push(snippets[at].copied());
            assert(kept.deep_view() =~= before.push(snippets@[at as int].deep_view()));
        }
        at += 1;
    }
    assert(snippets.deep_view().take(at as int) =~= snippets.deep_view());
    kept
}

/// What is asked of the repository for context.
pub open spec fn repository_question(
    target: RepositoryContextTargetView,
    policy: ContextPolicyView,
    seeds: Seq<ContextSeedView>,
    budget: EffectiveBudget,
) -> ContextRequestView {
    ContextRequestView {
        scope: QueryScopeView {
            repository: target.repository,
            snapshot: target.snapshot,
            budget: budget.for_repository(),
        },
        seeds: distinct::<ContextSeed>(seeds),
        policy,
        cursor: None,
    }
}

/// What the repository says about some seeds: all its pages in one. Without a seed it is not asked,
/// and without depth the answer goes no further than the seeds.
#[verifier::opaque]
pub open spec fn repository_says(
    log: Seq<(ContextRequestView, Result<ContextResponseView, QueryErrorCode>)>,
    from: int,
    seeds: Seq<ContextSeedView>,
    max_depth: u32,
    desired: int,
    answers: Seq<u64>,
    at: int,
) -> Result<AskedContext<ContextResponseView>, MemoryQueryErrorView> {
    if seeds.len() == 0 {
        Ok(AskedContext { response: None, pages: from, at })
    } else {
        match gather(
            repository_context_pages(log),
            from,
            true,
            Seq::empty(),
            false,
            desired,
            answers,
            at,
        ) {
            Err(error) => Err(error),
            Ok(gathered) => {
                let last = log[gathered.pages - 1].1->Ok_0;
                let whole = ContextResponseView {
                    items: gathered.items,
                    snippets: repository_context_snippets(log, from, gathered.pages),
                    ..last
                };
                Ok(
                    AskedContext {
                        response: Some(
                            if max_depth == 0 {
                                repository_seeds_only(whole)
                            } else {
                                whole
                            },
                        ),
                        pages: gathered.pages,
                        at: gathered.at,
                    },
                )
            },
        }
    }
}

/// What asking came to.
pub open spec fn heard<T: DeepView>(
    result: Result<Option<T>, MemoryQueryError>,
    pages: int,
    at: int,
) -> Result<AskedContext<T::V>, MemoryQueryErrorView> {
    match result {
        Ok(response) => Ok(AskedContext { response: response.deep_view(), pages, at }),
        Err(error) => Err(error.deep_view()),
    }
}

/// Asks the repository about some seeds.
pub fn repository_context<R: GraphQuery, D: Deadline>(
    repository: &mut R,
    target: &RepositoryContextTarget,
    policy: &ContextPolicy,
    seeds: Vec<ContextSeed>,
    budget: EffectiveBudget,
    desired: usize,
    deadline: &mut D,
) -> (result: Result<Option<ContextResponse>, MemoryQueryError>)
    ensures
        begins(old(deadline).answers(), final(deadline).answers()),
        keeps_time(*old(deadline), *final(deadline)),
        begins(old(repository).contexts(), final(repository).contexts()),
        final(repository).statuses() == old(repository).statuses(),
        final(repository).searches() == old(repository).searches(),
        forall|at: int|
            old(repository).contexts().len() <= at < final(repository).contexts().len()
                ==> #[trigger] repository_context_asked(
                repository_question(
                    target.deep_view(),
                    policy.deep_view(),
                    seeds.deep_view(),
                    budget,
                ),
                final(repository).contexts(),
                old(repository).contexts().len() as int,
                at,
                final(deadline).answers(),
                old(deadline).answers().len() as int,
            ),
        forall|all: Seq<u64>, log: Seq<(ContextRequestView, Result<ContextResponseView, QueryErrorCode>)>|
            begins(final(deadline).answers(), all) && begins(final(repository).contexts(), log)
                ==> #[trigger] repository_says(
                log,
                old(repository).contexts().len() as int,
                seeds.deep_view(),
                budget.max_depth,
                desired as int,
                all,
                old(deadline).answers().len() as int,
            ) == heard(
                result,
                final(repository).contexts().len() as int,
                final(deadline).answers().len() as int,
            ),
{
    proof {
        reveal(repository_says);
    }
    if seeds.len() == 0 {
        return Ok(None);
    }
    let ghost from = repository.contexts().len() as int;
    let request = ContextRequest {
        scope: QueryScope {
            repository: target.repository.copied(),
            snapshot: target.snapshot.copied(),
            budget: budget.repository_budget(),
        },
        seeds: sort_and_dedup(seeds),
        policy: policy.copied(),
        cursor: None,
    };
    assert(request.deep_view() == repository_question(
        target.deep_view(),
        policy.deep_view(),
        seeds.deep_view(),
        budget,
    ));
    let (last, items, snippets) = match gather_repository_context(repository, &request, desired, deadline) {
        Ok((last, items, snippets, _)) => (last, items, snippets),
        Err(error) => {
            return Err(error);
        },
    };
    proof {
        let known = repository.contexts();
        assert forall|log: Seq<(ContextRequestView, Result<ContextResponseView, QueryErrorCode>)>|
            begins(known, log) implies #[trigger] repository_context_snippets(log, from, known.len() as int)
            == snippets.deep_view() && log[known.len() - 1].1 == Ok::<_, QueryErrorCode>(last.deep_view()) by {
            crate::federation::gathering::repository_context_snippets_are_kept(
                known,
                log,
                from,
                known.len() as int,
            );
            assert(log[known.len() - 1] == known[known.len() - 1]);
        }
    }
    let mut response = last;
    response.items = items;
    response.snippets = snippets;
    if budget.max_depth == 0 {
        let items = keep_exact(&response.items);
        response.snippets = keep_snippets(&response.snippets, &items);
        response.items = items;
        if let Some(truncation) = &response.page.truncation {
            let mut shallow = truncation.copied();
            shallow.explored_depth = 0;
            response.page.truncation = Some(shallow);
        }
    }
    Ok(Some(response))
}

/// The memory items that are seeds.
pub open spec fn seed_items(items: Seq<MemoryContextItemView>) -> Seq<MemoryContextItemView>
    decreases items.len(),
{
    if items.len() == 0 {
        items
    } else {
        let rest = seed_items(items.drop_last());
        if items.last().selection_reasons.contains("context.seed"@) {
            rest.push(items.last())
        } else {
            rest
        }
    }
}

/// A memory answer that goes no further than its seeds.
pub open spec fn memory_seeds_only(
    response: MemoryContextResponseView,
) -> MemoryContextResponseView {
    MemoryContextResponseView {
        items: seed_items(response.items),
        relationships: Seq::empty(),
        page: MemoryPageInfoView {
            truncation: match response.page.truncation {
                Some(truncation) => Some(MemoryTruncationView { explored_depth: 0, ..truncation }),
                None => None,
            },
            ..response.page
        },
        ..response
    }
}

fn keep_seeds(items: &Vec<MemoryContextItem>) -> (kept: Vec<MemoryContextItem>)
    ensures
        kept.deep_view() == seed_items(items.deep_view()),
{
    let mut kept: Vec<MemoryContextItem> = Vec::new();
    let mut at: usize = 0;
    assert(kept.deep_view() =~= seed_items(items.deep_view().take(0)));
    while at < items.len()
        invariant
            at <= items.len(),
            kept.deep_view() == seed_items(items.deep_view().take(at as int)),
        decreases items.len() - at,
    {
        proof {
            let next = items.deep_view().take(at + 1);
            assert(next.drop_last() =~= items.deep_view().take(at as int));
            assert(next.last() == items@[at as int].deep_view());
        }
        if selected_for(&items[at].selection_reasons, "context.seed") {
            let ghost before = kept.deep_view();
            kept.push(items[at].copied());
            assert(kept.deep_view() =~= before.push(items@[at as int].deep_view()));
        }
        at += 1;
    }
    assert(items.deep_view().take(at as int) =~= items.deep_view());
    kept
}

/// What is asked of the memory for context.
pub open spec fn memory_question(
    project: ProjectRefView,
    selector: MemoryRevisionSelectorView,
    policy: MemoryContextPolicyView,
    seeds: Seq<MemoryContextSeedView>,
    budget: EffectiveBudget,
    freshness: Option<MemoryFreshnessComparisonView>,
) -> MemoryContextRequestView {
    MemoryContextRequestView {
        scope: MemoryQueryScopeView {
            wire_version: MEMORY_QUERY_WIRE_VERSION,
            project,
            revision: selector,
            budget: budget.for_memory(),
            freshness_comparison: freshness,
        },
        seeds: distinct::<MemoryContextSeed>(seeds),
        policy,
        page: MemoryPageRequestView { cursor: None },
    }
}

/// What the memory says about some seeds: all its pages in one. Without a seed it is not asked, and
/// without depth the answer goes no further than the seeds.
#[verifier::opaque]
pub open spec fn memory_says(
    log: Seq<(MemoryContextRequestView, Result<MemoryContextResponseView, MemoryQueryErrorView>)>,
    from: int,
    seeds: Seq<MemoryContextSeedView>,
    max_depth: u32,
    desired: int,
    answers: Seq<u64>,
    at: int,
) -> Result<AskedContext<MemoryContextResponseView>, MemoryQueryErrorView> {
    if seeds.len() == 0 {
        Ok(AskedContext { response: None, pages: from, at })
    } else {
        match gather(
            memory_context_pages(log),
            from,
            true,
            Seq::empty(),
            false,
            desired,
            answers,
            at,
        ) {
            Err(error) => Err(error),
            Ok(gathered) => {
                let last = log[gathered.pages - 1].1->Ok_0;
                let whole = MemoryContextResponseView {
                    items: gathered.items,
                    relationships: values_in_order(
                        relationships_by_id(memory_context_relationships(log, from, gathered.pages)),
                    ),
                    ..last
                };
                Ok(
                    AskedContext {
                        response: Some(
                            if max_depth == 0 {
                                memory_seeds_only(whole)
                            } else {
                                whole
                            },
                        ),
                        pages: gathered.pages,
                        at: gathered.at,
                    },
                )
            },
        }
    }
}

/// Asks the memory about some seeds.
pub fn memory_context<M: MemoryQuery, D: Deadline>(
    memory: &mut M,
    project: &ProjectRef,
    selector: &MemoryRevisionSelector,
    policy: &MemoryContextPolicy,
    seeds: Vec<MemoryContextSeed>,
    budget: EffectiveBudget,
    freshness: &Option<MemoryFreshnessComparison>,
    desired: usize,
    deadline: &mut D,
) -> (result: Result<Option<MemoryContextResponse>, MemoryQueryError>)
    ensures
        begins(old(deadline).answers(), final(deadline).answers()),
        keeps_time(*old(deadline), *final(deadline)),
        begins(old(memory).contexts(), final(memory).contexts()),
        final(memory).statuses() == old(memory).statuses(),
        final(memory).searches() == old(memory).searches(),
        forall|at: int|
            old(memory).contexts().len() <= at < final(memory).contexts().len()
                ==> #[trigger] memory_context_asked(
                memory_question(
                    project.deep_view(),
                    selector.deep_view(),
                    policy.deep_view(),
                    seeds.deep_view(),
                    budget,
                    freshness.deep_view(),
                ),
                final(memory).contexts(),
                old(memory).contexts().len() as int,
                at,
                final(deadline).answers(),
                old(deadline).answers().len() as int,
            ),
        forall|
            all: Seq<u64>,
            log: Seq<(MemoryContextRequestView, Result<MemoryContextResponseView, MemoryQueryErrorView>)>,
        |
            begins(final(deadline).answers(), all) && begins(final(memory).contexts(), log)
                ==> #[trigger] memory_says(
                log,
                old(memory).contexts().len() as int,
                seeds.deep_view(),
                budget.max_depth,
                desired as int,
                all,
                old(deadline).answers().len() as int,
            ) == heard(
                result,
                final(memory).contexts().len() as int,
                final(deadline).answers().len() as int,
            ),
{
    proof {
        reveal(memory_says);
    }
    if seeds.len() == 0 {
        return Ok(None);
    }
    let ghost from = memory.contexts().len() as int;
    let mut scope = MemoryQueryScope::current(
        project.copied(),
        selector.copied(),
        budget.memory_budget(),
    );
    scope.freshness_comparison = freshness.copied();
    let request = MemoryContextRequest {
        scope,
        seeds: sort_and_dedup(seeds),
        policy: policy.copied(),
        page: MemoryPageRequest::default(),
    };
    assert(request.deep_view() == memory_question(
        project.deep_view(),
        selector.deep_view(),
        policy.deep_view(),
        seeds.deep_view(),
        budget,
        freshness.deep_view(),
    ));
    let (last, items, relationships) = match gather_memory_context(memory, &request, desired, deadline) {
        Ok((last, items, relationships, _)) => (last, items, relationships),
        Err(error) => {
            return Err(error);
        },
    };
    proof {
        let known = memory.contexts();
        assert forall|
            log: Seq<(MemoryContextRequestView, Result<MemoryContextResponseView, MemoryQueryErrorView>)>,
        | begins(known, log) implies #[trigger] memory_context_relationships(log, from, known.len() as int)
            == relationships.deep_view() && log[known.len() - 1].1 == Ok::<_, MemoryQueryErrorView>(
            last.deep_view(),
        ) by {
            crate::federation::gathering::memory_context_relationships_are_kept(
                known,
                log,
                from,
                known.len() as int,
            );
            assert(log[known.len() - 1] == known[known.len() - 1]);
        }
    }
    let none: Vec<MemoryRelationship> = Vec::new();
    let mut response = last;
    response.items = items;
    response.relationships = merge_relationships(&relationships, &none);
    if budget.max_depth == 0 {
        response.items = keep_seeds(&response.items);
        response.relationships = Vec::new();
        assert(response.relationships.deep_view() =~= Seq::<MemoryRelationshipView>::empty());
        if let Some(truncation) = &response.page.truncation {
            let mut shallow = truncation.copied();
            shallow.explored_depth = 0;
            response.page.truncation = Some(shallow);
        }
    }
    Ok(Some(response))
}

/// The links between the domains: as many as could be read, what was noticed, and whether some are
/// missing because there are too many or because the time was over.
pub struct DomainLinks {
    pub relationships: Vec<MemoryRelationship>,
    pub diagnostics: Vec<MemoryDiagnostic>,
    pub truncated: bool,
    pub late: bool,
}

/// The model of [`DomainLinks`].
pub struct DomainLinksView {
    pub relationships: Seq<MemoryRelationshipView>,
    pub diagnostics: Seq<MemoryDiagnosticView>,
    pub truncated: bool,
    pub late: bool,
}

impl DeepView for DomainLinks {
    type V = DomainLinksView;

    open spec fn deep_view(&self) -> DomainLinksView {
        DomainLinksView {
            relationships: self.relationships.deep_view(),
            diagnostics: self.diagnostics.deep_view(),
            truncated: self.truncated,
            late: self.late,
        }
    }
}

/// That a revision has no links to a snapshot.
pub open spec fn links_missing(
    revision_id: Seq<char>,
    build_id: Seq<char>,
) -> MemoryDiagnosticView {
    MemoryDiagnosticView {
        build_id,
        revision_id,
        severity: MemoryDiagnosticSeverity::Warning,
        code: "federation.linksunavailable"@,
        source_category: None,
        entity_id: None,
        relationship_id: None,
        metrics: MemoryDiagnosticMetricsView { entries: Seq::empty() },
    }
}

fn no_metrics() -> (metrics: MemoryDiagnosticMetrics)
    ensures
        metrics.deep_view() == (MemoryDiagnosticMetricsView { entries: Seq::empty() }),
{
    let metrics = MemoryDiagnosticMetrics { entries: Vec::new() };
    assert(metrics.deep_view().entries =~= Seq::empty());
    metrics
}

/// The first so many of some diagnostics.
pub open spec fn at_most(
    diagnostics: Seq<MemoryDiagnosticView>,
    max: u32,
) -> Seq<MemoryDiagnosticView> {
    if diagnostics.len() <= max {
        diagnostics
    } else {
        diagnostics.take(max as int)
    }
}

/// The links between the domains, given what the link store said.
pub open spec fn links_found(
    revision_id: Seq<char>,
    build_id: Option<Seq<char>>,
    max_diagnostics: u32,
    set: Result<Option<MemoryRepositoryLinkSetView>, ReadFailure>,
    links: Result<BoundedRepositoryLinksView, ReadFailure>,
) -> Result<DomainLinksView, MemoryQueryErrorView> {
    match set {
        Err(_) => Err(backend("federation.linksunavailable"@)),
        Ok(None) => Ok(
            DomainLinksView {
                relationships: Seq::empty(),
                diagnostics: match build_id {
                    Some(build_id) => Seq::empty().push(links_missing(revision_id, build_id)),
                    None => Seq::empty(),
                },
                truncated: false,
                late: false,
            },
        ),
        Ok(Some(_)) => match links {
            Err(_) => Err(backend("federation.linksunavailable"@)),
            Ok(bounded) => Ok(
                DomainLinksView {
                    relationships: bounded.relationships,
                    diagnostics: at_most(bounded.diagnostics, max_diagnostics),
                    truncated: bounded.truncated,
                    late: bounded.duration_exceeded,
                },
            ),
        },
    }
}

/// Reads the links of a revision to a snapshot of a repository: exactly those of the set that was
/// resolved against this snapshot.
pub fn exact_links<L: MemoryLinkStore>(
    links: &mut L,
    revision_id: &MemoryRevisionId,
    build_id: &Option<MemoryBuildId>,
    target: &RepositoryContextTarget,
    snapshot_id: &Option<SnapshotId>,
    max_duration_ms: u64,
    max_diagnostics: u32,
) -> (result: Result<DomainLinks, MemoryQueryError>)
    ensures
        final(links).set_reads().len() == old(links).set_reads().len() + 1,
        begins(old(links).set_reads(), final(links).set_reads()),
        final(links).set_reads().last().0 == (LinkSetRequestView {
            revision_id: revision_id.deep_view(),
            repository: target.deep_view().repository,
            snapshot_id: snapshot_id.deep_view(),
        }),
        begins(old(links).link_reads(), final(links).link_reads()),
        match final(links).set_reads().last().1 {
            Ok(Some(set)) => final(links).link_reads().len() == old(links).link_reads().len() + 1
                && final(links).link_reads().last().0 == (LinksRequestView {
                link_set_id: set.id,
                max_links: MAX_FEDERATION_CANDIDATES as u32,
                max_diagnostics,
                max_duration_ms,
            }),
            _ => final(links).link_reads() == old(links).link_reads(),
        },
        outcome(result) == links_found(
            revision_id.deep_view(),
            build_id.deep_view(),
            max_diagnostics,
            final(links).set_reads().last().1,
            final(links).link_reads().last().1,
        ),
{
    let request = LinkSetRequest {
        revision_id: revision_id.copied(),
        repository: target.repository.copied(),
        snapshot_id: snapshot_id.copied(),
    };
    proof {
        reveal_strlit("federation.linksunavailable");
    }
    let set = match links.repository_link_set_for_snapshot(&request) {
        Ok(set) => set,
        Err(_) => {
            return Err(backend_error("federation.linksunavailable"));
        },
    };
    let set = match set {
        Some(set) => set,
        None => {
            let mut diagnostics: Vec<MemoryDiagnostic> = Vec::new();
            assert(diagnostics.deep_view() =~= Seq::<MemoryDiagnosticView>::empty());
            if let Some(build_id) = build_id {
                let missing = MemoryDiagnostic {
                    build_id: build_id.copied(),
                    revision_id: revision_id.copied(),
                    severity: MemoryDiagnosticSeverity::Warning,
                    code: diagnostic_code("federation.linksunavailable"),
                    source_category: None,
                    entity_id: None,
                    relationship_id: None,
                    metrics: no_metrics(),
                };
                diagnostics.push(missing);
                assert(diagnostics.deep_view() =~= Seq::empty().push(missing.deep_view()));
            }
            let relationships: Vec<MemoryRelationship> = Vec::new();
            assert(relationships.deep_view() =~= Seq::<MemoryRelationshipView>::empty());
            return Ok(DomainLinks { relationships, diagnostics, truncated: false, late: false });
        },
    };
    let request = LinksRequest {
        link_set_id: set.id.copied(),
        max_links: MAX_FEDERATION_CANDIDATES as u32,
        max_diagnostics,
        max_duration_ms,
    };
    match links.bounded_repository_links(&request) {
        Ok(bounded) => {
            let diagnostics = if bounded.diagnostics.len() > max_diagnostics as usize {
                first(&bounded.diagnostics, max_diagnostics as usize)
            } else {
                bounded.diagnostics
            };
            Ok(
                DomainLinks {
                    relationships: bounded.relationships,
                    diagnostics,
                    truncated: bounded.truncated,
                    late: bounded.duration_exceeded,
                },
            )
        },
        Err(_) => Err(backend_error("federation.linksunavailable")),
    }
}

}
