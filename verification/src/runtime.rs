//! The memory of the project at hand: what may be asked of it, and what is answered while a part of
//! it is missing.
use vstd::prelude::*;
use crate::budget::{backend, default_budget, zero_limit};
use crate::domain::{
    AuthorizedSourceManifest, MemoryViewName, ProjectRef, ProjectRefView, MAX_ID_BYTES,
};
use crate::federation::{
    ContextDomain, FederatedContextResponse, FederatedContextResponseView, FederatedScope,
    FederatedScopeView, FederatedSearchResponse, FederatedSearchResponseView, FederatedTarget,
    FederatedTargetView, RepositoryContextTarget, RepositoryContextTargetView,
    RepositoryDomainState, RepositoryDomainStateView,
};
use crate::index::{MemoryIndexError, PROJECT_VIEW};
use crate::policy::default_policy;
use crate::ports::{
    BoundedRepositoryLinks, BoundedRepositoryLinksView, GraphQuery, LinkSetRequest,
    LinkSetRequestView, LinksRequest, LinksRequestView, MemoryLinkStore, MemoryQuery,
};
use crate::query::{
    MemoryAvailability, MemoryContextRequest, MemoryContextRequestView, MemoryContextResponse,
    MemoryContextResponseView, MemoryFreshnessComparison, MemoryQueryBudget, MemoryQueryBudgetView,
    MemoryQueryError, MemoryQueryErrorView, MemoryQueryScope, MemoryQueryScopeView,
    MemoryRetrievalAction, MemoryRevisionSelector, MemoryRevisionSelectorView, MemorySearchRequest,
    MemorySearchRequestView, MemorySearchResponse, MemorySearchResponseView, MemoryStatusData,
    MemoryStatusDataView, MemoryStatusRequest, MemoryStatusRequestView, MemoryStatusResponse,
    MemoryStatusResponseView,
};
use crate::domain::{MemoryRepositoryLinkSet, MemoryRepositoryLinkSetView};
use crate::record::{outcome, Record};
use crate::repository::{
    ContextRequest, ContextRequestView, ContextResponse, ContextResponseView, QueryErrorCode,
    QueryLimitsConfig, QueryLimitsConfigView, QueryScope, QueryScopeView, SearchRequest,
    SearchRequestView, SearchResponse, SearchResponseView, StatusResponse, StatusResponseView,
    TaskViewEnvelope, TaskViewEnvelopeView,
};
use crate::scope::{not_compared, unknown_freshness, ReadFailure};
use crate::status::source_policy_status;
use crate::store::QueryReadiness;
use crate::value::{NonZeroU32, NonZeroU64};
use crate::{FEDERATION_WIRE_VERSION, MEMORY_QUERY_WIRE_VERSION};

verus! {

/// A limit that a caller may choose.
#[derive(Debug, Clone, Copy, PartialEq, Eq, Structural)]
pub enum BudgetField {
    MaxResults,
    MaxBytes,
    MaxSnippetBytes,
    MaxDepth,
    MaxDurationMs,
    MaxDiagnostics,
}

impl BudgetField {
    /// What is wrong with a limit of nothing, in words.
    pub fn message(self) -> (text: &'static str)
        ensures
            text@ == match self {
                BudgetField::MaxResults => "max_results must be greater than zero"@,
                BudgetField::MaxBytes => "max_bytes must be greater than zero"@,
                BudgetField::MaxSnippetBytes => "max_snippet_bytes must be greater than zero"@,
                BudgetField::MaxDepth => "max_depth must be greater than zero"@,
                BudgetField::MaxDurationMs => "max_duration_ms must be greater than zero"@,
                BudgetField::MaxDiagnostics => "max_diagnostics must be greater than zero"@,
            },
    {
        match self {
            BudgetField::MaxResults => "max_results must be greater than zero",
            BudgetField::MaxBytes => "max_bytes must be greater than zero",
            BudgetField::MaxSnippetBytes => "max_snippet_bytes must be greater than zero",
            BudgetField::MaxDepth => "max_depth must be greater than zero",
            BudgetField::MaxDurationMs => "max_duration_ms must be greater than zero",
            BudgetField::MaxDiagnostics => "max_diagnostics must be greater than zero",
        }
    }
}

/// The limits that a caller chose.
#[derive(Debug, Clone, Copy, PartialEq, Eq, Structural)]
pub struct ChosenLimits {
    pub max_results: Option<u32>,
    pub max_bytes: Option<u64>,
    pub max_snippet_bytes: Option<u64>,
    pub max_depth: Option<u32>,
    pub max_duration_ms: Option<u64>,
    pub max_diagnostics: Option<u32>,
}

/// Why there is no budget.
#[derive(Debug, PartialEq, Eq)]
pub enum RequestedBudgetError {
    /// The limits of the project allow nothing.
    Limits(MemoryQueryError),
    /// A limit that was chosen allows nothing.
    Zero(BudgetField),
}

/// A number that was chosen, or else the one that is usual.
pub open spec fn chosen_u32(chosen: Option<u32>, usual: u32) -> u32 {
    match chosen {
        Some(value) => value,
        None => usual,
    }
}

/// A number that was chosen, or else the one that is usual.
pub open spec fn chosen_u64(chosen: Option<u64>, usual: u64) -> u64 {
    match chosen {
        Some(value) => value,
        None => usual,
    }
}

/// The budget that a caller chose, with the usual limits for what they left open.
pub open spec fn chosen_budget(
    chosen: ChosenLimits,
    limits: QueryLimitsConfigView,
) -> MemoryQueryBudgetView {
    MemoryQueryBudgetView {
        max_results: chosen_u32(chosen.max_results, limits.max_results),
        max_bytes: chosen_u64(chosen.max_bytes, limits.max_bytes),
        max_snippet_bytes: chosen_u64(chosen.max_snippet_bytes, limits.max_snippet_bytes),
        max_depth: chosen_u32(chosen.max_depth, limits.max_depth),
        max_duration_ms: chosen_u64(chosen.max_duration_ms, limits.max_duration_ms),
        max_diagnostics: chosen_u32(chosen.max_diagnostics, limits.max_diagnostics),
    }
}

/// The first limit of a choice that allows nothing.
pub open spec fn zero_choice(chosen: ChosenLimits) -> Option<BudgetField> {
    if chosen.max_results == Some(0u32) {
        Some(BudgetField::MaxResults)
    } else if chosen.max_bytes == Some(0u64) {
        Some(BudgetField::MaxBytes)
    } else if chosen.max_snippet_bytes == Some(0u64) {
        Some(BudgetField::MaxSnippetBytes)
    } else if chosen.max_depth == Some(0u32) {
        Some(BudgetField::MaxDepth)
    } else if chosen.max_duration_ms == Some(0u64) {
        Some(BudgetField::MaxDurationMs)
    } else if chosen.max_diagnostics == Some(0u32) {
        Some(BudgetField::MaxDiagnostics)
    } else {
        None
    }
}

fn choose_u32(chosen: Option<u32>, usual: NonZeroU32) -> (result: Option<NonZeroU32>)
    ensures
        result is None == (chosen == Some(0u32)),
        result matches Some(value) ==> value.deep_view() == chosen_u32(chosen, usual.deep_view()),
{
    match chosen {
        Some(value) => NonZeroU32::new(value),
        None => Some(usual),
    }
}

fn choose_u64(chosen: Option<u64>, usual: NonZeroU64) -> (result: Option<NonZeroU64>)
    ensures
        result is None == (chosen == Some(0u64)),
        result matches Some(value) ==> value.deep_view() == chosen_u64(chosen, usual.deep_view()),
{
    match chosen {
        Some(value) => NonZeroU64::new(value),
        None => Some(usual),
    }
}

/// The budget that a caller chose. Limits that were left open are the usual ones.
pub fn requested_budget(limits: &QueryLimitsConfig, chosen: ChosenLimits) -> (result: Result<
    MemoryQueryBudget,
    RequestedBudgetError,
>)
    ensures
        match result {
            Ok(budget) => zero_limit(limits.deep_view()) is None && zero_choice(chosen) is None
                && budget.deep_view() == chosen_budget(chosen, limits.deep_view()),
            Err(RequestedBudgetError::Limits(error)) => zero_limit(limits.deep_view()) is Some
                && error.deep_view() == backend(zero_limit(limits.deep_view())->0),
            Err(RequestedBudgetError::Zero(field)) => zero_limit(limits.deep_view()) is None
                && zero_choice(chosen) == Some(field),
        },
{
    let usual = match default_budget(limits) {
        Ok(usual) => usual,
        Err(error) => {
            return Err(RequestedBudgetError::Limits(error));
        },
    };
    let max_results = match choose_u32(chosen.max_results, usual.max_results) {
        Some(value) => value,
        None => {
            return Err(RequestedBudgetError::Zero(BudgetField::MaxResults));
        },
    };
    let max_bytes = match choose_u64(chosen.max_bytes, usual.max_bytes) {
        Some(value) => value,
        None => {
            return Err(RequestedBudgetError::Zero(BudgetField::MaxBytes));
        },
    };
    let max_snippet_bytes = match choose_u64(chosen.max_snippet_bytes, usual.max_snippet_bytes) {
        Some(value) => value,
        None => {
            return Err(RequestedBudgetError::Zero(BudgetField::MaxSnippetBytes));
        },
    };
    let max_depth = match choose_u32(chosen.max_depth, usual.max_depth) {
        Some(value) => value,
        None => {
            return Err(RequestedBudgetError::Zero(BudgetField::MaxDepth));
        },
    };
    let max_duration_ms = match choose_u64(chosen.max_duration_ms, usual.max_duration_ms) {
        Some(value) => value,
        None => {
            return Err(RequestedBudgetError::Zero(BudgetField::MaxDurationMs));
        },
    };
    let max_diagnostics = match choose_u32(chosen.max_diagnostics, usual.max_diagnostics) {
        Some(value) => value,
        None => {
            return Err(RequestedBudgetError::Zero(BudgetField::MaxDiagnostics));
        },
    };
    Ok(
        MemoryQueryBudget {
            max_results,
            max_bytes,
            max_snippet_bytes,
            max_depth,
            max_duration_ms,
            max_diagnostics,
        },
    )
}

/// Why a domain cannot be asked.
#[derive(Debug, Clone, Copy, PartialEq, Eq, Structural)]
pub enum ScopeRefusal {
    /// The graph of the repository is switched off.
    GraphDisabled,
    /// It is not known which snapshot of the repository to ask.
    RepositoryUnknown,
}

impl DeepView for ScopeRefusal {
    type V = ScopeRefusal;

    open spec fn deep_view(&self) -> ScopeRefusal {
        *self
    }
}

impl ScopeRefusal {
    /// What is wrong, in words.
    pub fn message(self) -> (text: &'static str)
        ensures
            text@ == match self {
                ScopeRefusal::GraphDisabled =>
                    "repository graph is disabled; enable it before repository or combined retrieval"@,
                ScopeRefusal::RepositoryUnknown => "repository snapshot is unknown"@,
            },
    {
        match self {
            ScopeRefusal::GraphDisabled =>
                "repository graph is disabled; enable it before repository or combined retrieval",
            ScopeRefusal::RepositoryUnknown => "repository snapshot is unknown",
        }
    }
}

/// What a domain asks: the published memory, a snapshot of the repository, or both.
pub open spec fn scope_of(
    project: ProjectRefView,
    domain: ContextDomain,
    budget: MemoryQueryBudgetView,
    graph_enabled: bool,
    repository: Option<RepositoryContextTargetView>,
) -> Result<FederatedScopeView, ScopeRefusal> {
    let memory = MemoryRevisionSelectorView::Published(PROJECT_VIEW@);
    if domain != ContextDomain::Memory && !graph_enabled {
        Err(ScopeRefusal::GraphDisabled)
    } else if domain != ContextDomain::Memory && repository is None {
        Err(ScopeRefusal::RepositoryUnknown)
    } else {
        Ok(
            FederatedScopeView {
                wire_version: FEDERATION_WIRE_VERSION,
                project,
                target: match domain {
                    ContextDomain::Repository => FederatedTargetView::Repository {
                        repository: repository->0,
                    },
                    ContextDomain::Memory => FederatedTargetView::Memory { memory },
                    ContextDomain::All => FederatedTargetView::All {
                        repository: repository->0,
                        memory,
                    },
                },
                budget,
            },
        )
    }
}

fn published_memory() -> (memory: MemoryRevisionSelector)
    ensures
        memory.deep_view() == MemoryRevisionSelectorView::Published(PROJECT_VIEW@),
{
    proof {
        reveal_strlit("project");
        crate::value::plain_text_is_bounded("project"@, MAX_ID_BYTES as nat, false);
    }
    MemoryRevisionSelector::Published(MemoryViewName::new(PROJECT_VIEW).unwrap())
}

/// What a domain asks.
pub fn federated_scope(
    project: &ProjectRef,
    domain: ContextDomain,
    budget: MemoryQueryBudget,
    graph_enabled: bool,
    repository: Option<RepositoryContextTarget>,
) -> (result: Result<FederatedScope, ScopeRefusal>)
    ensures
        outcome(result) == scope_of(
            project.deep_view(),
            domain,
            budget.deep_view(),
            graph_enabled,
            repository.deep_view(),
        ),
{
    if domain != ContextDomain::Memory && !graph_enabled {
        return Err(ScopeRefusal::GraphDisabled);
    }
    let target = match domain {
        ContextDomain::Memory => FederatedTarget::Memory { memory: published_memory() },
        ContextDomain::Repository => match repository {
            Some(repository) => FederatedTarget::Repository { repository },
            None => {
                return Err(ScopeRefusal::RepositoryUnknown);
            },
        },
        ContextDomain::All => match repository {
            Some(repository) => FederatedTarget::All { repository, memory: published_memory() },
            None => {
                return Err(ScopeRefusal::RepositoryUnknown);
            },
        },
    };
    Ok(
        FederatedScope {
            wire_version: FEDERATION_WIRE_VERSION,
            project: project.copied(),
            target,
            budget,
        },
    )
}

/// The scope of a question for the state of the published memory.
pub fn status_scope(
    project: &ProjectRef,
    budget: MemoryQueryBudget,
    freshness: Option<MemoryFreshnessComparison>,
) -> (scope: MemoryQueryScope)
    ensures
        scope.deep_view() == (MemoryQueryScopeView {
            wire_version: MEMORY_QUERY_WIRE_VERSION,
            project: project.deep_view(),
            revision: MemoryRevisionSelectorView::Published(PROJECT_VIEW@),
            budget: budget.deep_view(),
            freshness_comparison: freshness.deep_view(),
        }),
{
    let mut scope = MemoryQueryScope::current(project.copied(), published_memory(), budget);
    scope.freshness_comparison = freshness;
    scope
}

/// The state of a memory that cannot be read.
pub open spec fn unreadable(
    project: ProjectRefView,
    availability: MemoryAvailability,
    action: MemoryRetrievalAction,
) -> MemoryStatusResponseView {
    MemoryStatusResponseView {
        wire_version: MEMORY_QUERY_WIRE_VERSION,
        project,
        revision_id: None,
        freshness: not_compared(),
        diagnostics: Seq::empty(),
        data: MemoryStatusDataView {
            availability,
            build_state: None,
            build_id: None,
            memory_model_version: None,
            statistics: None,
            retention: None,
            recommended_action: Some(action),
            source_policy: default_policy().categories,
        },
    }
}

/// The state of a memory that cannot be read.
pub fn unavailable_status(
    project: &ProjectRef,
    availability: MemoryAvailability,
    action: MemoryRetrievalAction,
) -> (status: MemoryStatusResponse)
    ensures
        status.deep_view() == unreadable(project.deep_view(), availability, action),
{
    let status = MemoryStatusResponse {
        wire_version: MEMORY_QUERY_WIRE_VERSION,
        project: project.copied(),
        revision_id: None,
        freshness: unknown_freshness(),
        diagnostics: Vec::new(),
        data: MemoryStatusData {
            availability,
            build_state: None,
            build_id: None,
            memory_model_version: None,
            statistics: None,
            retention: None,
            recommended_action: Some(action),
            source_policy: source_policy_status(),
        },
    };
    assert(status.diagnostics.deep_view() =~= Seq::empty());
    status
}

/// The state of a memory whose file is as it is: missing, of another version, or not to be opened.
/// There is none where the file can be read.
pub open spec fn file_status(
    project: ProjectRefView,
    file: Option<Option<QueryReadiness>>,
) -> Option<MemoryStatusResponseView> {
    match file {
        Some(Some(QueryReadiness::Ready)) => None,
        Some(None) => Some(
            unreadable(project, MemoryAvailability::NotBuilt, MemoryRetrievalAction::Build),
        ),
        _ => Some(
            unreadable(project, MemoryAvailability::Incompatible, MemoryRetrievalAction::Rebuild),
        ),
    }
}

/// The state of a memory whose file cannot be read. `None` stands for a file that could not be
/// opened, `Some(None)` for one that is not there.
pub fn sidecar_status(
    project: &ProjectRef,
    file: Option<Option<QueryReadiness>>,
) -> (status: Option<MemoryStatusResponse>)
    ensures
        status.deep_view() == file_status(project.deep_view(), file),
{
    match file {
        Some(Some(QueryReadiness::Ready)) => None,
        Some(None) => Some(
            unavailable_status(project, MemoryAvailability::NotBuilt, MemoryRetrievalAction::Build),
        ),
        _ => Some(
            unavailable_status(
                project,
                MemoryAvailability::Incompatible,
                MemoryRetrievalAction::Rebuild,
            ),
        ),
    }
}

/// Whether a target asks the repository's graph, and whether it asks the memory.
pub fn needed_backends(target: &FederatedTarget) -> (needed: (bool, bool))
    ensures
        needed.0 == (target is Repository || target is All),
        needed.1 == (target is Memory || target is All),
{
    match target {
        FederatedTarget::Repository { .. } => (true, false),
        FederatedTarget::Memory { .. } => (false, true),
        FederatedTarget::All { .. } => (true, true),
    }
}

/// Refuses a question for what is not there.
pub fn require_backends(
    target: &FederatedTarget,
    has_graph: bool,
    has_memory: bool,
) -> (result: Result<(), MemoryQueryError>)
    ensures
        match result {
            Ok(_) => (target is Repository || target is All ==> has_graph) && (target is Memory
                || target is All ==> has_memory),
            Err(error) => error.deep_view() == MemoryQueryErrorView::Unavailable && ((
            target is Repository || target is All) && !has_graph || (target is Memory || target is All)
                && !has_memory),
        },
{
    let (graph, memory) = needed_backends(target);
    if graph && !has_graph || memory && !has_memory {
        Err(MemoryQueryError::Unavailable)
    } else {
        Ok(())
    }
}

/// The state of the repository with the task that it is seen from.
pub open spec fn seen_from(
    repository: Option<RepositoryDomainStateView>,
    task_view: Option<TaskViewEnvelopeView>,
) -> Option<RepositoryDomainStateView> {
    match repository {
        Some(state) => Some(RepositoryDomainStateView { task_view, ..state }),
        None => None,
    }
}

fn see_from(
    repository: Option<RepositoryDomainState>,
    task_view: Option<TaskViewEnvelope>,
) -> (state: Option<RepositoryDomainState>)
    ensures
        state.deep_view() == seen_from(repository.deep_view(), task_view.deep_view()),
{
    match repository {
        Some(state) => {
            let mut state = state;
            state.task_view = task_view;
            Some(state)
        },
        None => None,
    }
}

/// The answer to a search with the task that the repository is seen from.
pub fn search_seen_from(
    response: FederatedSearchResponse,
    task_view: Option<TaskViewEnvelope>,
) -> (result: FederatedSearchResponse)
    ensures
        result.deep_view() == (FederatedSearchResponseView {
            repository: seen_from(response.deep_view().repository, task_view.deep_view()),
            ..response.deep_view()
        }),
{
    let mut result = response;
    result.repository = see_from(result.repository, task_view);
    result
}

/// The answer to a question for context with the task that the repository is seen from.
pub fn context_seen_from(
    response: FederatedContextResponse,
    task_view: Option<TaskViewEnvelope>,
) -> (result: FederatedContextResponse)
    ensures
        result.deep_view() == (FederatedContextResponseView {
            repository: seen_from(response.deep_view().repository, task_view.deep_view()),
            ..response.deep_view()
        }),
{
    let mut result = response;
    result.repository = see_from(result.repository, task_view);
    result
}

/// What the memory is held against, where it is held against the sources at hand.
pub fn memory_freshness_comparison(
    compare: bool,
    manifest: Option<&AuthorizedSourceManifest>,
) -> (comparison: Option<MemoryFreshnessComparison>)
    ensures
        comparison is Some == (compare && manifest is Some),
        comparison matches Some(comparison) ==> comparison.deep_view().source_set_digest
            == manifest->0.deep_view().source_set_digest && comparison.deep_view().policy_digest
            == manifest->0.deep_view().policy_digest && comparison.deep_view().extractor_set_digest
            == manifest->0.deep_view().extractor_set_digest,
{
    if !compare {
        return None;
    }
    match manifest {
        Some(manifest) => Some(MemoryFreshnessComparison::from_manifest(manifest)),
        None => None,
    }
}

/// The kind of an error, as it is reported.
pub fn memory_index_error_category(error: &MemoryIndexError) -> (category: &'static str)
    ensures
        category@ == match *error {
            MemoryIndexError::Source(_) => "source"@,
            MemoryIndexError::Store(_) => "store"@,
            MemoryIndexError::Identity(_) => "identity"@,
            MemoryIndexError::Links => "links"@,
            MemoryIndexError::FactCollision => "fact_collision"@,
        },
{
    match error {
        MemoryIndexError::Source(_) => "source",
        MemoryIndexError::Store(_) => "store",
        MemoryIndexError::Identity(_) => "identity",
        MemoryIndexError::Links => "links",
        MemoryIndexError::FactCollision => "fact_collision",
    }
}

/// A graph that may not be there.
pub struct OptionalGraphQuery<Q> {
    pub query: Option<Q>,
    pub statuses: Ghost<Seq<(QueryScopeView, Result<StatusResponseView, QueryErrorCode>)>>,
    pub searches: Ghost<Seq<(SearchRequestView, Result<SearchResponseView, QueryErrorCode>)>>,
    pub contexts: Ghost<Seq<(ContextRequestView, Result<ContextResponseView, QueryErrorCode>)>>,
}

impl<Q: GraphQuery> OptionalGraphQuery<Q> {
    pub fn new(query: Option<Q>) -> (graph: Self)
        ensures
            graph.query == query,
    {
        OptionalGraphQuery {
            query,
            statuses: Ghost(Seq::empty()),
            searches: Ghost(Seq::empty()),
            contexts: Ghost(Seq::empty()),
        }
    }
}

impl<Q: GraphQuery> GraphQuery for OptionalGraphQuery<Q> {
    open spec fn statuses(
        &self,
    ) -> Seq<(QueryScopeView, Result<StatusResponseView, QueryErrorCode>)> {
        self.statuses@
    }

    open spec fn searches(
        &self,
    ) -> Seq<(SearchRequestView, Result<SearchResponseView, QueryErrorCode>)> {
        self.searches@
    }

    open spec fn contexts(
        &self,
    ) -> Seq<(ContextRequestView, Result<ContextResponseView, QueryErrorCode>)> {
        self.contexts@
    }

    fn status(&mut self, request: &QueryScope) -> (result: Result<StatusResponse, QueryErrorCode>)
        ensures
            old(self).query is None ==> outcome(result) == Err::<StatusResponseView, _>(
                QueryErrorCode::NotBuilt,
            ),
            old(self).query is Some ==> final(self).query is Some && final(self).query->0.statuses()
                == old(self).query->0.statuses().push((request.deep_view(), outcome(result))),
    {
        let result = match &mut self.query {
            Some(query) => query.status(request),
            None => Err(QueryErrorCode::NotBuilt),
        };
        self.statuses = Ghost(self.statuses@.push((request.deep_view(), outcome(result))));
        result
    }

    fn search(
        &mut self,
        request: &SearchRequest,
    ) -> (result: Result<SearchResponse, QueryErrorCode>)
        ensures
            old(self).query is None ==> outcome(result) == Err::<SearchResponseView, _>(
                QueryErrorCode::NotBuilt,
            ),
            old(self).query is Some ==> final(self).query is Some && final(self).query->0.searches()
                == old(self).query->0.searches().push((request.deep_view(), outcome(result))),
    {
        let result = match &mut self.query {
            Some(query) => query.search(request),
            None => Err(QueryErrorCode::NotBuilt),
        };
        self.searches = Ghost(self.searches@.push((request.deep_view(), outcome(result))));
        result
    }

    fn context(
        &mut self,
        request: &ContextRequest,
    ) -> (result: Result<ContextResponse, QueryErrorCode>)
        ensures
            old(self).query is None ==> outcome(result) == Err::<ContextResponseView, _>(
                QueryErrorCode::NotBuilt,
            ),
            old(self).query is Some ==> final(self).query is Some && final(self).query->0.contexts()
                == old(self).query->0.contexts().push((request.deep_view(), outcome(result))),
    {
        let result = match &mut self.query {
            Some(query) => query.context(request),
            None => Err(QueryErrorCode::NotBuilt),
        };
        self.contexts = Ghost(self.contexts@.push((request.deep_view(), outcome(result))));
        result
    }
}

/// A memory that may not be there.
pub struct OptionalMemoryBackend<Q> {
    pub query: Option<Q>,
    pub statuses: Ghost<
        Seq<(MemoryStatusRequestView, Result<MemoryStatusResponseView, MemoryQueryErrorView>)>,
    >,
    pub searches: Ghost<
        Seq<(MemorySearchRequestView, Result<MemorySearchResponseView, MemoryQueryErrorView>)>,
    >,
    pub contexts: Ghost<
        Seq<(MemoryContextRequestView, Result<MemoryContextResponseView, MemoryQueryErrorView>)>,
    >,
}

impl<Q: MemoryQuery> OptionalMemoryBackend<Q> {
    pub fn new(query: Option<Q>) -> (memory: Self)
        ensures
            memory.query == query,
    {
        OptionalMemoryBackend {
            query,
            statuses: Ghost(Seq::empty()),
            searches: Ghost(Seq::empty()),
            contexts: Ghost(Seq::empty()),
        }
    }
}

impl<Q: MemoryQuery> MemoryQuery for OptionalMemoryBackend<Q> {
    open spec fn statuses(&self) -> Seq<
        (MemoryStatusRequestView, Result<MemoryStatusResponseView, MemoryQueryErrorView>),
    > {
        self.statuses@
    }

    open spec fn searches(&self) -> Seq<
        (MemorySearchRequestView, Result<MemorySearchResponseView, MemoryQueryErrorView>),
    > {
        self.searches@
    }

    open spec fn contexts(&self) -> Seq<
        (MemoryContextRequestView, Result<MemoryContextResponseView, MemoryQueryErrorView>),
    > {
        self.contexts@
    }

    fn status(&mut self, request: &MemoryStatusRequest) -> (result: Result<
        MemoryStatusResponse,
        MemoryQueryError,
    >)
        ensures
            old(self).query is None ==> outcome(result) == Err::<MemoryStatusResponseView, _>(
                MemoryQueryErrorView::Unavailable,
            ),
            old(self).query is Some ==> final(self).query is Some && final(self).query->0.statuses()
                == old(self).query->0.statuses().push((request.deep_view(), outcome(result))),
    {
        let result = match &mut self.query {
            Some(query) => query.status(request),
            None => Err(MemoryQueryError::Unavailable),
        };
        self.statuses = Ghost(self.statuses@.push((request.deep_view(), outcome(result))));
        result
    }

    fn search(&mut self, request: &MemorySearchRequest) -> (result: Result<
        MemorySearchResponse,
        MemoryQueryError,
    >)
        ensures
            old(self).query is None ==> outcome(result) == Err::<MemorySearchResponseView, _>(
                MemoryQueryErrorView::Unavailable,
            ),
            old(self).query is Some ==> final(self).query is Some && final(self).query->0.searches()
                == old(self).query->0.searches().push((request.deep_view(), outcome(result))),
    {
        let result = match &mut self.query {
            Some(query) => query.search(request),
            None => Err(MemoryQueryError::Unavailable),
        };
        self.searches = Ghost(self.searches@.push((request.deep_view(), outcome(result))));
        result
    }

    fn context(&mut self, request: &MemoryContextRequest) -> (result: Result<
        MemoryContextResponse,
        MemoryQueryError,
    >)
        ensures
            old(self).query is None ==> outcome(result) == Err::<MemoryContextResponseView, _>(
                MemoryQueryErrorView::Unavailable,
            ),
            old(self).query is Some ==> final(self).query is Some && final(self).query->0.contexts()
                == old(self).query->0.contexts().push((request.deep_view(), outcome(result))),
    {
        let result = match &mut self.query {
            Some(query) => query.context(request),
            None => Err(MemoryQueryError::Unavailable),
        };
        self.contexts = Ghost(self.contexts@.push((request.deep_view(), outcome(result))));
        result
    }
}

/// Links that may not be there.
pub struct OptionalLinkStore<L> {
    pub links: Option<L>,
    pub set_reads: Ghost<
        Seq<(LinkSetRequestView, Result<Option<MemoryRepositoryLinkSetView>, ReadFailure>)>,
    >,
    pub link_reads: Ghost<
        Seq<(LinksRequestView, Result<BoundedRepositoryLinksView, ReadFailure>)>,
    >,
}

impl<L: MemoryLinkStore> OptionalLinkStore<L> {
    pub fn new(links: Option<L>) -> (store: Self)
        ensures
            store.links == links,
    {
        OptionalLinkStore { links, set_reads: Ghost(Seq::empty()), link_reads: Ghost(Seq::empty()) }
    }
}

impl<L: MemoryLinkStore> MemoryLinkStore for OptionalLinkStore<L> {
    open spec fn set_reads(&self) -> Seq<
        (LinkSetRequestView, Result<Option<MemoryRepositoryLinkSetView>, ReadFailure>),
    > {
        self.set_reads@
    }

    open spec fn link_reads(&self) -> Seq<
        (LinksRequestView, Result<BoundedRepositoryLinksView, ReadFailure>),
    > {
        self.link_reads@
    }

    fn repository_link_set_for_snapshot(&mut self, request: &LinkSetRequest) -> (result: Result<
        Option<MemoryRepositoryLinkSet>,
        ReadFailure,
    >)
        ensures
            old(self).links is None ==> result is Err && result->Err_0 == ReadFailure::Unavailable,
            old(self).links is Some ==> final(self).links is Some && final(self).links->0.set_reads()
                == old(self).links->0.set_reads().push((request.deep_view(), outcome(result))),
    {
        let result = match &mut self.links {
            Some(links) => links.repository_link_set_for_snapshot(request),
            None => Err(ReadFailure::Unavailable),
        };
        self.set_reads = Ghost(self.set_reads@.push((request.deep_view(), outcome(result))));
        result
    }

    fn bounded_repository_links(&mut self, request: &LinksRequest) -> (result: Result<
        BoundedRepositoryLinks,
        ReadFailure,
    >)
        ensures
            old(self).links is None ==> result is Err && result->Err_0 == ReadFailure::Unavailable,
            old(self).links is Some ==> final(self).links is Some && final(self).links->0.link_reads()
                == old(self).links->0.link_reads().push((request.deep_view(), outcome(result))),
    {
        let result = match &mut self.links {
            Some(links) => links.bounded_repository_links(request),
            None => Err(ReadFailure::Unavailable),
        };
        self.link_reads = Ghost(self.link_reads@.push((request.deep_view(), outcome(result))));
        result
    }
}

}
