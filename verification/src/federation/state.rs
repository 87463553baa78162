//! What a federated answer rests on: the states of the domains, why they end early, and the orders
//! and keys of what they found.
use vstd::prelude::*;
use crate::budget::{backend, backend_error};
use crate::diagnostics::MemoryDiagnosticCode;
use crate::digest::{digest_of, text_digest};
use crate::domain::{
    MemoryEntityKind, MemoryRelationship, MemoryRelationshipView, MemorySourceCategory,
    MemoryStatusToken,
};
use crate::federation::{
    FederatedContextItem, FederatedContextItemView, FederatedContextRequest,
    FederatedContextRequestView, FederatedContextSeed, FederatedContextSeedView, FederatedPageInfo,
    FederatedPageInfoView, FederatedSearchRequest, FederatedSearchRequestView,
    FederatedSearchResult, FederatedSearchResultView, FederatedTarget, MemoryDomainState,
    MemoryDomainStateView, RepositoryDomainState, RepositoryDomainStateView,
};
use crate::json::{
    json_array, json_object, json_string, text_json, JsonArray, JsonObject, ToJson,
};
use crate::order::{in_order, sorted_distinct, text_before, text_order_is_strict};
use crate::policy::{default_policy, MemoryPolicy, MemorySourcePolicyStatusView};
use crate::query::{
    MemoryContextPolicy, MemoryContextResponse, MemoryContextResponseView, MemoryQueryError,
    MemoryQueryErrorView, MemorySearchResponse, MemorySearchResponseView, MemoryStatusResponse,
    MemoryStatusResponseView, MemoryTruncationReason,
};
use crate::record::Record;
use crate::repository::{
    ContextPolicy, ContextResponse, ContextResponseView, ContextSelectionKind,
    ContextSelectionReasonView, ContextSnippet, ContextSnippetView, QueryErrorCode, RepoPath,
    SearchResponse, SearchResponseView, StatusResponse, StatusResponseView, TruncationReason,
};
use crate::sort::{text_key, Identified, SortKey, Sortable};
use crate::text::{joined, lowercase, to_lowercase, trim, trimmed};

verus! {

/// How many results of the domains a federated request looks at.
pub const MAX_FEDERATION_CANDIDATES: usize = 4_096;

/// Whether results may be missing because as many as can be looked at were wanted, and a domain had
/// more.
pub fn candidate_cap_truncated(desired: usize, backend_has_more: bool) -> (truncated: bool)
    ensures
        truncated == (desired == MAX_FEDERATION_CANDIDATES && backend_has_more),
{
    desired == MAX_FEDERATION_CANDIDATES && backend_has_more
}

/// Why a repository answer is not complete, in the terms of the memory.
pub open spec fn memory_reason(reason: TruncationReason) -> MemoryTruncationReason {
    match reason {
        TruncationReason::Results => MemoryTruncationReason::Results,
        TruncationReason::Bytes => MemoryTruncationReason::Bytes,
        TruncationReason::Depth => MemoryTruncationReason::Depth,
        TruncationReason::Duration => MemoryTruncationReason::Duration,
        TruncationReason::Capability => MemoryTruncationReason::Capability,
    }
}

/// Why a repository answer is not complete, in the terms of the memory.
pub fn repository_truncation_reason(reason: TruncationReason) -> (result: MemoryTruncationReason)
    ensures
        result == memory_reason(reason),
{
    match reason {
        TruncationReason::Results => MemoryTruncationReason::Results,
        TruncationReason::Bytes => MemoryTruncationReason::Bytes,
        TruncationReason::Depth => MemoryTruncationReason::Depth,
        TruncationReason::Duration => MemoryTruncationReason::Duration,
        TruncationReason::Capability => MemoryTruncationReason::Capability,
    }
}

/// How much a reason weighs.
pub open spec fn weight(reason: MemoryTruncationReason) -> u8 {
    match reason {
        MemoryTruncationReason::Duration => 5,
        MemoryTruncationReason::Bytes => 4,
        MemoryTruncationReason::Results => 3,
        MemoryTruncationReason::Depth => 2,
        MemoryTruncationReason::Capability => 1,
    }
}

/// How much a reason weighs.
pub fn truncation_priority(reason: MemoryTruncationReason) -> (priority: u8)
    ensures
        priority == weight(reason),
{
    match reason {
        MemoryTruncationReason::Duration => 5,
        MemoryTruncationReason::Bytes => 4,
        MemoryTruncationReason::Results => 3,
        MemoryTruncationReason::Depth => 2,
        MemoryTruncationReason::Capability => 1,
    }
}

/// The weightier of two reasons, where there are two.
pub open spec fn stronger(
    left: Option<MemoryTruncationReason>,
    right: Option<MemoryTruncationReason>,
) -> Option<MemoryTruncationReason> {
    match (left, right) {
        (Some(left), Some(right)) => Some(
            if weight(left) >= weight(right) {
                left
            } else {
                right
            },
        ),
        (Some(left), None) => Some(left),
        (None, right) => right,
    }
}

/// The weightier of two reasons, where there are two.
pub fn stronger_truncation(
    left: Option<MemoryTruncationReason>,
    right: Option<MemoryTruncationReason>,
) -> (result: Option<MemoryTruncationReason>)
    ensures
        result == stronger(left, right),
{
    match (left, right) {
        (Some(left), Some(right)) => Some(
            if truncation_priority(left) >= truncation_priority(right) {
                left
            } else {
                right
            },
        ),
        (Some(left), None) => Some(left),
        (None, right) => right,
    }
}

/// In whatever order and grouping reasons are met, the weightiest comes out.
pub proof fn stronger_is_a_maximum(
    first: Option<MemoryTruncationReason>,
    second: Option<MemoryTruncationReason>,
    third: Option<MemoryTruncationReason>,
)
    ensures
        stronger(first, second) == stronger(second, first),
        stronger(stronger(first, second), third) == stronger(first, stronger(second, third)),
        stronger(first, first) == first,
        stronger(first, None) == first,
{
}

/// The state of the repository, as a search tells it.
pub open spec fn searched_repository(response: SearchResponseView) -> RepositoryDomainStateView {
    RepositoryDomainStateView {
        repository: response.repository,
        snapshot_id: Some(response.snapshot_id),
        task_view: response.task_view,
        freshness: response.freshness,
        diagnostics: response.diagnostics,
        page: response.page,
    }
}

/// The state of the repository, as a search tells it.
pub fn repository_state_from_search(response: &SearchResponse) -> (state: RepositoryDomainState)
    ensures
        state.deep_view() == searched_repository(response.deep_view()),
{
    RepositoryDomainState {
        repository: response.repository.copied(),
        snapshot_id: Some(response.snapshot_id.copied()),
        task_view: response.task_view.copied(),
        freshness: response.freshness.copied(),
        diagnostics: response.diagnostics.copied(),
        page: response.page.copied(),
    }
}

/// The state of the repository, as a context tells it.
pub open spec fn contextual_repository(response: ContextResponseView) -> RepositoryDomainStateView {
    RepositoryDomainStateView {
        repository: response.repository,
        snapshot_id: Some(response.snapshot_id),
        task_view: response.task_view,
        freshness: response.freshness,
        diagnostics: response.diagnostics,
        page: response.page,
    }
}

/// The state of the repository, as a context tells it.
pub fn repository_state_from_context(response: &ContextResponse) -> (state: RepositoryDomainState)
    ensures
        state.deep_view() == contextual_repository(response.deep_view()),
{
    RepositoryDomainState {
        repository: response.repository.copied(),
        snapshot_id: Some(response.snapshot_id.copied()),
        task_view: response.task_view.copied(),
        freshness: response.freshness.copied(),
        diagnostics: response.diagnostics.copied(),
        page: response.page.copied(),
    }
}

/// The state of the repository, as it was asked for.
pub open spec fn known_repository(response: StatusResponseView) -> RepositoryDomainStateView {
    RepositoryDomainStateView {
        repository: response.repository,
        snapshot_id: response.snapshot_id,
        task_view: response.task_view,
        freshness: response.freshness,
        diagnostics: response.diagnostics,
        page: response.page,
    }
}

/// The state of the repository, as it was asked for.
pub fn repository_state_from_status(response: &StatusResponse) -> (state: RepositoryDomainState)
    ensures
        state.deep_view() == known_repository(response.deep_view()),
{
    RepositoryDomainState {
        repository: response.repository.copied(),
        snapshot_id: response.snapshot_id.copied(),
        task_view: response.task_view.copied(),
        freshness: response.freshness.copied(),
        diagnostics: response.diagnostics.copied(),
        page: response.page.copied(),
    }
}

/// The categories that the policy admits.
pub fn authorized_sources() -> (categories: Vec<MemorySourceCategory>)
    ensures
        categories.deep_view() == default_policy().authorized(),
{
    MemoryPolicy::default().authorized_categories()
}

/// The state of the memory, as a search tells it.
pub open spec fn searched_memory(response: MemorySearchResponseView) -> MemoryDomainStateView {
    MemoryDomainStateView {
        revision_id: Some(response.revision_id),
        freshness: response.freshness,
        authorized_sources: default_policy().authorized(),
        diagnostics: response.diagnostics,
        page: FederatedPageInfoView { next_cursor: None, truncation: response.page.truncation },
    }
}

/// The state of the memory, as a search tells it.
pub fn memory_state_from_search(response: &MemorySearchResponse) -> (state: MemoryDomainState)
    ensures
        state.deep_view() == searched_memory(response.deep_view()),
{
    MemoryDomainState {
        revision_id: Some(response.revision_id.copied()),
        freshness: response.freshness.copied(),
        authorized_sources: authorized_sources(),
        diagnostics: response.diagnostics.copied(),
        page: FederatedPageInfo { next_cursor: None, truncation: response.page.truncation.copied() },
    }
}

/// The state of the memory, as a context tells it.
pub open spec fn contextual_memory(response: MemoryContextResponseView) -> MemoryDomainStateView {
    MemoryDomainStateView {
        revision_id: Some(response.revision_id),
        freshness: response.freshness,
        authorized_sources: default_policy().authorized(),
        diagnostics: response.diagnostics,
        page: FederatedPageInfoView { next_cursor: None, truncation: response.page.truncation },
    }
}

/// The state of the memory, as a context tells it.
pub fn memory_state_from_context(response: &MemoryContextResponse) -> (state: MemoryDomainState)
    ensures
        state.deep_view() == contextual_memory(response.deep_view()),
{
    MemoryDomainState {
        revision_id: Some(response.revision_id.copied()),
        freshness: response.freshness.copied(),
        authorized_sources: authorized_sources(),
        diagnostics: response.diagnostics.copied(),
        page: FederatedPageInfo { next_cursor: None, truncation: response.page.truncation.copied() },
    }
}

/// The categories that are enabled, in their order.
pub open spec fn enabled(statuses: Seq<MemorySourcePolicyStatusView>) -> Seq<MemorySourceCategory>
    decreases statuses.len(),
{
    if statuses.len() == 0 {
        Seq::empty()
    } else {
        let rest = enabled(statuses.drop_last());
        if statuses.last().policy.enabled {
            rest.push(statuses.last().category)
        } else {
            rest
        }
    }
}

/// The state of the memory, as it was asked for.
pub open spec fn known_memory(response: MemoryStatusResponseView) -> MemoryDomainStateView {
    MemoryDomainStateView {
        revision_id: response.revision_id,
        freshness: response.freshness,
        authorized_sources: enabled(response.data.source_policy),
        diagnostics: response.diagnostics,
        page: FederatedPageInfoView { next_cursor: None, truncation: None },
    }
}

/// The state of the memory, as it was asked for.
pub fn memory_state_from_status(response: &MemoryStatusResponse) -> (state: MemoryDomainState)
    ensures
        state.deep_view() == known_memory(response.deep_view()),
{
    let statuses = &response.data.source_policy;
    let mut authorized_sources: Vec<MemorySourceCategory> = Vec::new();
    let mut at: usize = 0;
    assert(authorized_sources.deep_view() =~= enabled(statuses.deep_view().take(0)));
    while at < statuses.len()
        invariant
            at <= statuses.len(),
            authorized_sources.deep_view() == enabled(statuses.deep_view().take(at as int)),
        decreases statuses.len() - at,
    {
        proof {
            let next = statuses.deep_view().take(at + 1);
            assert(next.drop_last() =~= statuses.deep_view().take(at as int));
            assert(next.last() == statuses@[at as int].deep_view());
        }
        if statuses[at].policy.enabled {
            let ghost before = authorized_sources.deep_view();
            authorized_sources.push(statuses[at].category);
            assert(authorized_sources.deep_view() =~= before.push(statuses@[at as int].category));
        }
        at += 1;
    }
    assert(statuses.deep_view().take(at as int) =~= statuses.deep_view());
    MemoryDomainState {
        revision_id: response.revision_id.copied(),
        freshness: response.freshness.copied(),
        authorized_sources,
        diagnostics: response.diagnostics.copied(),
        page: FederatedPageInfo { next_cursor: None, truncation: None },
    }
}

/// The error of a repository query, in the terms of the memory.
pub open spec fn repository_error(code: QueryErrorCode) -> MemoryQueryErrorView {
    match code {
        QueryErrorCode::NotBuilt => MemoryQueryErrorView::Unavailable,
        QueryErrorCode::IndexBuilding => MemoryQueryErrorView::Unavailable,
        QueryErrorCode::IndexFailed => MemoryQueryErrorView::Unavailable,
        QueryErrorCode::SnapshotNotFound => MemoryQueryErrorView::RevisionNotFound,
        QueryErrorCode::StaleCursor => MemoryQueryErrorView::StaleCursor,
        QueryErrorCode::BudgetExceeded => MemoryQueryErrorView::BudgetExceeded(
            MemoryTruncationReason::Duration,
        ),
        QueryErrorCode::ContentChanged => MemoryQueryErrorView::ContentChanged,
        _ => backend("federation.repositoryquery"@),
    }
}

/// The error of a repository query, in the terms of the memory.
pub fn graph_error(code: QueryErrorCode) -> (error: MemoryQueryError)
    ensures
        error.deep_view() == repository_error(code),
{
    match code {
        QueryErrorCode::NotBuilt => MemoryQueryError::Unavailable,
        QueryErrorCode::IndexBuilding => MemoryQueryError::Unavailable,
        QueryErrorCode::IndexFailed => MemoryQueryError::Unavailable,
        QueryErrorCode::SnapshotNotFound => MemoryQueryError::RevisionNotFound,
        QueryErrorCode::StaleCursor => MemoryQueryError::StaleCursor,
        QueryErrorCode::BudgetExceeded => MemoryQueryError::BudgetExceeded(
            MemoryTruncationReason::Duration,
        ),
        QueryErrorCode::ContentChanged => MemoryQueryError::ContentChanged,
        _ => {
            proof {
                reveal_strlit("federation.repositoryquery");
            }
            backend_error("federation.repositoryquery")
        },
    }
}

/// What tells search results apart.
pub open spec fn result_key(result: FederatedSearchResultView) -> Seq<char> {
    match result {
        FederatedSearchResultView::Repository(hit) => "repository:"@ + hit.node_id,
        FederatedSearchResultView::Memory(hit) => "memory:"@ + hit.entity.id,
    }
}

/// What tells search results apart.
pub fn search_result_key(result: &FederatedSearchResult) -> (key: String)
    ensures
        key@ == result_key(result.deep_view()),
{
    match result {
        FederatedSearchResult::Repository(hit) => joined("repository:", hit.node_id.as_str()),
        FederatedSearchResult::Memory(hit) => joined("memory:", hit.entity.id.as_str()),
    }
}

/// The score of a search result.
pub open spec fn result_rank(result: FederatedSearchResultView) -> u64 {
    match result {
        FederatedSearchResultView::Repository(hit) => hit.score.rank,
        FederatedSearchResultView::Memory(hit) => hit.score.rank,
    }
}

/// The score of a search result.
pub fn search_score(result: &FederatedSearchResult) -> (rank: u64)
    ensures
        rank == result_rank(result.deep_view()),
{
    match result {
        FederatedSearchResult::Repository(hit) => hit.score.rank,
        FederatedSearchResult::Memory(hit) => hit.score.rank,
    }
}

/// Search results are ordered by their score, the greatest first; those of the repository come before
/// those of the memory; then by what tells them apart.
impl Sortable for FederatedSearchResult {
    open spec fn key(model: FederatedSearchResultView) -> SortKey {
        SortKey {
            first: -(result_rank(model) as int),
            second: if model is Repository {
                0
            } else {
                1
            },
            text: result_key(model),
            third: 0,
            fourth: 0,
        }
    }

    fn before(&self, other: &Self) -> (before: bool) {
        let left = search_score(self);
        let right = search_score(other);
        if left != right {
            return left > right;
        }
        let left_memory = matches!(self, FederatedSearchResult::Memory(_));
        let right_memory = matches!(other, FederatedSearchResult::Memory(_));
        if left_memory != right_memory {
            return right_memory;
        }
        search_result_key(self).before(&search_result_key(other))
    }
}

impl Identified for FederatedSearchResult {
    open spec fn identity(model: FederatedSearchResultView) -> Seq<char> {
        result_key(model)
    }

    fn same_identity(&self, other: &Self) -> (same: bool) {
        search_result_key(self) == search_result_key(other)
    }
}

/// What tells items of a context apart.
pub open spec fn item_key(item: FederatedContextItemView) -> Seq<char> {
    match item {
        FederatedContextItemView::Repository(item) => "repository:"@ + item.node_id,
        FederatedContextItemView::Memory(item) => "memory:"@ + item.entity.id,
    }
}

/// What tells items of a context apart.
pub fn context_item_key(item: &FederatedContextItem) -> (key: String)
    ensures
        key@ == item_key(item.deep_view()),
{
    match item {
        FederatedContextItem::Repository(item) => joined("repository:", item.node_id.as_str()),
        FederatedContextItem::Memory(item) => joined("memory:", item.entity.id.as_str()),
    }
}

/// Whether a repository item is a seed.
pub open spec fn is_exact(reasons: Seq<ContextSelectionReasonView>) -> bool {
    exists|i: int|
        0 <= i < reasons.len() && (#[trigger] reasons[i]).kind == ContextSelectionKind::ExactSeed
}

/// Whether an item of a context is a seed.
pub open spec fn is_seed(item: FederatedContextItemView) -> bool {
    match item {
        FederatedContextItemView::Repository(item) => is_exact(item.selection_reasons),
        FederatedContextItemView::Memory(item) => item.selection_reasons.contains("context.seed"@),
    }
}

/// Whether a repository item is a seed.
pub fn selected_exactly(reasons: &Vec<crate::repository::ContextSelectionReason>) -> (exact: bool)
    ensures
        exact == is_exact(reasons.deep_view()),
{
    let mut at: usize = 0;
    while at < reasons.len()
        invariant
            at <= reasons.len(),
            forall|i: int|
                0 <= i < at ==> (#[trigger] reasons.deep_view()[i]).kind != ContextSelectionKind::ExactSeed,
        decreases reasons.len() - at,
    {
        assert(reasons.deep_view()[at as int].kind == reasons@[at as int].kind);
        if reasons[at].kind == ContextSelectionKind::ExactSeed {
            return true;
        }
        at += 1;
    }
    false
}

/// Whether a memory item was selected for this reason.
pub fn selected_for(codes: &Vec<MemoryDiagnosticCode>, code: &str) -> (found: bool)
    ensures
        found == codes.deep_view().contains(code@),
{
    let mut at: usize = 0;
    while at < codes.len()
        invariant
            at <= codes.len(),
            forall|i: int| 0 <= i < at ==> #[trigger] codes.deep_view()[i] != code@,
        decreases codes.len() - at,
    {
        assert(codes.deep_view()[at as int] == codes@[at as int].deep_view());
        if codes[at].as_str().to_owned() == code.to_owned() {
            return true;
        }
        at += 1;
    }
    false
}

/// Items of a context are ordered seeds first; those of the repository come before those of the
/// memory; then by what tells them apart.
impl Sortable for FederatedContextItem {
    open spec fn key(model: FederatedContextItemView) -> SortKey {
        SortKey {
            first: if is_seed(model) {
                0
            } else {
                1
            },
            second: if model is Repository {
                0
            } else {
                1
            },
            text: item_key(model),
            third: 0,
            fourth: 0,
        }
    }

    fn before(&self, other: &Self) -> (before: bool) {
        let left = context_item_is_seed(self);
        let right = context_item_is_seed(other);
        if left != right {
            return left;
        }
        let left_memory = matches!(self, FederatedContextItem::Memory(_));
        let right_memory = matches!(other, FederatedContextItem::Memory(_));
        if left_memory != right_memory {
            return right_memory;
        }
        context_item_key(self).before(&context_item_key(other))
    }
}

fn context_item_is_seed(item: &FederatedContextItem) -> (seed: bool)
    ensures
        seed == is_seed(item.deep_view()),
{
    match item {
        FederatedContextItem::Repository(item) => selected_exactly(&item.selection_reasons),
        FederatedContextItem::Memory(item) => selected_for(&item.selection_reasons, "context.seed"),
    }
}

impl Identified for FederatedContextItem {
    open spec fn identity(model: FederatedContextItemView) -> Seq<char> {
        item_key(model)
    }

    fn same_identity(&self, other: &Self) -> (same: bool) {
        context_item_key(self) == context_item_key(other)
    }
}

/// Where a snippet starts and ends.
pub open spec fn span_key(snippet: ContextSnippetView) -> (u64, u64) {
    match snippet.span {
        Some(span) => (span.start.byte_offset, span.end.byte_offset),
        None => (0, 0),
    }
}

/// Where a snippet starts and ends.
pub fn snippet_span_key(snippet: &ContextSnippet) -> (key: (u64, u64))
    ensures
        key == span_key(snippet.deep_view()),
{
    match &snippet.span {
        Some(span) => (span.start.byte_offset, span.end.byte_offset),
        None => (0, 0),
    }
}

/// Snippets are ordered by their path, then by where they start and end.
impl Sortable for ContextSnippet {
    open spec fn key(model: ContextSnippetView) -> SortKey {
        SortKey {
            first: 0,
            second: 0,
            text: model.path,
            third: span_key(model).0 as int,
            fourth: span_key(model).1 as int,
        }
    }

    fn before(&self, other: &Self) -> (before: bool) {
        proof {
            text_order_is_strict(self.path.deep_view(), other.path.deep_view());
        }
        if !self.path.same(&other.path) {
            return text_before(self.path.as_str(), other.path.as_str());
        }
        let left = snippet_span_key(self);
        let right = snippet_span_key(other);
        if left.0 != right.0 {
            left.0 < right.0
        } else {
            left.1 < right.1
        }
    }
}

/// Relationships are ordered by their ids.
impl Sortable for MemoryRelationship {
    open spec fn key(model: MemoryRelationshipView) -> SortKey {
        text_key(model.id)
    }

    fn before(&self, other: &Self) -> (before: bool) {
        proof {
            text_order_is_strict(self.id.deep_view(), other.id.deep_view());
        }
        text_before(self.id.as_str(), other.id.as_str())
    }
}

/// The digest of what a federated request or its revisions are told apart by.
pub open spec fn federation_digest(json: Seq<char>) -> Seq<char> {
    text_digest("ferrus.project-memory.federation.v1\0"@ + json)
}

fn hash(json: String) -> (digest: String)
    ensures
        digest@ == federation_digest(json@),
{
    let text = joined("ferrus.project-memory.federation.v1\0", json.as_str());
    digest_of(text.as_str())
}

/// What tells the revisions of an answer apart: the snapshot, the task view and its overlay, and the
/// revision of the memory.
pub open spec fn revision_texts(
    repository: Option<RepositoryDomainStateView>,
    memory: Option<MemoryDomainStateView>,
) -> Seq<Seq<char>> {
    let snapshot = match repository {
        Some(state) => state.snapshot_id,
        None => None,
    };
    let task_view = match repository {
        Some(state) => state.task_view,
        None => None,
    };
    let task_view_id = match task_view {
        Some(view) => Some(view.task_view_id),
        None => None,
    };
    let overlay = match task_view {
        Some(view) => view.overlay_revision_id,
        None => None,
    };
    let revision = match memory {
        Some(state) => state.revision_id,
        None => None,
    };
    seq![
        <Option<String> as ToJson>::json(snapshot),
        <Option<String> as ToJson>::json(task_view_id),
        <Option<String> as ToJson>::json(overlay),
        <Option<String> as ToJson>::json(revision),
    ]
}

/// The key of the revisions that an answer rests on.
pub open spec fn revisions_key(
    repository: Option<RepositoryDomainStateView>,
    memory: Option<MemoryDomainStateView>,
) -> Seq<char> {
    federation_digest(json_array(revision_texts(repository, memory)))
}

/// The key of the revisions that an answer rests on.
pub fn revision_key(
    repository: &Option<RepositoryDomainState>,
    memory: &Option<MemoryDomainState>,
) -> (key: String)
    ensures
        key@ == revisions_key(repository.deep_view(), memory.deep_view()),
{
    let mut snapshot: Option<String> = None;
    let mut task_view_id: Option<String> = None;
    let mut overlay: Option<String> = None;
    let mut revision: Option<String> = None;
    if let Some(state) = repository {
        if let Some(id) = &state.snapshot_id {
            snapshot = Some(id.as_str().to_owned());
        }
        if let Some(view) = &state.task_view {
            task_view_id = Some(view.task_view_id.as_str().to_owned());
            if let Some(id) = &view.overlay_revision_id {
                overlay = Some(id.as_str().to_owned());
            }
        }
    }
    if let Some(state) = memory {
        if let Some(id) = &state.revision_id {
            revision = Some(id.as_str().to_owned());
        }
    }
    let array = JsonArray::new()
        .item(snapshot.to_json())
        .item(task_view_id.to_json())
        .item(overlay.to_json())
        .item(revision.to_json());
    assert(array.items() =~= revision_texts(repository.deep_view(), memory.deep_view()));
    hash(array.finish())
}

/// A record that is told apart by a text.
pub trait Told: Record {
    /// The text.
    spec fn told(model: Self::V) -> Seq<char>;

    /// The text.
    fn tell(&self) -> (text: String)
        ensures
            text@ == Self::told(self.deep_view()),
    ;
}

impl Told for MemoryStatusToken {
    open spec fn told(model: Seq<char>) -> Seq<char> {
        model
    }

    fn tell(&self) -> (text: String) {
        self.as_str().to_owned()
    }
}

impl Told for RepoPath {
    open spec fn told(model: Seq<char>) -> Seq<char> {
        model
    }

    fn tell(&self) -> (text: String) {
        self.as_str().to_owned()
    }
}

impl Told for MemoryEntityKind {
    open spec fn told(model: MemoryEntityKind) -> Seq<char> {
        model.name()
    }

    fn tell(&self) -> (text: String) {
        self.as_str().to_owned()
    }
}

impl Told for MemorySourceCategory {
    open spec fn told(model: MemorySourceCategory) -> Seq<char> {
        match model {
            MemorySourceCategory::SpecificationStructure => "SpecificationStructure"@,
            MemorySourceCategory::ApprovedOutcome => "ApprovedOutcome"@,
            MemorySourceCategory::ArchiveManifest => "ArchiveManifest"@,
            MemorySourceCategory::RuntimeProvenance => "RuntimeProvenance"@,
            MemorySourceCategory::TaskBody => "TaskBody"@,
            MemorySourceCategory::SubmissionBody => "SubmissionBody"@,
            MemorySourceCategory::ReviewBody => "ReviewBody"@,
            MemorySourceCategory::PatchBody => "PatchBody"@,
            MemorySourceCategory::CheckLogBody => "CheckLogBody"@,
            MemorySourceCategory::QuestionBody => "QuestionBody"@,
            MemorySourceCategory::AnswerBody => "AnswerBody"@,
            MemorySourceCategory::ConsultationBody => "ConsultationBody"@,
            MemorySourceCategory::IntegrationErrorBody => "IntegrationErrorBody"@,
        }
    }

    fn tell(&self) -> (text: String) {
        match self {
            MemorySourceCategory::SpecificationStructure => "SpecificationStructure".to_owned(),
            MemorySourceCategory::ApprovedOutcome => "ApprovedOutcome".to_owned(),
            MemorySourceCategory::ArchiveManifest => "ArchiveManifest".to_owned(),
            MemorySourceCategory::RuntimeProvenance => "RuntimeProvenance".to_owned(),
            MemorySourceCategory::TaskBody => "TaskBody".to_owned(),
            MemorySourceCategory::SubmissionBody => "SubmissionBody".to_owned(),
            MemorySourceCategory::ReviewBody => "ReviewBody".to_owned(),
            MemorySourceCategory::PatchBody => "PatchBody".to_owned(),
            MemorySourceCategory::CheckLogBody => "CheckLogBody".to_owned(),
            MemorySourceCategory::QuestionBody => "QuestionBody".to_owned(),
            MemorySourceCategory::AnswerBody => "AnswerBody".to_owned(),
            MemorySourceCategory::ConsultationBody => "ConsultationBody".to_owned(),
            MemorySourceCategory::IntegrationErrorBody => "IntegrationErrorBody".to_owned(),
        }
    }
}

impl Told for FederatedContextSeed {
    open spec fn told(model: FederatedContextSeedView) -> Seq<char> {
        <FederatedContextSeed as ToJson>::json(model)
    }

    fn tell(&self) -> (text: String) {
        self.to_json()
    }
}

/// The texts of some records, in order and once each.
pub open spec fn told_apart<T: Told>(records: Seq<T::V>) -> Seq<Seq<char>> {
    in_order(records.map_values(|record: T::V| T::told(record)).to_set())
}

fn tell_apart<T: Told>(records: &Vec<T>) -> (texts: Vec<String>)
    ensures
        texts.deep_view() == told_apart::<T>(records.deep_view()),
{
    let ghost all = records.deep_view().map_values(|record: T::V| T::told(record));
    let mut texts: Vec<String> = Vec::new();
    let mut at: usize = 0;
    while at < records.len()
        invariant
            at <= records.len(),
            all == records.deep_view().map_values(|record: T::V| T::told(record)),
            texts.deep_view() =~= all.take(at as int),
        decreases records.len() - at,
    {
        let ghost before = texts.deep_view();
        let text = records[at].tell();
        texts.push(text);
        assert(texts.deep_view() =~= before.push(text@));
        at += 1;
    }
    assert(texts.deep_view() =~= all);
    sorted_distinct(&texts)
}

/// The members of what a federated search is told apart by.
pub open spec fn search_shape(request: FederatedSearchRequestView) -> Seq<(Seq<char>, Seq<char>)> {
    seq![
        ("project"@, <crate::domain::ProjectRef as ToJson>::json(request.scope.project)),
        ("target"@, <FederatedTarget as ToJson>::json(request.scope.target)),
        ("text"@, json_string(lowercase(trimmed(request.text)))),
        (
            "repository_kinds"@,
            <Vec<String> as ToJson>::json(told_apart::<MemoryStatusToken>(request.repository_kinds)),
        ),
        (
            "repository_paths"@,
            <Vec<String> as ToJson>::json(told_apart::<RepoPath>(request.repository_paths)),
        ),
        (
            "memory_kinds"@,
            <Vec<String> as ToJson>::json(told_apart::<MemoryEntityKind>(request.memory_kinds)),
        ),
        (
            "memory_sources"@,
            <Vec<String> as ToJson>::json(told_apart::<MemorySourceCategory>(request.memory_sources)),
        ),
    ]
}

/// What tells two federated searches apart.
pub open spec fn search_identity(request: FederatedSearchRequestView) -> Seq<char> {
    federation_digest(json_array(seq![json_string("search"@), json_object(search_shape(request))]))
}

/// What tells two federated searches apart: what they read, their text but for case and surrounding
/// space, and their filters in whatever order.
pub fn federated_search_fingerprint(request: &FederatedSearchRequest) -> (digest: String)
    ensures
        digest@ == search_identity(request.deep_view()),
{
    let text = trim(request.text.as_str());
    let lower = to_lowercase(text.as_str());
    let object = JsonObject::new()
        .member("project", request.scope.project.to_json())
        .member("target", request.scope.target.to_json())
        .member("text", text_json(lower.as_str()))
        .member("repository_kinds", tell_apart(&request.repository_kinds).to_json())
        .member("repository_paths", tell_apart(&request.repository_paths).to_json())
        .member("memory_kinds", tell_apart(&request.memory_kinds).to_json())
        .member("memory_sources", tell_apart(&request.memory_sources).to_json());
    assert(object.members() =~= search_shape(request.deep_view()));
    let array = JsonArray::new().item(text_json("search")).item(object.finish());
    assert(array.items() =~= seq![
        json_string("search"@),
        json_object(search_shape(request.deep_view())),
    ]);
    hash(array.finish())
}

/// The members of what a question for federated context is told apart by.
pub open spec fn context_shape(
    request: FederatedContextRequestView,
) -> Seq<(Seq<char>, Seq<char>)> {
    seq![
        ("project"@, <crate::domain::ProjectRef as ToJson>::json(request.scope.project)),
        ("target"@, <FederatedTarget as ToJson>::json(request.scope.target)),
        (
            "seeds"@,
            <Vec<String> as ToJson>::json(told_apart::<FederatedContextSeed>(request.seeds)),
        ),
        ("repository_policy"@, <ContextPolicy as ToJson>::json(request.repository_policy)),
        ("memory_policy"@, <MemoryContextPolicy as ToJson>::json(request.memory_policy)),
        ("max_depth"@, <u32 as ToJson>::json(request.scope.budget.max_depth)),
    ]
}

/// What tells two questions for federated context apart.
pub open spec fn context_identity(request: FederatedContextRequestView) -> Seq<char> {
    federation_digest(json_array(seq![json_string("context"@), json_object(context_shape(request))]))
}

/// What tells two questions for federated context apart: what they read, their seeds in whatever
/// order, their policies and how deep they go.
pub fn federated_context_fingerprint(request: &FederatedContextRequest) -> (digest: String)
    ensures
        digest@ == context_identity(request.deep_view()),
{
    let object = JsonObject::new()
        .member("project", request.scope.project.to_json())
        .member("target", request.scope.target.to_json())
        .member("seeds", tell_apart(&request.seeds).to_json())
        .member("repository_policy", request.repository_policy.to_json())
        .member("memory_policy", request.memory_policy.to_json())
        .member("max_depth", request.scope.budget.max_depth.get().to_json());
    assert(object.members() =~= context_shape(request.deep_view()));
    let array = JsonArray::new().item(text_json("context")).item(object.finish());
    assert(array.items() =~= seq![
        json_string("context"@),
        json_object(context_shape(request.deep_view())),
    ]);
    hash(array.finish())
}

}
