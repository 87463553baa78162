//! Where the memory meets what lies outside it.
use vstd::prelude::*;
use crate::diagnostics::{
    MemoryDiagnostic, MemoryDiagnosticCode, MemoryDiagnosticView, MemoryLifecycleEvent,
};
use crate::documents::{
    ArchiveSourceDocument, ArchiveSourceDocumentView, RuntimeSourceDocument,
    RuntimeSourceDocumentView,
};
use crate::domain::{
    AuthorizedSourceDescriptor, AuthorizedSourceDescriptorView, AuthorizedSourceManifest,
    AuthorizedSourceManifestView, MemoryBuildId,
    MemoryExtractorIdentity, MemoryExtractorIdentityView, MemoryFragment, MemoryFragmentView,
    MemorySourceCategory, ProjectRef, ProjectRefView, MemoryRelationship, MemoryRelationshipView,
    MemoryRepositoryLinkSet, MemoryRepositoryLinkSetId,
    MemoryRepositoryLinkSetView, MemoryRevisionId,
};
use crate::links::{LocalRepositoryLinkResolver, LocalRepositoryLinkResolverView};
use crate::query::{
    MemoryContentRequest, MemoryContentRequestView, MemoryContentResponse,
    MemoryContentResponseView, MemoryContextRequest, MemoryContextRequestView,
    MemoryContextResponse, MemoryContextResponseView, MemoryQueryError, MemoryQueryErrorView,
    MemorySearchRequest, MemorySearchRequestView, MemorySearchResponse, MemorySearchResponseView,
    MemoryStatusRequest, MemoryStatusRequestView, MemoryStatusResponse, MemoryStatusResponseView,
};
use crate::record::{outcome, Record};
use crate::repository::{
    ContextRequest, ContextRequestView, ContextResponse, ContextResponseView, QueryErrorCode,
    QueryScope, QueryScopeView, RepositoryRef, RepositoryRefView, SearchRequest, SearchRequestView,
    SearchResponse, SearchResponseView, SnapshotId, StatusResponse, StatusResponseView,
};
use crate::scope::ReadFailure;
use crate::text::{decimal, decimal_of, joined};

verus! {

/// Reads the content of authorized sources.
pub trait MemoryContent {
    /// What was asked for so far, with the milliseconds that each answer could take.
    open spec fn requests(&self) -> Seq<(MemoryContentRequestView, u64)> {
        Seq::empty()
    }

    /// What was answered so far.
    open spec fn replies(&self) -> Seq<Result<MemoryContentResponseView, MemoryQueryErrorView>> {
        Seq::empty()
    }

    /// Reads the content of a source in so many milliseconds at most.
    fn content_with_deadline(
        &mut self,
        request: MemoryContentRequest,
        max_duration_ms: u64,
    ) -> (result: Result<MemoryContentResponse, MemoryQueryError>)
        ensures
            final(self).requests() == old(self).requests().push(
                (request.deep_view(), max_duration_ms),
            ),
            final(self).replies() == old(self).replies().push(outcome(result)),
    ;

    /// Reads the content of a source, however long it takes.
    fn content(&mut self, request: MemoryContentRequest) -> (result: Result<
        MemoryContentResponse,
        MemoryQueryError,
    >)
        ensures
            final(self).requests() == old(self).requests().push((request.deep_view(), u64::MAX)),
            final(self).replies() == old(self).replies().push(outcome(result)),
    {
        self.content_with_deadline(request, u64::MAX)
    }
}

/// Answers questions about a project's memory.
pub trait MemoryQuery {
    /// The questions for the state so far, with their answers.
    open spec fn statuses(
        &self,
    ) -> Seq<(MemoryStatusRequestView, Result<MemoryStatusResponseView, MemoryQueryErrorView>)> {
        Seq::empty()
    }

    /// The searches so far, with their answers.
    open spec fn searches(
        &self,
    ) -> Seq<(MemorySearchRequestView, Result<MemorySearchResponseView, MemoryQueryErrorView>)> {
        Seq::empty()
    }

    /// The questions for context so far, with their answers.
    open spec fn contexts(
        &self,
    ) -> Seq<(MemoryContextRequestView, Result<MemoryContextResponseView, MemoryQueryErrorView>)> {
        Seq::empty()
    }

    /// Tells the state of the memory.
    fn status(
        &mut self,
        request: &MemoryStatusRequest,
    ) -> (result: Result<MemoryStatusResponse, MemoryQueryError>)
        ensures
            final(self).statuses() == old(self).statuses().push((request.deep_view(), outcome(result))),
            final(self).searches() == old(self).searches(),
            final(self).contexts() == old(self).contexts(),
    ;

    /// Searches the memory.
    fn search(
        &mut self,
        request: &MemorySearchRequest,
    ) -> (result: Result<MemorySearchResponse, MemoryQueryError>)
        ensures
            final(self).searches() == old(self).searches().push((request.deep_view(), outcome(result))),
            final(self).statuses() == old(self).statuses(),
            final(self).contexts() == old(self).contexts(),
    ;

    /// Gathers the context around some seeds.
    fn context(
        &mut self,
        request: &MemoryContextRequest,
    ) -> (result: Result<MemoryContextResponse, MemoryQueryError>)
        ensures
            final(self).contexts() == old(self).contexts().push((request.deep_view(), outcome(result))),
            final(self).statuses() == old(self).statuses(),
            final(self).searches() == old(self).searches(),
    ;
}

/// Answers questions about a repository's graph.
pub trait GraphQuery {
    /// The questions for the state so far, with their answers.
    open spec fn statuses(
        &self,
    ) -> Seq<(QueryScopeView, Result<StatusResponseView, QueryErrorCode>)> {
        Seq::empty()
    }

    /// The searches so far, with their answers.
    open spec fn searches(
        &self,
    ) -> Seq<(SearchRequestView, Result<SearchResponseView, QueryErrorCode>)> {
        Seq::empty()
    }

    /// The questions for context so far, with their answers.
    open spec fn contexts(
        &self,
    ) -> Seq<(ContextRequestView, Result<ContextResponseView, QueryErrorCode>)> {
        Seq::empty()
    }

    /// Tells the state of the graph.
    fn status(&mut self, request: &QueryScope) -> (result: Result<StatusResponse, QueryErrorCode>)
        ensures
            final(self).statuses() == old(self).statuses().push((request.deep_view(), outcome(result))),
            final(self).searches() == old(self).searches(),
            final(self).contexts() == old(self).contexts(),
    ;

    /// Searches the graph.
    fn search(
        &mut self,
        request: &SearchRequest,
    ) -> (result: Result<SearchResponse, QueryErrorCode>)
        ensures
            final(self).searches() == old(self).searches().push((request.deep_view(), outcome(result))),
            final(self).statuses() == old(self).statuses(),
            final(self).contexts() == old(self).contexts(),
    ;

    /// Gathers the context around some seeds.
    fn context(
        &mut self,
        request: &ContextRequest,
    ) -> (result: Result<ContextResponse, QueryErrorCode>)
        ensures
            final(self).contexts() == old(self).contexts().push((request.deep_view(), outcome(result))),
            final(self).statuses() == old(self).statuses(),
            final(self).searches() == old(self).searches(),
    ;
}

/// Which links are looked for: those of a revision to a snapshot of a repository.
#[derive(Debug, PartialEq, Eq)]
pub struct LinkSetRequest {
    pub revision_id: MemoryRevisionId,
    pub repository: RepositoryRef,
    pub snapshot_id: Option<SnapshotId>,
}

/// The model of [`LinkSetRequest`].
pub struct LinkSetRequestView {
    pub revision_id: Seq<char>,
    pub repository: RepositoryRefView,
    pub snapshot_id: Option<Seq<char>>,
}

impl DeepView for LinkSetRequest {
    type V = LinkSetRequestView;

    open spec fn deep_view(&self) -> LinkSetRequestView {
        LinkSetRequestView {
            revision_id: self.revision_id.deep_view(),
            repository: self.repository.deep_view(),
            snapshot_id: self.snapshot_id.deep_view(),
        }
    }
}

impl Record for LinkSetRequest {
    fn copied(&self) -> (copy: Self) {
        LinkSetRequest {
            revision_id: self.revision_id.copied(),
            repository: self.repository.copied(),
            snapshot_id: self.snapshot_id.copied(),
        }
    }

    fn same(&self, other: &Self) -> (same: bool) {
        self.revision_id.same(&other.revision_id)
            && self.repository.same(&other.repository)
            && self.snapshot_id.same(&other.snapshot_id)
    }
}

impl Clone for LinkSetRequest {
    fn clone(&self) -> (copy: Self)
        ensures
            copy.deep_view() == self.deep_view(),
    {
        self.copied()
    }
}

/// Which links are read, and at what cost.
#[derive(Debug, PartialEq, Eq)]
pub struct LinksRequest {
    pub link_set_id: MemoryRepositoryLinkSetId,
    pub max_links: u32,
    pub max_diagnostics: u32,
    pub max_duration_ms: u64,
}

/// The model of [`LinksRequest`].
pub struct LinksRequestView {
    pub link_set_id: Seq<char>,
    pub max_links: u32,
    pub max_diagnostics: u32,
    pub max_duration_ms: u64,
}

impl DeepView for LinksRequest {
    type V = LinksRequestView;

    open spec fn deep_view(&self) -> LinksRequestView {
        LinksRequestView {
            link_set_id: self.link_set_id.deep_view(),
            max_links: self.max_links.deep_view(),
            max_diagnostics: self.max_diagnostics.deep_view(),
            max_duration_ms: self.max_duration_ms.deep_view(),
        }
    }
}

impl Record for LinksRequest {
    fn copied(&self) -> (copy: Self) {
        LinksRequest {
            link_set_id: self.link_set_id.copied(),
            max_links: self.max_links.copied(),
            max_diagnostics: self.max_diagnostics.copied(),
            max_duration_ms: self.max_duration_ms.copied(),
        }
    }

    fn same(&self, other: &Self) -> (same: bool) {
        self.link_set_id.same(&other.link_set_id)
            && self.max_links.same(&other.max_links)
            && self.max_diagnostics.same(&other.max_diagnostics)
            && self.max_duration_ms.same(&other.max_duration_ms)
    }
}

impl Clone for LinksRequest {
    fn clone(&self) -> (copy: Self)
        ensures
            copy.deep_view() == self.deep_view(),
    {
        self.copied()
    }
}

/// Links of a set, as many as were asked for and could be read in time.
#[derive(Debug, PartialEq, Eq)]
pub struct BoundedRepositoryLinks {
    pub relationships: Vec<MemoryRelationship>,
    pub diagnostics: Vec<MemoryDiagnostic>,
    pub truncated: bool,
    pub duration_exceeded: bool,
}

/// The model of [`BoundedRepositoryLinks`].
pub struct BoundedRepositoryLinksView {
    pub relationships: Seq<MemoryRelationshipView>,
    pub diagnostics: Seq<MemoryDiagnosticView>,
    pub truncated: bool,
    pub duration_exceeded: bool,
}

impl DeepView for BoundedRepositoryLinks {
    type V = BoundedRepositoryLinksView;

    open spec fn deep_view(&self) -> BoundedRepositoryLinksView {
        BoundedRepositoryLinksView {
            relationships: self.relationships.deep_view(),
            diagnostics: self.diagnostics.deep_view(),
            truncated: self.truncated.deep_view(),
            duration_exceeded: self.duration_exceeded.deep_view(),
        }
    }
}

impl Record for BoundedRepositoryLinks {
    fn copied(&self) -> (copy: Self) {
        BoundedRepositoryLinks {
            relationships: self.relationships.copied(),
            diagnostics: self.diagnostics.copied(),
            truncated: self.truncated.copied(),
            duration_exceeded: self.duration_exceeded.copied(),
        }
    }

    fn same(&self, other: &Self) -> (same: bool) {
        self.relationships.same(&other.relationships)
            && self.diagnostics.same(&other.diagnostics)
            && self.truncated.same(&other.truncated)
            && self.duration_exceeded.same(&other.duration_exceeded)
    }
}

impl Clone for BoundedRepositoryLinks {
    fn clone(&self) -> (copy: Self)
        ensures
            copy.deep_view() == self.deep_view(),
    {
        self.copied()
    }
}

/// Keeps the links between revisions of the memory and snapshots of repositories.
pub trait MemoryLinkStore {
    /// The link sets that were looked for so far, with what was found.
    open spec fn set_reads(&self) -> Seq<
        (LinkSetRequestView, Result<Option<MemoryRepositoryLinkSetView>, ReadFailure>),
    > {
        Seq::empty()
    }

    /// The links that were read so far.
    open spec fn link_reads(
        &self,
    ) -> Seq<(LinksRequestView, Result<BoundedRepositoryLinksView, ReadFailure>)> {
        Seq::empty()
    }

    /// Finds the set of links of a revision to a snapshot of a repository.
    fn repository_link_set_for_snapshot(&mut self, request: &LinkSetRequest) -> (result: Result<
        Option<MemoryRepositoryLinkSet>,
        ReadFailure,
    >)
        ensures
            final(self).set_reads() == old(self).set_reads().push(
                (request.deep_view(), outcome(result)),
            ),
            final(self).link_reads() == old(self).link_reads(),
    ;

    /// Reads the links of a set.
    fn bounded_repository_links(&mut self, request: &LinksRequest) -> (result: Result<
        BoundedRepositoryLinks,
        ReadFailure,
    >)
        ensures
            final(self).link_reads() == old(self).link_reads().push(
                (request.deep_view(), outcome(result)),
            ),
            final(self).set_reads() == old(self).set_reads(),
    ;
}

/// The content of a source.
#[derive(PartialEq, Eq)]
pub struct MemorySourceContent {
    pub bytes: Vec<u8>,
}

/// The model of [`MemorySourceContent`].
pub struct MemorySourceContentView {
    pub bytes: Seq<u8>,
}

impl DeepView for MemorySourceContent {
    type V = MemorySourceContentView;

    open spec fn deep_view(&self) -> MemorySourceContentView {
        MemorySourceContentView {
            bytes: self.bytes.deep_view(),
        }
    }
}

impl Record for MemorySourceContent {
    fn copied(&self) -> (copy: Self) {
        MemorySourceContent {
            bytes: self.bytes.copied(),
        }
    }

    fn same(&self, other: &Self) -> (same: bool) {
        self.bytes.same(&other.bytes)
    }
}

impl Clone for MemorySourceContent {
    fn clone(&self) -> (copy: Self)
        ensures
            copy.deep_view() == self.deep_view(),
    {
        self.copied()
    }
}

impl MemorySourceContent {
    /// What may be said of the content: its length, and nothing of what it holds.
    pub fn description(&self) -> (text: String)
        ensures
            text@ == content_description(self.bytes@.len()),
    {
        let length = decimal_of(self.bytes.len() as u64);
        let mut text = joined("MemorySourceContent { byte_len: ", length.as_str());
        text.append(" }");
        text
    }
}

/// What may be said of content of this length.
pub open spec fn content_description(len: nat) -> Seq<char> {
    "MemorySourceContent { byte_len: "@ + decimal(len) + " }"@
}

/// For what facts are extracted, and how many may be.
#[derive(Debug, PartialEq, Eq)]
pub struct MemoryExtractionContext {
    pub project: ProjectRef,
    pub revision_id: MemoryRevisionId,
    pub build_id: MemoryBuildId,
    pub indexed_at: String,
    pub max_entities_per_source: u64,
    pub max_relationships_per_source: u64,
    pub max_parser_duration_ms: u64,
    pub max_diagnostics: u64,
}

/// The model of [`MemoryExtractionContext`].
pub struct MemoryExtractionContextView {
    pub project: ProjectRefView,
    pub revision_id: Seq<char>,
    pub build_id: Seq<char>,
    pub indexed_at: Seq<char>,
    pub max_entities_per_source: u64,
    pub max_relationships_per_source: u64,
    pub max_parser_duration_ms: u64,
    pub max_diagnostics: u64,
}

impl DeepView for MemoryExtractionContext {
    type V = MemoryExtractionContextView;

    open spec fn deep_view(&self) -> MemoryExtractionContextView {
        MemoryExtractionContextView {
            project: self.project.deep_view(),
            revision_id: self.revision_id.deep_view(),
            build_id: self.build_id.deep_view(),
            indexed_at: self.indexed_at.deep_view(),
            max_entities_per_source: self.max_entities_per_source.deep_view(),
            max_relationships_per_source: self.max_relationships_per_source.deep_view(),
            max_parser_duration_ms: self.max_parser_duration_ms.deep_view(),
            max_diagnostics: self.max_diagnostics.deep_view(),
        }
    }
}

impl Record for MemoryExtractionContext {
    fn copied(&self) -> (copy: Self) {
        MemoryExtractionContext {
            project: self.project.copied(),
            revision_id: self.revision_id.copied(),
            build_id: self.build_id.copied(),
            indexed_at: self.indexed_at.copied(),
            max_entities_per_source: self.max_entities_per_source.copied(),
            max_relationships_per_source: self.max_relationships_per_source.copied(),
            max_parser_duration_ms: self.max_parser_duration_ms.copied(),
            max_diagnostics: self.max_diagnostics.copied(),
        }
    }

    fn same(&self, other: &Self) -> (same: bool) {
        self.project.same(&other.project)
            && self.revision_id.same(&other.revision_id)
            && self.build_id.same(&other.build_id)
            && self.indexed_at.same(&other.indexed_at)
            && self.max_entities_per_source.same(&other.max_entities_per_source)
            && self.max_relationships_per_source.same(&other.max_relationships_per_source)
            && self.max_parser_duration_ms.same(&other.max_parser_duration_ms)
            && self.max_diagnostics.same(&other.max_diagnostics)
    }
}

impl Clone for MemoryExtractionContext {
    fn clone(&self) -> (copy: Self)
        ensures
            copy.deep_view() == self.deep_view(),
    {
        self.copied()
    }
}

/// The record that a source was read as, where it is one.
#[derive(Debug, PartialEq, Eq)]
#[allow(inconsistent_fields)]
pub enum SourceDocument {
    Absent,
    Archive(ArchiveSourceDocument),
    Runtime(RuntimeSourceDocument),
}

/// The model of [`SourceDocument`].
#[allow(inconsistent_fields)]
pub enum SourceDocumentView {
    Absent,
    Archive(ArchiveSourceDocumentView),
    Runtime(RuntimeSourceDocumentView),
}

impl DeepView for SourceDocument {
    type V = SourceDocumentView;

    open spec fn deep_view(&self) -> SourceDocumentView {
        match self {
            SourceDocument::Absent => SourceDocumentView::Absent,
            SourceDocument::Archive(value) => SourceDocumentView::Archive(value.deep_view()),
            SourceDocument::Runtime(value) => SourceDocumentView::Runtime(value.deep_view()),
        }
    }
}

impl Record for SourceDocument {
    fn copied(&self) -> (copy: Self) {
        match self {
            SourceDocument::Absent => SourceDocument::Absent,
            SourceDocument::Archive(value) => SourceDocument::Archive(value.copied()),
            SourceDocument::Runtime(value) => SourceDocument::Runtime(value.copied()),
        }
    }

    fn same(&self, other: &Self) -> (same: bool) {
        match self {
            SourceDocument::Absent => matches!(other, SourceDocument::Absent),
            SourceDocument::Archive(left) => match other {
                SourceDocument::Archive(right) => left.same(right),
                _ => false,
            },
            SourceDocument::Runtime(left) => match other {
                SourceDocument::Runtime(right) => left.same(right),
                _ => false,
            },
        }
    }
}

impl Clone for SourceDocument {
    fn clone(&self) -> (copy: Self)
        ensures
            copy.deep_view() == self.deep_view(),
    {
        self.copied()
    }
}

/// That an extractor could not read a source.
#[derive(Debug, PartialEq, Eq)]
pub struct MemoryExtractionFailure {
    pub extractor: MemoryExtractorIdentity,
    pub code: MemoryDiagnosticCode,
}

/// The model of [`MemoryExtractionFailure`].
pub struct MemoryExtractionFailureView {
    pub extractor: MemoryExtractorIdentityView,
    pub code: Seq<char>,
}

impl DeepView for MemoryExtractionFailure {
    type V = MemoryExtractionFailureView;

    open spec fn deep_view(&self) -> MemoryExtractionFailureView {
        MemoryExtractionFailureView {
            extractor: self.extractor.deep_view(),
            code: self.code.deep_view(),
        }
    }
}

impl Record for MemoryExtractionFailure {
    fn copied(&self) -> (copy: Self) {
        MemoryExtractionFailure {
            extractor: self.extractor.copied(),
            code: self.code.copied(),
        }
    }

    fn same(&self, other: &Self) -> (same: bool) {
        self.extractor.same(&other.extractor)
            && self.code.same(&other.code)
    }
}

impl Clone for MemoryExtractionFailure {
    fn clone(&self) -> (copy: Self)
        ensures
            copy.deep_view() == self.deep_view(),
    {
        self.copied()
    }
}

/// Why a build failed.
#[derive(Debug, PartialEq, Eq)]
pub struct MemoryBuildFailure {
    pub code: MemoryDiagnosticCode,
}

/// The model of [`MemoryBuildFailure`].
pub struct MemoryBuildFailureView {
    pub code: Seq<char>,
}

impl DeepView for MemoryBuildFailure {
    type V = MemoryBuildFailureView;

    open spec fn deep_view(&self) -> MemoryBuildFailureView {
        MemoryBuildFailureView {
            code: self.code.deep_view(),
        }
    }
}

impl Record for MemoryBuildFailure {
    fn copied(&self) -> (copy: Self) {
        MemoryBuildFailure {
            code: self.code.copied(),
        }
    }

    fn same(&self, other: &Self) -> (same: bool) {
        self.code.same(&other.code)
    }
}

impl Clone for MemoryBuildFailure {
    fn clone(&self) -> (copy: Self)
        ensures
            copy.deep_view() == self.deep_view(),
    {
        self.copied()
    }
}

/// A source, as an extractor gets it.
#[derive(Clone, Copy)]
pub struct MemoryExtractionInput<'a> {
    pub context: &'a MemoryExtractionContext,
    pub source: &'a AuthorizedSourceDescriptor,
    pub content: &'a [u8],
    pub document: &'a SourceDocument,
}

/// The model of [`MemoryExtractionInput`].
pub struct MemoryExtractionInputView {
    pub context: MemoryExtractionContextView,
    pub source: AuthorizedSourceDescriptorView,
    pub content: Seq<u8>,
    pub document: SourceDocumentView,
}

impl<'a> DeepView for MemoryExtractionInput<'a> {
    type V = MemoryExtractionInputView;

    open spec fn deep_view(&self) -> MemoryExtractionInputView {
        MemoryExtractionInputView {
            context: self.context.deep_view(),
            source: self.source.deep_view(),
            content: self.content@,
            document: self.document.deep_view(),
        }
    }
}

/// Makes facts out of sources.
pub trait MemoryExtractor {
    /// Which extractor it is.
    spec fn named(&self) -> MemoryExtractorIdentityView;

    /// Whether it reads sources of a category.
    spec fn reads(&self, category: MemorySourceCategory) -> bool;

    /// The facts of a source.
    spec fn facts(&self, input: MemoryExtractionInputView) -> Result<
        MemoryFragmentView,
        MemoryExtractionFailureView,
    >;

    /// Which extractor it is.
    fn identity(&self) -> (identity: MemoryExtractorIdentity)
        ensures
            identity.deep_view() == self.named(),
    ;

    /// Whether it reads sources of a category.
    fn supports(&self, category: MemorySourceCategory) -> (supported: bool)
        ensures
            supported == self.reads(category),
    ;

    /// Makes the facts of a source.
    fn extract(&self, input: &MemoryExtractionInput) -> (result: Result<
        MemoryFragment,
        MemoryExtractionFailure,
    >)
        ensures
            outcome(result) == self.facts(input.deep_view()),
    ;
}

/// Why a source was not discovered or not read.
#[derive(Debug, Clone, Copy, PartialEq, Eq, PartialOrd, Ord, Hash, Structural)]
pub enum MemorySourceError {
    Unavailable,
    NotDiscovered,
    Unbounded,
    SpecificationChanged,
    RecordChanged,
    SourcesChanged,
    NotUtf8,
    OutcomeMissing,
    UnsupportedCategory,
    PathNotUtf8,
    InvalidPath,
    InvalidValue,
    TooManySources,
    TooManyArchives,
    TooManyProofs,
    TooManyTasks,
    TooManyRuns,
    TooManyChecks,
    ListingTooLarge,
    RuntimeTooLarge,
    ForeignSource,
}

impl DeepView for MemorySourceError {
    type V = MemorySourceError;

    open spec fn deep_view(&self) -> MemorySourceError {
        *self
    }
}

impl MemorySourceError {
    /// A short name of the error.
    pub open spec fn name(self) -> Seq<char> {
        match self {
            MemorySourceError::Unavailable => "unavailable"@,
            MemorySourceError::NotDiscovered => "not_discovered"@,
            MemorySourceError::Unbounded => "unbounded"@,
            MemorySourceError::SpecificationChanged => "specification_changed"@,
            MemorySourceError::RecordChanged => "record_changed"@,
            MemorySourceError::SourcesChanged => "sources_changed"@,
            MemorySourceError::NotUtf8 => "not_utf8"@,
            MemorySourceError::OutcomeMissing => "outcome_missing"@,
            MemorySourceError::UnsupportedCategory => "unsupported_category"@,
            MemorySourceError::PathNotUtf8 => "path_not_utf8"@,
            MemorySourceError::InvalidPath => "invalid_path"@,
            MemorySourceError::InvalidValue => "invalid_value"@,
            MemorySourceError::TooManySources => "too_many_sources"@,
            MemorySourceError::TooManyArchives => "too_many_archives"@,
            MemorySourceError::TooManyProofs => "too_many_proofs"@,
            MemorySourceError::TooManyTasks => "too_many_tasks"@,
            MemorySourceError::TooManyRuns => "too_many_runs"@,
            MemorySourceError::TooManyChecks => "too_many_checks"@,
            MemorySourceError::ListingTooLarge => "listing_too_large"@,
            MemorySourceError::RuntimeTooLarge => "runtime_too_large"@,
            MemorySourceError::ForeignSource => "foreign_source"@,
        }
    }

    /// A short name of the error.
    pub fn as_str(self) -> (name: &'static str)
        ensures
            name@ == self.name(),
    {
        match self {
            MemorySourceError::Unavailable => "unavailable",
            MemorySourceError::NotDiscovered => "not_discovered",
            MemorySourceError::Unbounded => "unbounded",
            MemorySourceError::SpecificationChanged => "specification_changed",
            MemorySourceError::RecordChanged => "record_changed",
            MemorySourceError::SourcesChanged => "sources_changed",
            MemorySourceError::NotUtf8 => "not_utf8",
            MemorySourceError::OutcomeMissing => "outcome_missing",
            MemorySourceError::UnsupportedCategory => "unsupported_category",
            MemorySourceError::PathNotUtf8 => "path_not_utf8",
            MemorySourceError::InvalidPath => "invalid_path",
            MemorySourceError::InvalidValue => "invalid_value",
            MemorySourceError::TooManySources => "too_many_sources",
            MemorySourceError::TooManyArchives => "too_many_archives",
            MemorySourceError::TooManyProofs => "too_many_proofs",
            MemorySourceError::TooManyTasks => "too_many_tasks",
            MemorySourceError::TooManyRuns => "too_many_runs",
            MemorySourceError::TooManyChecks => "too_many_checks",
            MemorySourceError::ListingTooLarge => "listing_too_large",
            MemorySourceError::RuntimeTooLarge => "runtime_too_large",
            MemorySourceError::ForeignSource => "foreign_source",
        }
    }
}

impl Record for MemorySourceError {
    fn copied(&self) -> (copy: Self) {
        *self
    }

    fn same(&self, other: &Self) -> (same: bool) {
        *self == *other
    }
}

/// A source that was read and found to be what was authorized.
#[derive(PartialEq, Eq)]
pub struct SourceRead {
    pub content: MemorySourceContent,
    pub document: SourceDocument,
}

/// The model of [`SourceRead`].
pub struct SourceReadView {
    pub content: MemorySourceContentView,
    pub document: SourceDocumentView,
}

impl DeepView for SourceRead {
    type V = SourceReadView;

    open spec fn deep_view(&self) -> SourceReadView {
        SourceReadView {
            content: self.content.deep_view(),
            document: self.document.deep_view(),
        }
    }
}

impl Record for SourceRead {
    fn copied(&self) -> (copy: Self) {
        SourceRead {
            content: self.content.copied(),
            document: self.document.copied(),
        }
    }

    fn same(&self, other: &Self) -> (same: bool) {
        self.content.same(&other.content)
            && self.document.same(&other.document)
    }
}

impl Clone for SourceRead {
    fn clone(&self) -> (copy: Self)
        ensures
            copy.deep_view() == self.deep_view(),
    {
        self.copied()
    }
}

/// The sources of a project's memory: only what the policy allows, and only as it was when it was
/// found.
pub trait MemorySource {
    /// The manifests that were asked for so far.
    open spec fn manifests(&self) -> Seq<Result<AuthorizedSourceManifestView, MemorySourceError>> {
        Seq::empty()
    }

    /// The sources that were read so far.
    open spec fn reads(&self) -> Seq<
        (AuthorizedSourceDescriptorView, Result<SourceReadView, MemorySourceError>),
    > {
        Seq::empty()
    }

    /// The manifests that were compared with the sources so far.
    open spec fn checks(
        &self,
    ) -> Seq<(AuthorizedSourceManifestView, Result<(), MemorySourceError>)> {
        Seq::empty()
    }

    /// All sources.
    fn manifest(&mut self) -> (result: Result<AuthorizedSourceManifest, MemorySourceError>)
        ensures
            final(self).manifests() == old(self).manifests().push(outcome(result)),
            final(self).reads() == old(self).reads(),
            final(self).checks() == old(self).checks(),
    ;

    /// Reads a source that is still what it was.
    fn read_verified(&mut self, source: &AuthorizedSourceDescriptor) -> (result: Result<
        SourceRead,
        MemorySourceError,
    >)
        ensures
            final(self).manifests() == old(self).manifests(),
            final(self).reads() == old(self).reads().push((source.deep_view(), outcome(result))),
            final(self).checks() == old(self).checks(),
    ;

    /// Finds out whether the sources are still those of a manifest.
    fn revalidate(&mut self, manifest: &AuthorizedSourceManifest) -> (result: Result<
        (),
        MemorySourceError,
    >)
        ensures
            final(self).manifests() == old(self).manifests(),
            final(self).reads() == old(self).reads(),
            final(self).checks() == old(self).checks().push((manifest.deep_view(), result)),
    ;
}

/// Gets to know what happens to builds.
pub trait MemoryEventSink {
    type Error;

    /// Tells of an event.
    fn emit(&mut self, event: &MemoryLifecycleEvent) -> Result<(), Self::Error>;
}

/// What opens the repositories that a project's memory links to.
pub trait LinkResolvers {
    /// What was opened so far.
    open spec fn opened(&self) -> Seq<(ProjectRefView, Option<LocalRepositoryLinkResolverView>)> {
        Seq::empty()
    }

    /// Opens the repository of a project, where it can be opened.
    fn open(&mut self, project: &ProjectRef) -> (resolver: Option<LocalRepositoryLinkResolver>)
        ensures
            final(self).opened() == old(self).opened().push(
                (project.deep_view(), resolver.deep_view()),
            ),
    ;
}

}
