//! Requests to a project's memory, and its answers.
use vstd::prelude::*;
use crate::diagnostics::{MemoryDiagnostic, MemoryDiagnosticCode, MemoryDiagnosticView};
use crate::digest::{Digest, DigestView};
use crate::domain::{
    AuthorizedSourceManifest, MemoryBuildId, MemoryBuildState, MemoryEntity, MemoryEntityId,
    MemoryEntityKind, MemoryEntityView, MemoryEvidenceLocator, MemoryEvidenceLocatorView,
    MemoryPageCursor, MemoryQueryText, MemoryRecordId, MemoryRelationship, MemoryRelationshipKind,
    MemoryRelationshipView, MemoryRevisionId, MemorySourceCategory, MemorySourceLocator,
    MemorySourceLocatorView, MemoryViewName, ProjectRef, ProjectRefView,
};
use crate::json::{json_object, json_string, text_json, JsonObject, ToJson};
use crate::record::Record;
use crate::policy::{MemorySourcePolicyStatus, MemorySourcePolicyStatusView};
use crate::repository::{EdgeDirection, RepoPath, Score, ScoreView, SemanticKey};
use crate::value::{NonZeroU32, NonZeroU64};
use crate::MEMORY_QUERY_WIRE_VERSION;

verus! {

/// What a query may use.
#[derive(Debug, PartialEq, Eq)]
pub struct MemoryQueryBudget {
    pub max_results: NonZeroU32,
    pub max_bytes: NonZeroU64,
    pub max_snippet_bytes: NonZeroU64,
    pub max_depth: NonZeroU32,
    pub max_duration_ms: NonZeroU64,
    pub max_diagnostics: NonZeroU32,
}

/// The model of [`MemoryQueryBudget`].
pub struct MemoryQueryBudgetView {
    pub max_results: u32,
    pub max_bytes: u64,
    pub max_snippet_bytes: u64,
    pub max_depth: u32,
    pub max_duration_ms: u64,
    pub max_diagnostics: u32,
}

impl DeepView for MemoryQueryBudget {
    type V = MemoryQueryBudgetView;

    open spec fn deep_view(&self) -> MemoryQueryBudgetView {
        MemoryQueryBudgetView {
            max_results: self.max_results.deep_view(),
            max_bytes: self.max_bytes.deep_view(),
            max_snippet_bytes: self.max_snippet_bytes.deep_view(),
            max_depth: self.max_depth.deep_view(),
            max_duration_ms: self.max_duration_ms.deep_view(),
            max_diagnostics: self.max_diagnostics.deep_view(),
        }
    }
}

impl Record for MemoryQueryBudget {
    fn copied(&self) -> (copy: Self) {
        MemoryQueryBudget {
            max_results: self.max_results.copied(),
            max_bytes: self.max_bytes.copied(),
            max_snippet_bytes: self.max_snippet_bytes.copied(),
            max_depth: self.max_depth.copied(),
            max_duration_ms: self.max_duration_ms.copied(),
            max_diagnostics: self.max_diagnostics.copied(),
        }
    }

    fn same(&self, other: &Self) -> (same: bool) {
        self.max_results.same(&other.max_results)
            && self.max_bytes.same(&other.max_bytes)
            && self.max_snippet_bytes.same(&other.max_snippet_bytes)
            && self.max_depth.same(&other.max_depth)
            && self.max_duration_ms.same(&other.max_duration_ms)
            && self.max_diagnostics.same(&other.max_diagnostics)
    }
}

impl Clone for MemoryQueryBudget {
    fn clone(&self) -> (copy: Self)
        ensures
            copy.deep_view() == self.deep_view(),
    {
        self.copied()
    }
}

impl MemoryQueryBudgetView {
    /// The members of the JSON object.
    pub open spec fn members(self) -> Seq<(Seq<char>, Seq<char>)> {
        seq![
            ("max_results"@, <NonZeroU32 as ToJson>::json(self.max_results)),
            ("max_bytes"@, <NonZeroU64 as ToJson>::json(self.max_bytes)),
            ("max_snippet_bytes"@, <NonZeroU64 as ToJson>::json(self.max_snippet_bytes)),
            ("max_depth"@, <NonZeroU32 as ToJson>::json(self.max_depth)),
            ("max_duration_ms"@, <NonZeroU64 as ToJson>::json(self.max_duration_ms)),
            ("max_diagnostics"@, <NonZeroU32 as ToJson>::json(self.max_diagnostics)),
        ]
    }
}

impl ToJson for MemoryQueryBudget {
    open spec fn json(model: MemoryQueryBudgetView) -> Seq<char> {
        json_object(model.members())
    }

    fn to_json(&self) -> (text: String) {
        let object = JsonObject::new()
            .member("max_results", self.max_results.to_json())
            .member("max_bytes", self.max_bytes.to_json())
            .member("max_snippet_bytes", self.max_snippet_bytes.to_json())
            .member("max_depth", self.max_depth.to_json())
            .member("max_duration_ms", self.max_duration_ms.to_json())
            .member("max_diagnostics", self.max_diagnostics.to_json());
        assert(object.members() =~= self.deep_view().members());
        object.finish()
    }
}

/// Which revision a query reads.
#[derive(Debug, PartialEq, Eq)]
#[allow(inconsistent_fields)]
pub enum MemoryRevisionSelector {
    Published(MemoryViewName),
    Revision(MemoryRevisionId),
}

/// The model of [`MemoryRevisionSelector`].
#[allow(inconsistent_fields)]
pub enum MemoryRevisionSelectorView {
    Published(Seq<char>),
    Revision(Seq<char>),
}

impl DeepView for MemoryRevisionSelector {
    type V = MemoryRevisionSelectorView;

    open spec fn deep_view(&self) -> MemoryRevisionSelectorView {
        match self {
            MemoryRevisionSelector::Published(value) => {
                MemoryRevisionSelectorView::Published(value.deep_view())
            },
            MemoryRevisionSelector::Revision(value) => {
                MemoryRevisionSelectorView::Revision(value.deep_view())
            },
        }
    }
}

impl Record for MemoryRevisionSelector {
    fn copied(&self) -> (copy: Self) {
        match self {
            MemoryRevisionSelector::Published(value) => {
                MemoryRevisionSelector::Published(value.copied())
            },
            MemoryRevisionSelector::Revision(value) => {
                MemoryRevisionSelector::Revision(value.copied())
            },
        }
    }

    fn same(&self, other: &Self) -> (same: bool) {
        match self {
            MemoryRevisionSelector::Published(left) => match other {
                MemoryRevisionSelector::Published(right) => left.same(right),
                _ => false,
            },
            MemoryRevisionSelector::Revision(left) => match other {
                MemoryRevisionSelector::Revision(right) => left.same(right),
                _ => false,
            },
        }
    }
}

impl Clone for MemoryRevisionSelector {
    fn clone(&self) -> (copy: Self)
        ensures
            copy.deep_view() == self.deep_view(),
    {
        self.copied()
    }
}

impl MemoryRevisionSelectorView {
    /// The members of the JSON object.
    pub open spec fn members(self) -> Seq<(Seq<char>, Seq<char>)> {
        match self {
            MemoryRevisionSelectorView::Published(value) => seq![
                ("type"@, json_string("published"@)),
                ("value"@, <MemoryViewName as ToJson>::json(value)),
            ],
            MemoryRevisionSelectorView::Revision(value) => seq![
                ("type"@, json_string("revision"@)),
                ("value"@, <MemoryRevisionId as ToJson>::json(value)),
            ],
        }
    }
}

impl ToJson for MemoryRevisionSelector {
    open spec fn json(model: MemoryRevisionSelectorView) -> Seq<char> {
        json_object(model.members())
    }

    fn to_json(&self) -> (text: String) {
        let object = match self {
            MemoryRevisionSelector::Published(value) => JsonObject::new()
                .member("type", text_json("published"))
                .member("value", value.to_json()),
            MemoryRevisionSelector::Revision(value) => JsonObject::new()
                .member("type", text_json("revision"))
                .member("value", value.to_json()),
        };
        assert(object.members() =~= self.deep_view().members());
        object.finish()
    }
}

/// What a revision is held against to tell whether it is fresh.
#[derive(Debug, PartialEq, Eq)]
pub struct MemoryFreshnessComparison {
    pub source_set_digest: Digest,
    pub policy_digest: Digest,
    pub extractor_set_digest: Digest,
}

/// The model of [`MemoryFreshnessComparison`].
pub struct MemoryFreshnessComparisonView {
    pub source_set_digest: DigestView,
    pub policy_digest: DigestView,
    pub extractor_set_digest: DigestView,
}

impl DeepView for MemoryFreshnessComparison {
    type V = MemoryFreshnessComparisonView;

    open spec fn deep_view(&self) -> MemoryFreshnessComparisonView {
        MemoryFreshnessComparisonView {
            source_set_digest: self.source_set_digest.deep_view(),
            policy_digest: self.policy_digest.deep_view(),
            extractor_set_digest: self.extractor_set_digest.deep_view(),
        }
    }
}

impl Record for MemoryFreshnessComparison {
    fn copied(&self) -> (copy: Self) {
        MemoryFreshnessComparison {
            source_set_digest: self.source_set_digest.copied(),
            policy_digest: self.policy_digest.copied(),
            extractor_set_digest: self.extractor_set_digest.copied(),
        }
    }

    fn same(&self, other: &Self) -> (same: bool) {
        self.source_set_digest.same(&other.source_set_digest)
            && self.policy_digest.same(&other.policy_digest)
            && self.extractor_set_digest.same(&other.extractor_set_digest)
    }
}

impl Clone for MemoryFreshnessComparison {
    fn clone(&self) -> (copy: Self)
        ensures
            copy.deep_view() == self.deep_view(),
    {
        self.copied()
    }
}

impl MemoryFreshnessComparisonView {
    /// The members of the JSON object.
    pub open spec fn members(self) -> Seq<(Seq<char>, Seq<char>)> {
        seq![
            ("source_set_digest"@, <Digest as ToJson>::json(self.source_set_digest)),
            ("policy_digest"@, <Digest as ToJson>::json(self.policy_digest)),
            ("extractor_set_digest"@, <Digest as ToJson>::json(self.extractor_set_digest)),
        ]
    }
}

impl ToJson for MemoryFreshnessComparison {
    open spec fn json(model: MemoryFreshnessComparisonView) -> Seq<char> {
        json_object(model.members())
    }

    fn to_json(&self) -> (text: String) {
        let object = JsonObject::new()
            .member("source_set_digest", self.source_set_digest.to_json())
            .member("policy_digest", self.policy_digest.to_json())
            .member("extractor_set_digest", self.extractor_set_digest.to_json());
        assert(object.members() =~= self.deep_view().members());
        object.finish()
    }
}

/// What a query reads, and at what cost.
#[derive(Debug, PartialEq, Eq)]
pub struct MemoryQueryScope {
    pub wire_version: u32,
    pub project: ProjectRef,
    pub revision: MemoryRevisionSelector,
    pub budget: MemoryQueryBudget,
    pub freshness_comparison: Option<MemoryFreshnessComparison>,
}

/// The model of [`MemoryQueryScope`].
pub struct MemoryQueryScopeView {
    pub wire_version: u32,
    pub project: ProjectRefView,
    pub revision: MemoryRevisionSelectorView,
    pub budget: MemoryQueryBudgetView,
    pub freshness_comparison: Option<MemoryFreshnessComparisonView>,
}

impl DeepView for MemoryQueryScope {
    type V = MemoryQueryScopeView;

    open spec fn deep_view(&self) -> MemoryQueryScopeView {
        MemoryQueryScopeView {
            wire_version: self.wire_version.deep_view(),
            project: self.project.deep_view(),
            revision: self.revision.deep_view(),
            budget: self.budget.deep_view(),
            freshness_comparison: self.freshness_comparison.deep_view(),
        }
    }
}

impl Record for MemoryQueryScope {
    fn copied(&self) -> (copy: Self) {
        MemoryQueryScope {
            wire_version: self.wire_version.copied(),
            project: self.project.copied(),
            revision: self.revision.copied(),
            budget: self.budget.copied(),
            freshness_comparison: self.freshness_comparison.copied(),
        }
    }

    fn same(&self, other: &Self) -> (same: bool) {
        self.wire_version.same(&other.wire_version)
            && self.project.same(&other.project)
            && self.revision.same(&other.revision)
            && self.budget.same(&other.budget)
            && self.freshness_comparison.same(&other.freshness_comparison)
    }
}

impl Clone for MemoryQueryScope {
    fn clone(&self) -> (copy: Self)
        ensures
            copy.deep_view() == self.deep_view(),
    {
        self.copied()
    }
}

impl MemoryQueryScopeView {
    /// The members of the JSON object.
    pub open spec fn members(self) -> Seq<(Seq<char>, Seq<char>)> {
        seq![
            ("wire_version"@, <u32 as ToJson>::json(self.wire_version)),
            ("project"@, <ProjectRef as ToJson>::json(self.project)),
            ("revision"@, <MemoryRevisionSelector as ToJson>::json(self.revision)),
            ("budget"@, <MemoryQueryBudget as ToJson>::json(self.budget)),
            ("freshness_comparison"@, <Option<MemoryFreshnessComparison> as ToJson>::json(self.freshness_comparison)),
        ]
    }
}

impl ToJson for MemoryQueryScope {
    open spec fn json(model: MemoryQueryScopeView) -> Seq<char> {
        json_object(model.members())
    }

    fn to_json(&self) -> (text: String) {
        let object = JsonObject::new()
            .member("wire_version", self.wire_version.to_json())
            .member("project", self.project.to_json())
            .member("revision", self.revision.to_json())
            .member("budget", self.budget.to_json())
            .member("freshness_comparison", self.freshness_comparison.to_json());
        assert(object.members() =~= self.deep_view().members());
        object.finish()
    }
}

impl MemoryQueryScope {
    /// The scope in the current version, without a freshness comparison.
    pub fn current(
        project: ProjectRef,
        revision: MemoryRevisionSelector,
        budget: MemoryQueryBudget,
    ) -> (scope: Self)
        ensures
            scope.deep_view() == (MemoryQueryScopeView {
                wire_version: MEMORY_QUERY_WIRE_VERSION,
                project: project.deep_view(),
                revision: revision.deep_view(),
                budget: budget.deep_view(),
                freshness_comparison: None,
            }),
    {
        MemoryQueryScope {
            wire_version: MEMORY_QUERY_WIRE_VERSION,
            project,
            revision,
            budget,
            freshness_comparison: None,
        }
    }
}

impl MemoryFreshnessComparison {
    /// What a revision of these sources is held against.
    pub fn from_manifest(manifest: &AuthorizedSourceManifest) -> (comparison: Self)
        ensures
            comparison.deep_view() == (MemoryFreshnessComparisonView {
                source_set_digest: manifest.deep_view().source_set_digest,
                policy_digest: manifest.deep_view().policy_digest,
                extractor_set_digest: manifest.deep_view().extractor_set_digest,
            }),
    {
        MemoryFreshnessComparison {
            source_set_digest: manifest.source_set_digest.copied(),
            policy_digest: manifest.policy_digest.copied(),
            extractor_set_digest: manifest.extractor_set_digest.copied(),
        }
    }
}

/// Which page of an answer is wanted.
#[derive(Debug, PartialEq, Eq)]
pub struct MemoryPageRequest {
    pub cursor: Option<MemoryPageCursor>,
}

/// The model of [`MemoryPageRequest`].
pub struct MemoryPageRequestView {
    pub cursor: Option<Seq<char>>,
}

impl DeepView for MemoryPageRequest {
    type V = MemoryPageRequestView;

    open spec fn deep_view(&self) -> MemoryPageRequestView {
        MemoryPageRequestView {
            cursor: self.cursor.deep_view(),
        }
    }
}

impl Record for MemoryPageRequest {
    fn copied(&self) -> (copy: Self) {
        MemoryPageRequest {
            cursor: self.cursor.copied(),
        }
    }

    fn same(&self, other: &Self) -> (same: bool) {
        self.cursor.same(&other.cursor)
    }
}

impl Clone for MemoryPageRequest {
    fn clone(&self) -> (copy: Self)
        ensures
            copy.deep_view() == self.deep_view(),
    {
        self.copied()
    }
}

impl MemoryPageRequestView {
    /// The members of the JSON object.
    pub open spec fn members(self) -> Seq<(Seq<char>, Seq<char>)> {
        seq![
            ("cursor"@, <Option<MemoryPageCursor> as ToJson>::json(self.cursor)),
        ]
    }
}

impl ToJson for MemoryPageRequest {
    open spec fn json(model: MemoryPageRequestView) -> Seq<char> {
        json_object(model.members())
    }

    fn to_json(&self) -> (text: String) {
        let object = JsonObject::new()
            .member("cursor", self.cursor.to_json());
        assert(object.members() =~= self.deep_view().members());
        object.finish()
    }
}

impl Default for MemoryPageRequest {
    fn default() -> (page: Self)
        ensures
            page.deep_view() == (MemoryPageRequestView { cursor: None }),
    {
        MemoryPageRequest { cursor: None }
    }
}

/// Why an answer is not complete.
#[derive(Debug, Clone, Copy, PartialEq, Eq, PartialOrd, Ord, Hash, Structural)]
pub enum MemoryTruncationReason {
    Results,
    Bytes,
    Depth,
    Duration,
    Capability,
}

impl DeepView for MemoryTruncationReason {
    type V = MemoryTruncationReason;

    open spec fn deep_view(&self) -> MemoryTruncationReason {
        *self
    }
}

impl MemoryTruncationReason {
    /// The name in stored and transmitted records.
    pub open spec fn name(self) -> Seq<char> {
        match self {
            MemoryTruncationReason::Results => "results"@,
            MemoryTruncationReason::Bytes => "bytes"@,
            MemoryTruncationReason::Depth => "depth"@,
            MemoryTruncationReason::Duration => "duration"@,
            MemoryTruncationReason::Capability => "capability"@,
        }
    }

    /// The name in stored and transmitted records.
    pub fn as_str(self) -> (name: &'static str)
        ensures
            name@ == self.name(),
    {
        match self {
            MemoryTruncationReason::Results => "results",
            MemoryTruncationReason::Bytes => "bytes",
            MemoryTruncationReason::Depth => "depth",
            MemoryTruncationReason::Duration => "duration",
            MemoryTruncationReason::Capability => "capability",
        }
    }
}

impl Record for MemoryTruncationReason {
    fn copied(&self) -> (copy: Self) {
        *self
    }

    fn same(&self, other: &Self) -> (same: bool) {
        *self == *other
    }
}

impl ToJson for MemoryTruncationReason {
    open spec fn json(model: MemoryTruncationReason) -> Seq<char> {
        json_string(model.name())
    }

    fn to_json(&self) -> (text: String) {
        text_json(self.as_str())
    }
}

/// How an answer was cut short.
#[derive(Debug, PartialEq, Eq)]
pub struct MemoryTruncation {
    pub reason: MemoryTruncationReason,
    pub returned_results: u32,
    pub returned_bytes: u64,
    pub explored_depth: u32,
}

/// The model of [`MemoryTruncation`].
pub struct MemoryTruncationView {
    pub reason: MemoryTruncationReason,
    pub returned_results: u32,
    pub returned_bytes: u64,
    pub explored_depth: u32,
}

impl DeepView for MemoryTruncation {
    type V = MemoryTruncationView;

    open spec fn deep_view(&self) -> MemoryTruncationView {
        MemoryTruncationView {
            reason: self.reason.deep_view(),
            returned_results: self.returned_results.deep_view(),
            returned_bytes: self.returned_bytes.deep_view(),
            explored_depth: self.explored_depth.deep_view(),
        }
    }
}

impl Record for MemoryTruncation {
    fn copied(&self) -> (copy: Self) {
        MemoryTruncation {
            reason: self.reason.copied(),
            returned_results: self.returned_results.copied(),
            returned_bytes: self.returned_bytes.copied(),
            explored_depth: self.explored_depth.copied(),
        }
    }

    fn same(&self, other: &Self) -> (same: bool) {
        self.reason.same(&other.reason)
            && self.returned_results.same(&other.returned_results)
            && self.returned_bytes.same(&other.returned_bytes)
            && self.explored_depth.same(&other.explored_depth)
    }
}

impl Clone for MemoryTruncation {
    fn clone(&self) -> (copy: Self)
        ensures
            copy.deep_view() == self.deep_view(),
    {
        self.copied()
    }
}

impl MemoryTruncationView {
    /// The members of the JSON object.
    pub open spec fn members(self) -> Seq<(Seq<char>, Seq<char>)> {
        seq![
            ("reason"@, <MemoryTruncationReason as ToJson>::json(self.reason)),
            ("returned_results"@, <u32 as ToJson>::json(self.returned_results)),
            ("returned_bytes"@, <u64 as ToJson>::json(self.returned_bytes)),
            ("explored_depth"@, <u32 as ToJson>::json(self.explored_depth)),
        ]
    }
}

impl ToJson for MemoryTruncation {
    open spec fn json(model: MemoryTruncationView) -> Seq<char> {
        json_object(model.members())
    }

    fn to_json(&self) -> (text: String) {
        let object = JsonObject::new()
            .member("reason", self.reason.to_json())
            .member("returned_results", self.returned_results.to_json())
            .member("returned_bytes", self.returned_bytes.to_json())
            .member("explored_depth", self.explored_depth.to_json());
        assert(object.members() =~= self.deep_view().members());
        object.finish()
    }
}

/// Where an answer continues.
#[derive(Debug, PartialEq, Eq)]
pub struct MemoryPageInfo {
    pub next_cursor: Option<MemoryPageCursor>,
    pub truncation: Option<MemoryTruncation>,
}

/// The model of [`MemoryPageInfo`].
pub struct MemoryPageInfoView {
    pub next_cursor: Option<Seq<char>>,
    pub truncation: Option<MemoryTruncationView>,
}

impl DeepView for MemoryPageInfo {
    type V = MemoryPageInfoView;

    open spec fn deep_view(&self) -> MemoryPageInfoView {
        MemoryPageInfoView {
            next_cursor: self.next_cursor.deep_view(),
            truncation: self.truncation.deep_view(),
        }
    }
}

impl Record for MemoryPageInfo {
    fn copied(&self) -> (copy: Self) {
        MemoryPageInfo {
            next_cursor: self.next_cursor.copied(),
            truncation: self.truncation.copied(),
        }
    }

    fn same(&self, other: &Self) -> (same: bool) {
        self.next_cursor.same(&other.next_cursor)
            && self.truncation.same(&other.truncation)
    }
}

impl Clone for MemoryPageInfo {
    fn clone(&self) -> (copy: Self)
        ensures
            copy.deep_view() == self.deep_view(),
    {
        self.copied()
    }
}

impl MemoryPageInfoView {
    /// The members of the JSON object.
    pub open spec fn members(self) -> Seq<(Seq<char>, Seq<char>)> {
        seq![
            ("next_cursor"@, <Option<MemoryPageCursor> as ToJson>::json(self.next_cursor)),
            ("truncation"@, <Option<MemoryTruncation> as ToJson>::json(self.truncation)),
        ]
    }
}

impl ToJson for MemoryPageInfo {
    open spec fn json(model: MemoryPageInfoView) -> Seq<char> {
        json_object(model.members())
    }

    fn to_json(&self) -> (text: String) {
        let object = JsonObject::new()
            .member("next_cursor", self.next_cursor.to_json())
            .member("truncation", self.truncation.to_json());
        assert(object.members() =~= self.deep_view().members());
        object.finish()
    }
}

/// Whether a revision still describes the project.
#[derive(Debug, Clone, Copy, PartialEq, Eq, PartialOrd, Ord, Hash, Structural)]
pub enum MemoryFreshness {
    Fresh,
    Stale,
    Unknown,
    NotApplicable,
}

impl DeepView for MemoryFreshness {
    type V = MemoryFreshness;

    open spec fn deep_view(&self) -> MemoryFreshness {
        *self
    }
}

impl MemoryFreshness {
    /// The name in stored and transmitted records.
    pub open spec fn name(self) -> Seq<char> {
        match self {
            MemoryFreshness::Fresh => "fresh"@,
            MemoryFreshness::Stale => "stale"@,
            MemoryFreshness::Unknown => "unknown"@,
            MemoryFreshness::NotApplicable => "not_applicable"@,
        }
    }

    /// The name in stored and transmitted records.
    pub fn as_str(self) -> (name: &'static str)
        ensures
            name@ == self.name(),
    {
        match self {
            MemoryFreshness::Fresh => "fresh",
            MemoryFreshness::Stale => "stale",
            MemoryFreshness::Unknown => "unknown",
            MemoryFreshness::NotApplicable => "not_applicable",
        }
    }
}

impl Record for MemoryFreshness {
    fn copied(&self) -> (copy: Self) {
        *self
    }

    fn same(&self, other: &Self) -> (same: bool) {
        *self == *other
    }
}

impl ToJson for MemoryFreshness {
    open spec fn json(model: MemoryFreshness) -> Seq<char> {
        json_string(model.name())
    }

    fn to_json(&self) -> (text: String) {
        text_json(self.as_str())
    }
}

/// How fresh a revision is, and why.
#[derive(Debug, PartialEq, Eq)]
pub struct MemoryFreshnessEnvelope {
    pub freshness: MemoryFreshness,
    pub compared_source_set_digest: Option<Digest>,
    pub reason_codes: Vec<MemoryDiagnosticCode>,
}

/// The model of [`MemoryFreshnessEnvelope`].
pub struct MemoryFreshnessEnvelopeView {
    pub freshness: MemoryFreshness,
    pub compared_source_set_digest: Option<DigestView>,
    pub reason_codes: Seq<Seq<char>>,
}

impl DeepView for MemoryFreshnessEnvelope {
    type V = MemoryFreshnessEnvelopeView;

    open spec fn deep_view(&self) -> MemoryFreshnessEnvelopeView {
        MemoryFreshnessEnvelopeView {
            freshness: self.freshness.deep_view(),
            compared_source_set_digest: self.compared_source_set_digest.deep_view(),
            reason_codes: self.reason_codes.deep_view(),
        }
    }
}

impl Record for MemoryFreshnessEnvelope {
    fn copied(&self) -> (copy: Self) {
        MemoryFreshnessEnvelope {
            freshness: self.freshness.copied(),
            compared_source_set_digest: self.compared_source_set_digest.copied(),
            reason_codes: self.reason_codes.copied(),
        }
    }

    fn same(&self, other: &Self) -> (same: bool) {
        self.freshness.same(&other.freshness)
            && self.compared_source_set_digest.same(&other.compared_source_set_digest)
            && self.reason_codes.same(&other.reason_codes)
    }
}

impl Clone for MemoryFreshnessEnvelope {
    fn clone(&self) -> (copy: Self)
        ensures
            copy.deep_view() == self.deep_view(),
    {
        self.copied()
    }
}

impl MemoryFreshnessEnvelopeView {
    /// The members of the JSON object.
    pub open spec fn members(self) -> Seq<(Seq<char>, Seq<char>)> {
        seq![
            ("freshness"@, <MemoryFreshness as ToJson>::json(self.freshness)),
            ("compared_source_set_digest"@, <Option<Digest> as ToJson>::json(self.compared_source_set_digest)),
            ("reason_codes"@, <Vec<MemoryDiagnosticCode> as ToJson>::json(self.reason_codes)),
        ]
    }
}

impl ToJson for MemoryFreshnessEnvelope {
    open spec fn json(model: MemoryFreshnessEnvelopeView) -> Seq<char> {
        json_object(model.members())
    }

    fn to_json(&self) -> (text: String) {
        let object = JsonObject::new()
            .member("freshness", self.freshness.to_json())
            .member("compared_source_set_digest", self.compared_source_set_digest.to_json())
            .member("reason_codes", self.reason_codes.to_json());
        assert(object.members() =~= self.deep_view().members());
        object.finish()
    }
}

/// Whether there is a memory to read.
#[derive(Debug, Clone, Copy, PartialEq, Eq, PartialOrd, Ord, Hash, Structural)]
pub enum MemoryAvailability {
    NotBuilt,
    Available,
    Incompatible,
}

impl DeepView for MemoryAvailability {
    type V = MemoryAvailability;

    open spec fn deep_view(&self) -> MemoryAvailability {
        *self
    }
}

impl MemoryAvailability {
    /// The name in stored and transmitted records.
    pub open spec fn name(self) -> Seq<char> {
        match self {
            MemoryAvailability::NotBuilt => "not_built"@,
            MemoryAvailability::Available => "available"@,
            MemoryAvailability::Incompatible => "incompatible"@,
        }
    }

    /// The name in stored and transmitted records.
    pub fn as_str(self) -> (name: &'static str)
        ensures
            name@ == self.name(),
    {
        match self {
            MemoryAvailability::NotBuilt => "not_built",
            MemoryAvailability::Available => "available",
            MemoryAvailability::Incompatible => "incompatible",
        }
    }
}

impl Record for MemoryAvailability {
    fn copied(&self) -> (copy: Self) {
        *self
    }

    fn same(&self, other: &Self) -> (same: bool) {
        *self == *other
    }
}

impl ToJson for MemoryAvailability {
    open spec fn json(model: MemoryAvailability) -> Seq<char> {
        json_string(model.name())
    }

    fn to_json(&self) -> (text: String) {
        text_json(self.as_str())
    }
}

/// What would make the memory better.
#[derive(Debug, Clone, Copy, PartialEq, Eq, PartialOrd, Ord, Hash, Structural)]
pub enum MemoryRetrievalAction {
    Build,
    WaitForBuild,
    RetryBuild,
    Refresh,
    Rebuild,
}

impl DeepView for MemoryRetrievalAction {
    type V = MemoryRetrievalAction;

    open spec fn deep_view(&self) -> MemoryRetrievalAction {
        *self
    }
}

impl MemoryRetrievalAction {
    /// The name in stored and transmitted records.
    pub open spec fn name(self) -> Seq<char> {
        match self {
            MemoryRetrievalAction::Build => "build"@,
            MemoryRetrievalAction::WaitForBuild => "wait_for_build"@,
            MemoryRetrievalAction::RetryBuild => "retry_build"@,
            MemoryRetrievalAction::Refresh => "refresh"@,
            MemoryRetrievalAction::Rebuild => "rebuild"@,
        }
    }

    /// The name in stored and transmitted records.
    pub fn as_str(self) -> (name: &'static str)
        ensures
            name@ == self.name(),
    {
        match self {
            MemoryRetrievalAction::Build => "build",
            MemoryRetrievalAction::WaitForBuild => "wait_for_build",
            MemoryRetrievalAction::RetryBuild => "retry_build",
            MemoryRetrievalAction::Refresh => "refresh",
            MemoryRetrievalAction::Rebuild => "rebuild",
        }
    }
}

impl Record for MemoryRetrievalAction {
    fn copied(&self) -> (copy: Self) {
        *self
    }

    fn same(&self, other: &Self) -> (same: bool) {
        *self == *other
    }
}

impl ToJson for MemoryRetrievalAction {
    open spec fn json(model: MemoryRetrievalAction) -> Seq<char> {
        json_string(model.name())
    }

    fn to_json(&self) -> (text: String) {
        text_json(self.as_str())
    }
}

/// What a revision holds.
#[derive(Debug, PartialEq, Eq)]
pub struct MemoryStatistics {
    pub sources: u64,
    pub entities: u64,
    pub relationships: u64,
    pub stale_links: u64,
}

/// The model of [`MemoryStatistics`].
pub struct MemoryStatisticsView {
    pub sources: u64,
    pub entities: u64,
    pub relationships: u64,
    pub stale_links: u64,
}

impl DeepView for MemoryStatistics {
    type V = MemoryStatisticsView;

    open spec fn deep_view(&self) -> MemoryStatisticsView {
        MemoryStatisticsView {
            sources: self.sources.deep_view(),
            entities: self.entities.deep_view(),
            relationships: self.relationships.deep_view(),
            stale_links: self.stale_links.deep_view(),
        }
    }
}

impl Record for MemoryStatistics {
    fn copied(&self) -> (copy: Self) {
        MemoryStatistics {
            sources: self.sources.copied(),
            entities: self.entities.copied(),
            relationships: self.relationships.copied(),
            stale_links: self.stale_links.copied(),
        }
    }

    fn same(&self, other: &Self) -> (same: bool) {
        self.sources.same(&other.sources)
            && self.entities.same(&other.entities)
            && self.relationships.same(&other.relationships)
            && self.stale_links.same(&other.stale_links)
    }
}

impl Clone for MemoryStatistics {
    fn clone(&self) -> (copy: Self)
        ensures
            copy.deep_view() == self.deep_view(),
    {
        self.copied()
    }
}

impl MemoryStatisticsView {
    /// The members of the JSON object.
    pub open spec fn members(self) -> Seq<(Seq<char>, Seq<char>)> {
        seq![
            ("sources"@, <u64 as ToJson>::json(self.sources)),
            ("entities"@, <u64 as ToJson>::json(self.entities)),
            ("relationships"@, <u64 as ToJson>::json(self.relationships)),
            ("stale_links"@, <u64 as ToJson>::json(self.stale_links)),
        ]
    }
}

impl ToJson for MemoryStatistics {
    open spec fn json(model: MemoryStatisticsView) -> Seq<char> {
        json_object(model.members())
    }

    fn to_json(&self) -> (text: String) {
        let object = JsonObject::new()
            .member("sources", self.sources.to_json())
            .member("entities", self.entities.to_json())
            .member("relationships", self.relationships.to_json())
            .member("stale_links", self.stale_links.to_json());
        assert(object.members() =~= self.deep_view().members());
        object.finish()
    }
}

/// What the store keeps.
#[derive(Debug, PartialEq, Eq)]
pub struct MemoryRetentionStatistics {
    pub revisions: u64,
    pub historical_revisions: u64,
    pub builds: u64,
    pub terminal_unpublished_builds: u64,
    pub repository_link_sets: u64,
}

/// The model of [`MemoryRetentionStatistics`].
pub struct MemoryRetentionStatisticsView {
    pub revisions: u64,
    pub historical_revisions: u64,
    pub builds: u64,
    pub terminal_unpublished_builds: u64,
    pub repository_link_sets: u64,
}

impl DeepView for MemoryRetentionStatistics {
    type V = MemoryRetentionStatisticsView;

    open spec fn deep_view(&self) -> MemoryRetentionStatisticsView {
        MemoryRetentionStatisticsView {
            revisions: self.revisions.deep_view(),
            historical_revisions: self.historical_revisions.deep_view(),
            builds: self.builds.deep_view(),
            terminal_unpublished_builds: self.terminal_unpublished_builds.deep_view(),
            repository_link_sets: self.repository_link_sets.deep_view(),
        }
    }
}

impl Record for MemoryRetentionStatistics {
    fn copied(&self) -> (copy: Self) {
        MemoryRetentionStatistics {
            revisions: self.revisions.copied(),
            historical_revisions: self.historical_revisions.copied(),
            builds: self.builds.copied(),
            terminal_unpublished_builds: self.terminal_unpublished_builds.copied(),
            repository_link_sets: self.repository_link_sets.copied(),
        }
    }

    fn same(&self, other: &Self) -> (same: bool) {
        self.revisions.same(&other.revisions)
            && self.historical_revisions.same(&other.historical_revisions)
            && self.builds.same(&other.builds)
            && self.terminal_unpublished_builds.same(&other.terminal_unpublished_builds)
            && self.repository_link_sets.same(&other.repository_link_sets)
    }
}

impl Clone for MemoryRetentionStatistics {
    fn clone(&self) -> (copy: Self)
        ensures
            copy.deep_view() == self.deep_view(),
    {
        self.copied()
    }
}

impl MemoryRetentionStatisticsView {
    /// The members of the JSON object.
    pub open spec fn members(self) -> Seq<(Seq<char>, Seq<char>)> {
        seq![
            ("revisions"@, <u64 as ToJson>::json(self.revisions)),
            ("historical_revisions"@, <u64 as ToJson>::json(self.historical_revisions)),
            ("builds"@, <u64 as ToJson>::json(self.builds)),
            ("terminal_unpublished_builds"@, <u64 as ToJson>::json(self.terminal_unpublished_builds)),
            ("repository_link_sets"@, <u64 as ToJson>::json(self.repository_link_sets)),
        ]
    }
}

impl ToJson for MemoryRetentionStatistics {
    open spec fn json(model: MemoryRetentionStatisticsView) -> Seq<char> {
        json_object(model.members())
    }

    fn to_json(&self) -> (text: String) {
        let object = JsonObject::new()
            .member("revisions", self.revisions.to_json())
            .member("historical_revisions", self.historical_revisions.to_json())
            .member("builds", self.builds.to_json())
            .member("terminal_unpublished_builds", self.terminal_unpublished_builds.to_json())
            .member("repository_link_sets", self.repository_link_sets.to_json());
        assert(object.members() =~= self.deep_view().members());
        object.finish()
    }
}

/// A question for the state of the memory.
#[derive(Debug, PartialEq, Eq)]
pub struct MemoryStatusRequest {
    pub scope: MemoryQueryScope,
}

/// The model of [`MemoryStatusRequest`].
pub struct MemoryStatusRequestView {
    pub scope: MemoryQueryScopeView,
}

impl DeepView for MemoryStatusRequest {
    type V = MemoryStatusRequestView;

    open spec fn deep_view(&self) -> MemoryStatusRequestView {
        MemoryStatusRequestView {
            scope: self.scope.deep_view(),
        }
    }
}

impl Record for MemoryStatusRequest {
    fn copied(&self) -> (copy: Self) {
        MemoryStatusRequest {
            scope: self.scope.copied(),
        }
    }

    fn same(&self, other: &Self) -> (same: bool) {
        self.scope.same(&other.scope)
    }
}

impl Clone for MemoryStatusRequest {
    fn clone(&self) -> (copy: Self)
        ensures
            copy.deep_view() == self.deep_view(),
    {
        self.copied()
    }
}

impl MemoryStatusRequestView {
    /// The members of the JSON object.
    pub open spec fn members(self) -> Seq<(Seq<char>, Seq<char>)> {
        seq![
            ("scope"@, <MemoryQueryScope as ToJson>::json(self.scope)),
        ]
    }
}

impl ToJson for MemoryStatusRequest {
    open spec fn json(model: MemoryStatusRequestView) -> Seq<char> {
        json_object(model.members())
    }

    fn to_json(&self) -> (text: String) {
        let object = JsonObject::new()
            .member("scope", self.scope.to_json());
        assert(object.members() =~= self.deep_view().members());
        object.finish()
    }
}

/// The state of the memory.
#[derive(Debug, PartialEq, Eq)]
pub struct MemoryStatusData {
    pub availability: MemoryAvailability,
    pub build_state: Option<MemoryBuildState>,
    pub build_id: Option<MemoryBuildId>,
    pub memory_model_version: Option<u32>,
    pub statistics: Option<MemoryStatistics>,
    pub retention: Option<MemoryRetentionStatistics>,
    pub recommended_action: Option<MemoryRetrievalAction>,
    pub source_policy: Vec<MemorySourcePolicyStatus>,
}

/// The model of [`MemoryStatusData`].
pub struct MemoryStatusDataView {
    pub availability: MemoryAvailability,
    pub build_state: Option<MemoryBuildState>,
    pub build_id: Option<Seq<char>>,
    pub memory_model_version: Option<u32>,
    pub statistics: Option<MemoryStatisticsView>,
    pub retention: Option<MemoryRetentionStatisticsView>,
    pub recommended_action: Option<MemoryRetrievalAction>,
    pub source_policy: Seq<MemorySourcePolicyStatusView>,
}

impl DeepView for MemoryStatusData {
    type V = MemoryStatusDataView;

    open spec fn deep_view(&self) -> MemoryStatusDataView {
        MemoryStatusDataView {
            availability: self.availability.deep_view(),
            build_state: self.build_state.deep_view(),
            build_id: self.build_id.deep_view(),
            memory_model_version: self.memory_model_version.deep_view(),
            statistics: self.statistics.deep_view(),
            retention: self.retention.deep_view(),
            recommended_action: self.recommended_action.deep_view(),
            source_policy: self.source_policy.deep_view(),
        }
    }
}

impl Record for MemoryStatusData {
    fn copied(&self) -> (copy: Self) {
        MemoryStatusData {
            availability: self.availability.copied(),
            build_state: self.build_state.copied(),
            build_id: self.build_id.copied(),
            memory_model_version: self.memory_model_version.copied(),
            statistics: self.statistics.copied(),
            retention: self.retention.copied(),
            recommended_action: self.recommended_action.copied(),
            source_policy: self.source_policy.copied(),
        }
    }

    fn same(&self, other: &Self) -> (same: bool) {
        self.availability.same(&other.availability)
            && self.build_state.same(&other.build_state)
            && self.build_id.same(&other.build_id)
            && self.memory_model_version.same(&other.memory_model_version)
            && self.statistics.same(&other.statistics)
            && self.retention.same(&other.retention)
            && self.recommended_action.same(&other.recommended_action)
            && self.source_policy.same(&other.source_policy)
    }
}

impl Clone for MemoryStatusData {
    fn clone(&self) -> (copy: Self)
        ensures
            copy.deep_view() == self.deep_view(),
    {
        self.copied()
    }
}

impl MemoryStatusDataView {
    /// The members of the JSON object.
    pub open spec fn members(self) -> Seq<(Seq<char>, Seq<char>)> {
        seq![
            ("availability"@, <MemoryAvailability as ToJson>::json(self.availability)),
            ("build_state"@, <Option<MemoryBuildState> as ToJson>::json(self.build_state)),
            ("build_id"@, <Option<MemoryBuildId> as ToJson>::json(self.build_id)),
            ("memory_model_version"@, <Option<u32> as ToJson>::json(self.memory_model_version)),
            ("statistics"@, <Option<MemoryStatistics> as ToJson>::json(self.statistics)),
            ("retention"@, <Option<MemoryRetentionStatistics> as ToJson>::json(self.retention)),
            ("recommended_action"@, <Option<MemoryRetrievalAction> as ToJson>::json(self.recommended_action)),
            ("source_policy"@, <Vec<MemorySourcePolicyStatus> as ToJson>::json(self.source_policy)),
        ]
    }
}

impl ToJson for MemoryStatusData {
    open spec fn json(model: MemoryStatusDataView) -> Seq<char> {
        json_object(model.members())
    }

    fn to_json(&self) -> (text: String) {
        let object = JsonObject::new()
            .member("availability", self.availability.to_json())
            .member("build_state", self.build_state.to_json())
            .member("build_id", self.build_id.to_json())
            .member("memory_model_version", self.memory_model_version.to_json())
            .member("statistics", self.statistics.to_json())
            .member("retention", self.retention.to_json())
            .member("recommended_action", self.recommended_action.to_json())
            .member("source_policy", self.source_policy.to_json());
        assert(object.members() =~= self.deep_view().members());
        object.finish()
    }
}

/// The state of the memory, as an answer.
#[derive(Debug, PartialEq, Eq)]
pub struct MemoryStatusResponse {
    pub wire_version: u32,
    pub project: ProjectRef,
    pub revision_id: Option<MemoryRevisionId>,
    pub freshness: MemoryFreshnessEnvelope,
    pub diagnostics: Vec<MemoryDiagnostic>,
    pub data: MemoryStatusData,
}

/// The model of [`MemoryStatusResponse`].
pub struct MemoryStatusResponseView {
    pub wire_version: u32,
    pub project: ProjectRefView,
    pub revision_id: Option<Seq<char>>,
    pub freshness: MemoryFreshnessEnvelopeView,
    pub diagnostics: Seq<MemoryDiagnosticView>,
    pub data: MemoryStatusDataView,
}

impl DeepView for MemoryStatusResponse {
    type V = MemoryStatusResponseView;

    open spec fn deep_view(&self) -> MemoryStatusResponseView {
        MemoryStatusResponseView {
            wire_version: self.wire_version.deep_view(),
            project: self.project.deep_view(),
            revision_id: self.revision_id.deep_view(),
            freshness: self.freshness.deep_view(),
            diagnostics: self.diagnostics.deep_view(),
            data: self.data.deep_view(),
        }
    }
}

impl Record for MemoryStatusResponse {
    fn copied(&self) -> (copy: Self) {
        MemoryStatusResponse {
            wire_version: self.wire_version.copied(),
            project: self.project.copied(),
            revision_id: self.revision_id.copied(),
            freshness: self.freshness.copied(),
            diagnostics: self.diagnostics.copied(),
            data: self.data.copied(),
        }
    }

    fn same(&self, other: &Self) -> (same: bool) {
        self.wire_version.same(&other.wire_version)
            && self.project.same(&other.project)
            && self.revision_id.same(&other.revision_id)
            && self.freshness.same(&other.freshness)
            && self.diagnostics.same(&other.diagnostics)
            && self.data.same(&other.data)
    }
}

impl Clone for MemoryStatusResponse {
    fn clone(&self) -> (copy: Self)
        ensures
            copy.deep_view() == self.deep_view(),
    {
        self.copied()
    }
}

impl MemoryStatusResponseView {
    /// The members of the JSON object.
    pub open spec fn members(self) -> Seq<(Seq<char>, Seq<char>)> {
        seq![
            ("wire_version"@, <u32 as ToJson>::json(self.wire_version)),
            ("project"@, <ProjectRef as ToJson>::json(self.project)),
            ("revision_id"@, <Option<MemoryRevisionId> as ToJson>::json(self.revision_id)),
            ("freshness"@, <MemoryFreshnessEnvelope as ToJson>::json(self.freshness)),
            ("diagnostics"@, <Vec<MemoryDiagnostic> as ToJson>::json(self.diagnostics)),
            ("data"@, <MemoryStatusData as ToJson>::json(self.data)),
        ]
    }
}

impl ToJson for MemoryStatusResponse {
    open spec fn json(model: MemoryStatusResponseView) -> Seq<char> {
        json_object(model.members())
    }

    fn to_json(&self) -> (text: String) {
        let object = JsonObject::new()
            .member("wire_version", self.wire_version.to_json())
            .member("project", self.project.to_json())
            .member("revision_id", self.revision_id.to_json())
            .member("freshness", self.freshness.to_json())
            .member("diagnostics", self.diagnostics.to_json())
            .member("data", self.data.to_json());
        assert(object.members() =~= self.deep_view().members());
        object.finish()
    }
}

/// A search of the memory.
#[derive(Debug, PartialEq, Eq)]
pub struct MemorySearchRequest {
    pub scope: MemoryQueryScope,
    pub text: MemoryQueryText,
    pub entity_kinds: Vec<MemoryEntityKind>,
    pub source_categories: Vec<MemorySourceCategory>,
    pub page: MemoryPageRequest,
}

/// The model of [`MemorySearchRequest`].
pub struct MemorySearchRequestView {
    pub scope: MemoryQueryScopeView,
    pub text: Seq<char>,
    pub entity_kinds: Seq<MemoryEntityKind>,
    pub source_categories: Seq<MemorySourceCategory>,
    pub page: MemoryPageRequestView,
}

impl DeepView for MemorySearchRequest {
    type V = MemorySearchRequestView;

    open spec fn deep_view(&self) -> MemorySearchRequestView {
        MemorySearchRequestView {
            scope: self.scope.deep_view(),
            text: self.text.deep_view(),
            entity_kinds: self.entity_kinds.deep_view(),
            source_categories: self.source_categories.deep_view(),
            page: self.page.deep_view(),
        }
    }
}

impl Record for MemorySearchRequest {
    fn copied(&self) -> (copy: Self) {
        MemorySearchRequest {
            scope: self.scope.copied(),
            text: self.text.copied(),
            entity_kinds: self.entity_kinds.copied(),
            source_categories: self.source_categories.copied(),
            page: self.page.copied(),
        }
    }

    fn same(&self, other: &Self) -> (same: bool) {
        self.scope.same(&other.scope)
            && self.text.same(&other.text)
            && self.entity_kinds.same(&other.entity_kinds)
            && self.source_categories.same(&other.source_categories)
            && self.page.same(&other.page)
    }
}

impl Clone for MemorySearchRequest {
    fn clone(&self) -> (copy: Self)
        ensures
            copy.deep_view() == self.deep_view(),
    {
        self.copied()
    }
}

impl MemorySearchRequestView {
    /// The members of the JSON object.
    pub open spec fn members(self) -> Seq<(Seq<char>, Seq<char>)> {
        seq![
            ("scope"@, <MemoryQueryScope as ToJson>::json(self.scope)),
            ("text"@, <MemoryQueryText as ToJson>::json(self.text)),
            ("entity_kinds"@, <Vec<MemoryEntityKind> as ToJson>::json(self.entity_kinds)),
            ("source_categories"@, <Vec<MemorySourceCategory> as ToJson>::json(self.source_categories)),
            ("page"@, <MemoryPageRequest as ToJson>::json(self.page)),
        ]
    }
}

impl ToJson for MemorySearchRequest {
    open spec fn json(model: MemorySearchRequestView) -> Seq<char> {
        json_object(model.members())
    }

    fn to_json(&self) -> (text: String) {
        let object = JsonObject::new()
            .member("scope", self.scope.to_json())
            .member("text", self.text.to_json())
            .member("entity_kinds", self.entity_kinds.to_json())
            .member("source_categories", self.source_categories.to_json())
            .member("page", self.page.to_json());
        assert(object.members() =~= self.deep_view().members());
        object.finish()
    }
}

/// How an entity matches a search.
#[derive(Debug, Clone, Copy, PartialEq, Eq, PartialOrd, Ord, Hash, Structural)]
pub enum MemorySearchMatchKind {
    ExactId,
    ExactTitle,
    TitlePrefix,
    TitleContains,
    CuratedTextContains,
    ProvenanceReference,
}

impl DeepView for MemorySearchMatchKind {
    type V = MemorySearchMatchKind;

    open spec fn deep_view(&self) -> MemorySearchMatchKind {
        *self
    }
}

impl MemorySearchMatchKind {
    /// The name in stored and transmitted records.
    pub open spec fn name(self) -> Seq<char> {
        match self {
            MemorySearchMatchKind::ExactId => "exact_id"@,
            MemorySearchMatchKind::ExactTitle => "exact_title"@,
            MemorySearchMatchKind::TitlePrefix => "title_prefix"@,
            MemorySearchMatchKind::TitleContains => "title_contains"@,
            MemorySearchMatchKind::CuratedTextContains => "curated_text_contains"@,
            MemorySearchMatchKind::ProvenanceReference => "provenance_reference"@,
        }
    }

    /// The name in stored and transmitted records.
    pub fn as_str(self) -> (name: &'static str)
        ensures
            name@ == self.name(),
    {
        match self {
            MemorySearchMatchKind::ExactId => "exact_id",
            MemorySearchMatchKind::ExactTitle => "exact_title",
            MemorySearchMatchKind::TitlePrefix => "title_prefix",
            MemorySearchMatchKind::TitleContains => "title_contains",
            MemorySearchMatchKind::CuratedTextContains => "curated_text_contains",
            MemorySearchMatchKind::ProvenanceReference => "provenance_reference",
        }
    }

    /// The place in the order of the variants.
    pub open spec fn rank(self) -> u8 {
        match self {
            MemorySearchMatchKind::ExactId => 0,
            MemorySearchMatchKind::ExactTitle => 1,
            MemorySearchMatchKind::TitlePrefix => 2,
            MemorySearchMatchKind::TitleContains => 3,
            MemorySearchMatchKind::CuratedTextContains => 4,
            MemorySearchMatchKind::ProvenanceReference => 5,
        }
    }

    /// The place in the order of the variants.
    pub fn place(self) -> (place: u8)
        ensures
            place == self.rank(),
    {
        match self {
            MemorySearchMatchKind::ExactId => 0,
            MemorySearchMatchKind::ExactTitle => 1,
            MemorySearchMatchKind::TitlePrefix => 2,
            MemorySearchMatchKind::TitleContains => 3,
            MemorySearchMatchKind::CuratedTextContains => 4,
            MemorySearchMatchKind::ProvenanceReference => 5,
        }
    }
}

impl Record for MemorySearchMatchKind {
    fn copied(&self) -> (copy: Self) {
        *self
    }

    fn same(&self, other: &Self) -> (same: bool) {
        *self == *other
    }
}

impl ToJson for MemorySearchMatchKind {
    open spec fn json(model: MemorySearchMatchKind) -> Seq<char> {
        json_string(model.name())
    }

    fn to_json(&self) -> (text: String) {
        text_json(self.as_str())
    }
}

/// An entity that a search found.
#[derive(Debug, PartialEq, Eq)]
pub struct MemorySearchHit {
    pub entity: MemoryEntity,
    pub match_kind: MemorySearchMatchKind,
    pub score: Score,
    pub selection_reasons: Vec<MemoryDiagnosticCode>,
}

/// The model of [`MemorySearchHit`].
pub struct MemorySearchHitView {
    pub entity: MemoryEntityView,
    pub match_kind: MemorySearchMatchKind,
    pub score: ScoreView,
    pub selection_reasons: Seq<Seq<char>>,
}

impl DeepView for MemorySearchHit {
    type V = MemorySearchHitView;

    open spec fn deep_view(&self) -> MemorySearchHitView {
        MemorySearchHitView {
            entity: self.entity.deep_view(),
            match_kind: self.match_kind.deep_view(),
            score: self.score.deep_view(),
            selection_reasons: self.selection_reasons.deep_view(),
        }
    }
}

impl Record for MemorySearchHit {
    fn copied(&self) -> (copy: Self) {
        MemorySearchHit {
            entity: self.entity.copied(),
            match_kind: self.match_kind.copied(),
            score: self.score.copied(),
            selection_reasons: self.selection_reasons.copied(),
        }
    }

    fn same(&self, other: &Self) -> (same: bool) {
        self.entity.same(&other.entity)
            && self.match_kind.same(&other.match_kind)
            && self.score.same(&other.score)
            && self.selection_reasons.same(&other.selection_reasons)
    }
}

impl Clone for MemorySearchHit {
    fn clone(&self) -> (copy: Self)
        ensures
            copy.deep_view() == self.deep_view(),
    {
        self.copied()
    }
}

impl MemorySearchHitView {
    /// The members of the JSON object.
    pub open spec fn members(self) -> Seq<(Seq<char>, Seq<char>)> {
        seq![
            ("entity"@, <MemoryEntity as ToJson>::json(self.entity)),
            ("match_kind"@, <MemorySearchMatchKind as ToJson>::json(self.match_kind)),
            ("score"@, <Score as ToJson>::json(self.score)),
            ("selection_reasons"@, <Vec<MemoryDiagnosticCode> as ToJson>::json(self.selection_reasons)),
        ]
    }
}

impl ToJson for MemorySearchHit {
    open spec fn json(model: MemorySearchHitView) -> Seq<char> {
        json_object(model.members())
    }

    fn to_json(&self) -> (text: String) {
        let object = JsonObject::new()
            .member("entity", self.entity.to_json())
            .member("match_kind", self.match_kind.to_json())
            .member("score", self.score.to_json())
            .member("selection_reasons", self.selection_reasons.to_json());
        assert(object.members() =~= self.deep_view().members());
        object.finish()
    }
}

/// What a search found.
#[derive(Debug, PartialEq, Eq)]
pub struct MemorySearchResponse {
    pub wire_version: u32,
    pub project: ProjectRef,
    pub revision_id: MemoryRevisionId,
    pub freshness: MemoryFreshnessEnvelope,
    pub diagnostics: Vec<MemoryDiagnostic>,
    pub page: MemoryPageInfo,
    pub hits: Vec<MemorySearchHit>,
}

/// The model of [`MemorySearchResponse`].
pub struct MemorySearchResponseView {
    pub wire_version: u32,
    pub project: ProjectRefView,
    pub revision_id: Seq<char>,
    pub freshness: MemoryFreshnessEnvelopeView,
    pub diagnostics: Seq<MemoryDiagnosticView>,
    pub page: MemoryPageInfoView,
    pub hits: Seq<MemorySearchHitView>,
}

impl DeepView for MemorySearchResponse {
    type V = MemorySearchResponseView;

    open spec fn deep_view(&self) -> MemorySearchResponseView {
        MemorySearchResponseView {
            wire_version: self.wire_version.deep_view(),
            project: self.project.deep_view(),
            revision_id: self.revision_id.deep_view(),
            freshness: self.freshness.deep_view(),
            diagnostics: self.diagnostics.deep_view(),
            page: self.page.deep_view(),
            hits: self.hits.deep_view(),
        }
    }
}

impl Record for MemorySearchResponse {
    fn copied(&self) -> (copy: Self) {
        MemorySearchResponse {
            wire_version: self.wire_version.copied(),
            project: self.project.copied(),
            revision_id: self.revision_id.copied(),
            freshness: self.freshness.copied(),
            diagnostics: self.diagnostics.copied(),
            page: self.page.copied(),
            hits: self.hits.copied(),
        }
    }

    fn same(&self, other: &Self) -> (same: bool) {
        self.wire_version.same(&other.wire_version)
            && self.project.same(&other.project)
            && self.revision_id.same(&other.revision_id)
            && self.freshness.same(&other.freshness)
            && self.diagnostics.same(&other.diagnostics)
            && self.page.same(&other.page)
            && self.hits.same(&other.hits)
    }
}

impl Clone for MemorySearchResponse {
    fn clone(&self) -> (copy: Self)
        ensures
            copy.deep_view() == self.deep_view(),
    {
        self.copied()
    }
}

impl MemorySearchResponseView {
    /// The members of the JSON object.
    pub open spec fn members(self) -> Seq<(Seq<char>, Seq<char>)> {
        seq![
            ("wire_version"@, <u32 as ToJson>::json(self.wire_version)),
            ("project"@, <ProjectRef as ToJson>::json(self.project)),
            ("revision_id"@, <MemoryRevisionId as ToJson>::json(self.revision_id)),
            ("freshness"@, <MemoryFreshnessEnvelope as ToJson>::json(self.freshness)),
            ("diagnostics"@, <Vec<MemoryDiagnostic> as ToJson>::json(self.diagnostics)),
            ("page"@, <MemoryPageInfo as ToJson>::json(self.page)),
            ("hits"@, <Vec<MemorySearchHit> as ToJson>::json(self.hits)),
        ]
    }
}

impl ToJson for MemorySearchResponse {
    open spec fn json(model: MemorySearchResponseView) -> Seq<char> {
        json_object(model.members())
    }

    fn to_json(&self) -> (text: String) {
        let object = JsonObject::new()
            .member("wire_version", self.wire_version.to_json())
            .member("project", self.project.to_json())
            .member("revision_id", self.revision_id.to_json())
            .member("freshness", self.freshness.to_json())
            .member("diagnostics", self.diagnostics.to_json())
            .member("page", self.page.to_json())
            .member("hits", self.hits.to_json());
        assert(object.members() =~= self.deep_view().members());
        object.finish()
    }
}

/// Where context starts.
#[derive(Debug, PartialEq, Eq)]
#[allow(inconsistent_fields)]
pub enum MemoryContextSeed {
    Entity(MemoryEntityId),
    Milestone(MemoryRecordId),
    Task(MemoryRecordId),
    Run(MemoryRecordId),
    RepositoryPath(RepoPath),
    RepositorySymbol(SemanticKey),
}

/// The model of [`MemoryContextSeed`].
#[allow(inconsistent_fields)]
pub enum MemoryContextSeedView {
    Entity(Seq<char>),
    Milestone(Seq<char>),
    Task(Seq<char>),
    Run(Seq<char>),
    RepositoryPath(Seq<char>),
    RepositorySymbol(Seq<char>),
}

impl DeepView for MemoryContextSeed {
    type V = MemoryContextSeedView;

    open spec fn deep_view(&self) -> MemoryContextSeedView {
        match self {
            MemoryContextSeed::Entity(value) => MemoryContextSeedView::Entity(value.deep_view()),
            MemoryContextSeed::Milestone(value) => {
                MemoryContextSeedView::Milestone(value.deep_view())
            },
            MemoryContextSeed::Task(value) => MemoryContextSeedView::Task(value.deep_view()),
            MemoryContextSeed::Run(value) => MemoryContextSeedView::Run(value.deep_view()),
            MemoryContextSeed::RepositoryPath(value) => {
                MemoryContextSeedView::RepositoryPath(value.deep_view())
            },
            MemoryContextSeed::RepositorySymbol(value) => {
                MemoryContextSeedView::RepositorySymbol(value.deep_view())
            },
        }
    }
}

impl Record for MemoryContextSeed {
    fn copied(&self) -> (copy: Self) {
        match self {
            MemoryContextSeed::Entity(value) => MemoryContextSeed::Entity(value.copied()),
            MemoryContextSeed::Milestone(value) => MemoryContextSeed::Milestone(value.copied()),
            MemoryContextSeed::Task(value) => MemoryContextSeed::Task(value.copied()),
            MemoryContextSeed::Run(value) => MemoryContextSeed::Run(value.copied()),
            MemoryContextSeed::RepositoryPath(value) => {
                MemoryContextSeed::RepositoryPath(value.copied())
            },
            MemoryContextSeed::RepositorySymbol(value) => {
                MemoryContextSeed::RepositorySymbol(value.copied())
            },
        }
    }

    fn same(&self, other: &Self) -> (same: bool) {
        match self {
            MemoryContextSeed::Entity(left) => match other {
                MemoryContextSeed::Entity(right) => left.same(right),
                _ => false,
            },
            MemoryContextSeed::Milestone(left) => match other {
                MemoryContextSeed::Milestone(right) => left.same(right),
                _ => false,
            },
            MemoryContextSeed::Task(left) => match other {
                MemoryContextSeed::Task(right) => left.same(right),
                _ => false,
            },
            MemoryContextSeed::Run(left) => match other {
                MemoryContextSeed::Run(right) => left.same(right),
                _ => false,
            },
            MemoryContextSeed::RepositoryPath(left) => match other {
                MemoryContextSeed::RepositoryPath(right) => left.same(right),
                _ => false,
            },
            MemoryContextSeed::RepositorySymbol(left) => match other {
                MemoryContextSeed::RepositorySymbol(right) => left.same(right),
                _ => false,
            },
        }
    }
}

impl Clone for MemoryContextSeed {
    fn clone(&self) -> (copy: Self)
        ensures
            copy.deep_view() == self.deep_view(),
    {
        self.copied()
    }
}

impl MemoryContextSeedView {
    /// The members of the JSON object.
    pub open spec fn members(self) -> Seq<(Seq<char>, Seq<char>)> {
        match self {
            MemoryContextSeedView::Entity(value) => seq![
                ("type"@, json_string("entity"@)),
                ("value"@, <MemoryEntityId as ToJson>::json(value)),
            ],
            MemoryContextSeedView::Milestone(value) => seq![
                ("type"@, json_string("milestone"@)),
                ("value"@, <MemoryRecordId as ToJson>::json(value)),
            ],
            MemoryContextSeedView::Task(value) => seq![
                ("type"@, json_string("task"@)),
                ("value"@, <MemoryRecordId as ToJson>::json(value)),
            ],
            MemoryContextSeedView::Run(value) => seq![
                ("type"@, json_string("run"@)),
                ("value"@, <MemoryRecordId as ToJson>::json(value)),
            ],
            MemoryContextSeedView::RepositoryPath(value) => seq![
                ("type"@, json_string("repository_path"@)),
                ("value"@, <RepoPath as ToJson>::json(value)),
            ],
            MemoryContextSeedView::RepositorySymbol(value) => seq![
                ("type"@, json_string("repository_symbol"@)),
                ("value"@, <SemanticKey as ToJson>::json(value)),
            ],
        }
    }
}

impl ToJson for MemoryContextSeed {
    open spec fn json(model: MemoryContextSeedView) -> Seq<char> {
        json_object(model.members())
    }

    fn to_json(&self) -> (text: String) {
        let object = match self {
            MemoryContextSeed::Entity(value) => JsonObject::new()
                .member("type", text_json("entity"))
                .member("value", value.to_json()),
            MemoryContextSeed::Milestone(value) => JsonObject::new()
                .member("type", text_json("milestone"))
                .member("value", value.to_json()),
            MemoryContextSeed::Task(value) => JsonObject::new()
                .member("type", text_json("task"))
                .member("value", value.to_json()),
            MemoryContextSeed::Run(value) => JsonObject::new()
                .member("type", text_json("run"))
                .member("value", value.to_json()),
            MemoryContextSeed::RepositoryPath(value) => JsonObject::new()
                .member("type", text_json("repository_path"))
                .member("value", value.to_json()),
            MemoryContextSeed::RepositorySymbol(value) => JsonObject::new()
                .member("type", text_json("repository_symbol"))
                .member("value", value.to_json()),
        };
        assert(object.members() =~= self.deep_view().members());
        object.finish()
    }
}

/// How context is gathered.
#[derive(Debug, PartialEq, Eq)]
pub struct MemoryContextPolicy {
    pub direction: EdgeDirection,
    pub relationship_kinds: Vec<MemoryRelationshipKind>,
    pub include_unresolved: bool,
    pub include_stale: bool,
    pub include_snippets: bool,
}

/// The model of [`MemoryContextPolicy`].
pub struct MemoryContextPolicyView {
    pub direction: EdgeDirection,
    pub relationship_kinds: Seq<MemoryRelationshipKind>,
    pub include_unresolved: bool,
    pub include_stale: bool,
    pub include_snippets: bool,
}

impl DeepView for MemoryContextPolicy {
    type V = MemoryContextPolicyView;

    open spec fn deep_view(&self) -> MemoryContextPolicyView {
        MemoryContextPolicyView {
            direction: self.direction.deep_view(),
            relationship_kinds: self.relationship_kinds.deep_view(),
            include_unresolved: self.include_unresolved.deep_view(),
            include_stale: self.include_stale.deep_view(),
            include_snippets: self.include_snippets.deep_view(),
        }
    }
}

impl Record for MemoryContextPolicy {
    fn copied(&self) -> (copy: Self) {
        MemoryContextPolicy {
            direction: self.direction.copied(),
            relationship_kinds: self.relationship_kinds.copied(),
            include_unresolved: self.include_unresolved.copied(),
            include_stale: self.include_stale.copied(),
            include_snippets: self.include_snippets.copied(),
        }
    }

    fn same(&self, other: &Self) -> (same: bool) {
        self.direction.same(&other.direction)
            && self.relationship_kinds.same(&other.relationship_kinds)
            && self.include_unresolved.same(&other.include_unresolved)
            && self.include_stale.same(&other.include_stale)
            && self.include_snippets.same(&other.include_snippets)
    }
}

impl Clone for MemoryContextPolicy {
    fn clone(&self) -> (copy: Self)
        ensures
            copy.deep_view() == self.deep_view(),
    {
        self.copied()
    }
}

impl MemoryContextPolicyView {
    /// The members of the JSON object.
    pub open spec fn members(self) -> Seq<(Seq<char>, Seq<char>)> {
        seq![
            ("direction"@, <EdgeDirection as ToJson>::json(self.direction)),
            ("relationship_kinds"@, <Vec<MemoryRelationshipKind> as ToJson>::json(self.relationship_kinds)),
            ("include_unresolved"@, <bool as ToJson>::json(self.include_unresolved)),
            ("include_stale"@, <bool as ToJson>::json(self.include_stale)),
            ("include_snippets"@, <bool as ToJson>::json(self.include_snippets)),
        ]
    }
}

impl ToJson for MemoryContextPolicy {
    open spec fn json(model: MemoryContextPolicyView) -> Seq<char> {
        json_object(model.members())
    }

    fn to_json(&self) -> (text: String) {
        let object = JsonObject::new()
            .member("direction", self.direction.to_json())
            .member("relationship_kinds", self.relationship_kinds.to_json())
            .member("include_unresolved", self.include_unresolved.to_json())
            .member("include_stale", self.include_stale.to_json())
            .member("include_snippets", self.include_snippets.to_json());
        assert(object.members() =~= self.deep_view().members());
        object.finish()
    }
}

/// A question for context.
#[derive(Debug, PartialEq, Eq)]
pub struct MemoryContextRequest {
    pub scope: MemoryQueryScope,
    pub seeds: Vec<MemoryContextSeed>,
    pub policy: MemoryContextPolicy,
    pub page: MemoryPageRequest,
}

/// The model of [`MemoryContextRequest`].
pub struct MemoryContextRequestView {
    pub scope: MemoryQueryScopeView,
    pub seeds: Seq<MemoryContextSeedView>,
    pub policy: MemoryContextPolicyView,
    pub page: MemoryPageRequestView,
}

impl DeepView for MemoryContextRequest {
    type V = MemoryContextRequestView;

    open spec fn deep_view(&self) -> MemoryContextRequestView {
        MemoryContextRequestView {
            scope: self.scope.deep_view(),
            seeds: self.seeds.deep_view(),
            policy: self.policy.deep_view(),
            page: self.page.deep_view(),
        }
    }
}

impl Record for MemoryContextRequest {
    fn copied(&self) -> (copy: Self) {
        MemoryContextRequest {
            scope: self.scope.copied(),
            seeds: self.seeds.copied(),
            policy: self.policy.copied(),
            page: self.page.copied(),
        }
    }

    fn same(&self, other: &Self) -> (same: bool) {
        self.scope.same(&other.scope)
            && self.seeds.same(&other.seeds)
            && self.policy.same(&other.policy)
            && self.page.same(&other.page)
    }
}

impl Clone for MemoryContextRequest {
    fn clone(&self) -> (copy: Self)
        ensures
            copy.deep_view() == self.deep_view(),
    {
        self.copied()
    }
}

impl MemoryContextRequestView {
    /// The members of the JSON object.
    pub open spec fn members(self) -> Seq<(Seq<char>, Seq<char>)> {
        seq![
            ("scope"@, <MemoryQueryScope as ToJson>::json(self.scope)),
            ("seeds"@, <Vec<MemoryContextSeed> as ToJson>::json(self.seeds)),
            ("policy"@, <MemoryContextPolicy as ToJson>::json(self.policy)),
            ("page"@, <MemoryPageRequest as ToJson>::json(self.page)),
        ]
    }
}

impl ToJson for MemoryContextRequest {
    open spec fn json(model: MemoryContextRequestView) -> Seq<char> {
        json_object(model.members())
    }

    fn to_json(&self) -> (text: String) {
        let object = JsonObject::new()
            .member("scope", self.scope.to_json())
            .member("seeds", self.seeds.to_json())
            .member("policy", self.policy.to_json())
            .member("page", self.page.to_json());
        assert(object.members() =~= self.deep_view().members());
        object.finish()
    }
}

/// A piece of verified source text.
#[derive(Debug, PartialEq, Eq)]
pub struct MemorySnippet {
    pub source_locator: MemorySourceLocator,
    pub evidence: Option<MemoryEvidenceLocator>,
    pub verified_fingerprint: Digest,
    pub text: String,
    pub truncated: bool,
}

/// The model of [`MemorySnippet`].
pub struct MemorySnippetView {
    pub source_locator: MemorySourceLocatorView,
    pub evidence: Option<MemoryEvidenceLocatorView>,
    pub verified_fingerprint: DigestView,
    pub text: Seq<char>,
    pub truncated: bool,
}

impl DeepView for MemorySnippet {
    type V = MemorySnippetView;

    open spec fn deep_view(&self) -> MemorySnippetView {
        MemorySnippetView {
            source_locator: self.source_locator.deep_view(),
            evidence: self.evidence.deep_view(),
            verified_fingerprint: self.verified_fingerprint.deep_view(),
            text: self.text.deep_view(),
            truncated: self.truncated.deep_view(),
        }
    }
}

impl Record for MemorySnippet {
    fn copied(&self) -> (copy: Self) {
        MemorySnippet {
            source_locator: self.source_locator.copied(),
            evidence: self.evidence.copied(),
            verified_fingerprint: self.verified_fingerprint.copied(),
            text: self.text.copied(),
            truncated: self.truncated.copied(),
        }
    }

    fn same(&self, other: &Self) -> (same: bool) {
        self.source_locator.same(&other.source_locator)
            && self.evidence.same(&other.evidence)
            && self.verified_fingerprint.same(&other.verified_fingerprint)
            && self.text.same(&other.text)
            && self.truncated.same(&other.truncated)
    }
}

impl Clone for MemorySnippet {
    fn clone(&self) -> (copy: Self)
        ensures
            copy.deep_view() == self.deep_view(),
    {
        self.copied()
    }
}

impl MemorySnippetView {
    /// The members of the JSON object.
    pub open spec fn members(self) -> Seq<(Seq<char>, Seq<char>)> {
        seq![
            ("source_locator"@, <MemorySourceLocator as ToJson>::json(self.source_locator)),
            ("evidence"@, <Option<MemoryEvidenceLocator> as ToJson>::json(self.evidence)),
            ("verified_fingerprint"@, <Digest as ToJson>::json(self.verified_fingerprint)),
            ("text"@, <String as ToJson>::json(self.text)),
            ("truncated"@, <bool as ToJson>::json(self.truncated)),
        ]
    }
}

impl ToJson for MemorySnippet {
    open spec fn json(model: MemorySnippetView) -> Seq<char> {
        json_object(model.members())
    }

    fn to_json(&self) -> (text: String) {
        let object = JsonObject::new()
            .member("source_locator", self.source_locator.to_json())
            .member("evidence", self.evidence.to_json())
            .member("verified_fingerprint", self.verified_fingerprint.to_json())
            .member("text", self.text.to_json())
            .member("truncated", self.truncated.to_json());
        assert(object.members() =~= self.deep_view().members());
        object.finish()
    }
}

/// An entity of a context.
#[derive(Debug, PartialEq, Eq)]
pub struct MemoryContextItem {
    pub entity: MemoryEntity,
    pub snippet: Option<MemorySnippet>,
    pub selection_reasons: Vec<MemoryDiagnosticCode>,
}

/// The model of [`MemoryContextItem`].
pub struct MemoryContextItemView {
    pub entity: MemoryEntityView,
    pub snippet: Option<MemorySnippetView>,
    pub selection_reasons: Seq<Seq<char>>,
}

impl DeepView for MemoryContextItem {
    type V = MemoryContextItemView;

    open spec fn deep_view(&self) -> MemoryContextItemView {
        MemoryContextItemView {
            entity: self.entity.deep_view(),
            snippet: self.snippet.deep_view(),
            selection_reasons: self.selection_reasons.deep_view(),
        }
    }
}

impl Record for MemoryContextItem {
    fn copied(&self) -> (copy: Self) {
        MemoryContextItem {
            entity: self.entity.copied(),
            snippet: self.snippet.copied(),
            selection_reasons: self.selection_reasons.copied(),
        }
    }

    fn same(&self, other: &Self) -> (same: bool) {
        self.entity.same(&other.entity)
            && self.snippet.same(&other.snippet)
            && self.selection_reasons.same(&other.selection_reasons)
    }
}

impl Clone for MemoryContextItem {
    fn clone(&self) -> (copy: Self)
        ensures
            copy.deep_view() == self.deep_view(),
    {
        self.copied()
    }
}

impl MemoryContextItemView {
    /// The members of the JSON object.
    pub open spec fn members(self) -> Seq<(Seq<char>, Seq<char>)> {
        seq![
            ("entity"@, <MemoryEntity as ToJson>::json(self.entity)),
            ("snippet"@, <Option<MemorySnippet> as ToJson>::json(self.snippet)),
            ("selection_reasons"@, <Vec<MemoryDiagnosticCode> as ToJson>::json(self.selection_reasons)),
        ]
    }
}

impl ToJson for MemoryContextItem {
    open spec fn json(model: MemoryContextItemView) -> Seq<char> {
        json_object(model.members())
    }

    fn to_json(&self) -> (text: String) {
        let object = JsonObject::new()
            .member("entity", self.entity.to_json())
            .member("snippet", self.snippet.to_json())
            .member("selection_reasons", self.selection_reasons.to_json());
        assert(object.members() =~= self.deep_view().members());
        object.finish()
    }
}

/// The context around some seeds.
#[derive(Debug, PartialEq, Eq)]
pub struct MemoryContextResponse {
    pub wire_version: u32,
    pub project: ProjectRef,
    pub revision_id: MemoryRevisionId,
    pub freshness: MemoryFreshnessEnvelope,
    pub diagnostics: Vec<MemoryDiagnostic>,
    pub page: MemoryPageInfo,
    pub items: Vec<MemoryContextItem>,
    pub relationships: Vec<MemoryRelationship>,
}

/// The model of [`MemoryContextResponse`].
pub struct MemoryContextResponseView {
    pub wire_version: u32,
    pub project: ProjectRefView,
    pub revision_id: Seq<char>,
    pub freshness: MemoryFreshnessEnvelopeView,
    pub diagnostics: Seq<MemoryDiagnosticView>,
    pub page: MemoryPageInfoView,
    pub items: Seq<MemoryContextItemView>,
    pub relationships: Seq<MemoryRelationshipView>,
}

impl DeepView for MemoryContextResponse {
    type V = MemoryContextResponseView;

    open spec fn deep_view(&self) -> MemoryContextResponseView {
        MemoryContextResponseView {
            wire_version: self.wire_version.deep_view(),
            project: self.project.deep_view(),
            revision_id: self.revision_id.deep_view(),
            freshness: self.freshness.deep_view(),
            diagnostics: self.diagnostics.deep_view(),
            page: self.page.deep_view(),
            items: self.items.deep_view(),
            relationships: self.relationships.deep_view(),
        }
    }
}

impl Record for MemoryContextResponse {
    fn copied(&self) -> (copy: Self) {
        MemoryContextResponse {
            wire_version: self.wire_version.copied(),
            project: self.project.copied(),
            revision_id: self.revision_id.copied(),
            freshness: self.freshness.copied(),
            diagnostics: self.diagnostics.copied(),
            page: self.page.copied(),
            items: self.items.copied(),
            relationships: self.relationships.copied(),
        }
    }

    fn same(&self, other: &Self) -> (same: bool) {
        self.wire_version.same(&other.wire_version)
            && self.project.same(&other.project)
            && self.revision_id.same(&other.revision_id)
            && self.freshness.same(&other.freshness)
            && self.diagnostics.same(&other.diagnostics)
            && self.page.same(&other.page)
            && self.items.same(&other.items)
            && self.relationships.same(&other.relationships)
    }
}

impl Clone for MemoryContextResponse {
    fn clone(&self) -> (copy: Self)
        ensures
            copy.deep_view() == self.deep_view(),
    {
        self.copied()
    }
}

impl MemoryContextResponseView {
    /// The members of the JSON object.
    pub open spec fn members(self) -> Seq<(Seq<char>, Seq<char>)> {
        seq![
            ("wire_version"@, <u32 as ToJson>::json(self.wire_version)),
            ("project"@, <ProjectRef as ToJson>::json(self.project)),
            ("revision_id"@, <MemoryRevisionId as ToJson>::json(self.revision_id)),
            ("freshness"@, <MemoryFreshnessEnvelope as ToJson>::json(self.freshness)),
            ("diagnostics"@, <Vec<MemoryDiagnostic> as ToJson>::json(self.diagnostics)),
            ("page"@, <MemoryPageInfo as ToJson>::json(self.page)),
            ("items"@, <Vec<MemoryContextItem> as ToJson>::json(self.items)),
            ("relationships"@, <Vec<MemoryRelationship> as ToJson>::json(self.relationships)),
        ]
    }
}

impl ToJson for MemoryContextResponse {
    open spec fn json(model: MemoryContextResponseView) -> Seq<char> {
        json_object(model.members())
    }

    fn to_json(&self) -> (text: String) {
        let object = JsonObject::new()
            .member("wire_version", self.wire_version.to_json())
            .member("project", self.project.to_json())
            .member("revision_id", self.revision_id.to_json())
            .member("freshness", self.freshness.to_json())
            .member("diagnostics", self.diagnostics.to_json())
            .member("page", self.page.to_json())
            .member("items", self.items.to_json())
            .member("relationships", self.relationships.to_json());
        assert(object.members() =~= self.deep_view().members());
        object.finish()
    }
}

/// A question for source text.
#[derive(Debug, PartialEq, Eq)]
pub struct MemoryContentRequest {
    pub project: ProjectRef,
    pub revision_id: MemoryRevisionId,
    pub source_category: MemorySourceCategory,
    pub locator: MemorySourceLocator,
    pub expected_fingerprint: Digest,
    pub evidence: Option<MemoryEvidenceLocator>,
    pub max_bytes: NonZeroU64,
}

/// The model of [`MemoryContentRequest`].
pub struct MemoryContentRequestView {
    pub project: ProjectRefView,
    pub revision_id: Seq<char>,
    pub source_category: MemorySourceCategory,
    pub locator: MemorySourceLocatorView,
    pub expected_fingerprint: DigestView,
    pub evidence: Option<MemoryEvidenceLocatorView>,
    pub max_bytes: u64,
}

impl DeepView for MemoryContentRequest {
    type V = MemoryContentRequestView;

    open spec fn deep_view(&self) -> MemoryContentRequestView {
        MemoryContentRequestView {
            project: self.project.deep_view(),
            revision_id: self.revision_id.deep_view(),
            source_category: self.source_category.deep_view(),
            locator: self.locator.deep_view(),
            expected_fingerprint: self.expected_fingerprint.deep_view(),
            evidence: self.evidence.deep_view(),
            max_bytes: self.max_bytes.deep_view(),
        }
    }
}

impl Record for MemoryContentRequest {
    fn copied(&self) -> (copy: Self) {
        MemoryContentRequest {
            project: self.project.copied(),
            revision_id: self.revision_id.copied(),
            source_category: self.source_category.copied(),
            locator: self.locator.copied(),
            expected_fingerprint: self.expected_fingerprint.copied(),
            evidence: self.evidence.copied(),
            max_bytes: self.max_bytes.copied(),
        }
    }

    fn same(&self, other: &Self) -> (same: bool) {
        self.project.same(&other.project)
            && self.revision_id.same(&other.revision_id)
            && self.source_category.same(&other.source_category)
            && self.locator.same(&other.locator)
            && self.expected_fingerprint.same(&other.expected_fingerprint)
            && self.evidence.same(&other.evidence)
            && self.max_bytes.same(&other.max_bytes)
    }
}

impl Clone for MemoryContentRequest {
    fn clone(&self) -> (copy: Self)
        ensures
            copy.deep_view() == self.deep_view(),
    {
        self.copied()
    }
}

impl MemoryContentRequestView {
    /// The members of the JSON object.
    pub open spec fn members(self) -> Seq<(Seq<char>, Seq<char>)> {
        seq![
            ("project"@, <ProjectRef as ToJson>::json(self.project)),
            ("revision_id"@, <MemoryRevisionId as ToJson>::json(self.revision_id)),
            ("source_category"@, <MemorySourceCategory as ToJson>::json(self.source_category)),
            ("locator"@, <MemorySourceLocator as ToJson>::json(self.locator)),
            ("expected_fingerprint"@, <Digest as ToJson>::json(self.expected_fingerprint)),
            ("evidence"@, <Option<MemoryEvidenceLocator> as ToJson>::json(self.evidence)),
            ("max_bytes"@, <NonZeroU64 as ToJson>::json(self.max_bytes)),
        ]
    }
}

impl ToJson for MemoryContentRequest {
    open spec fn json(model: MemoryContentRequestView) -> Seq<char> {
        json_object(model.members())
    }

    fn to_json(&self) -> (text: String) {
        let object = JsonObject::new()
            .member("project", self.project.to_json())
            .member("revision_id", self.revision_id.to_json())
            .member("source_category", self.source_category.to_json())
            .member("locator", self.locator.to_json())
            .member("expected_fingerprint", self.expected_fingerprint.to_json())
            .member("evidence", self.evidence.to_json())
            .member("max_bytes", self.max_bytes.to_json());
        assert(object.members() =~= self.deep_view().members());
        object.finish()
    }
}

/// Verified source text.
#[derive(Debug, PartialEq, Eq)]
pub struct MemoryContentResponse {
    pub verified_fingerprint: Digest,
    pub bytes: Vec<u8>,
    pub truncated: bool,
}

/// The model of [`MemoryContentResponse`].
pub struct MemoryContentResponseView {
    pub verified_fingerprint: DigestView,
    pub bytes: Seq<u8>,
    pub truncated: bool,
}

impl DeepView for MemoryContentResponse {
    type V = MemoryContentResponseView;

    open spec fn deep_view(&self) -> MemoryContentResponseView {
        MemoryContentResponseView {
            verified_fingerprint: self.verified_fingerprint.deep_view(),
            bytes: self.bytes.deep_view(),
            truncated: self.truncated.deep_view(),
        }
    }
}

impl Record for MemoryContentResponse {
    fn copied(&self) -> (copy: Self) {
        MemoryContentResponse {
            verified_fingerprint: self.verified_fingerprint.copied(),
            bytes: self.bytes.copied(),
            truncated: self.truncated.copied(),
        }
    }

    fn same(&self, other: &Self) -> (same: bool) {
        self.verified_fingerprint.same(&other.verified_fingerprint)
            && self.bytes.same(&other.bytes)
            && self.truncated.same(&other.truncated)
    }
}

impl Clone for MemoryContentResponse {
    fn clone(&self) -> (copy: Self)
        ensures
            copy.deep_view() == self.deep_view(),
    {
        self.copied()
    }
}

/// Why a query has no answer.
#[derive(Debug, PartialEq, Eq)]
#[allow(inconsistent_fields)]
pub enum MemoryQueryError {
    Unavailable,
    RevisionNotFound,
    StaleCursor,
    BudgetExceeded(MemoryTruncationReason),
    ContentChanged,
    SourceNotAuthorized,
    Backend(MemoryDiagnosticCode),
}

/// The model of [`MemoryQueryError`].
#[allow(inconsistent_fields)]
pub enum MemoryQueryErrorView {
    Unavailable,
    RevisionNotFound,
    StaleCursor,
    BudgetExceeded(MemoryTruncationReason),
    ContentChanged,
    SourceNotAuthorized,
    Backend(Seq<char>),
}

impl DeepView for MemoryQueryError {
    type V = MemoryQueryErrorView;

    open spec fn deep_view(&self) -> MemoryQueryErrorView {
        match self {
            MemoryQueryError::Unavailable => MemoryQueryErrorView::Unavailable,
            MemoryQueryError::RevisionNotFound => MemoryQueryErrorView::RevisionNotFound,
            MemoryQueryError::StaleCursor => MemoryQueryErrorView::StaleCursor,
            MemoryQueryError::BudgetExceeded(value) => {
                MemoryQueryErrorView::BudgetExceeded(value.deep_view())
            },
            MemoryQueryError::ContentChanged => MemoryQueryErrorView::ContentChanged,
            MemoryQueryError::SourceNotAuthorized => MemoryQueryErrorView::SourceNotAuthorized,
            MemoryQueryError::Backend(value) => MemoryQueryErrorView::Backend(value.deep_view()),
        }
    }
}

impl Record for MemoryQueryError {
    fn copied(&self) -> (copy: Self) {
        match self {
            MemoryQueryError::Unavailable => MemoryQueryError::Unavailable,
            MemoryQueryError::RevisionNotFound => MemoryQueryError::RevisionNotFound,
            MemoryQueryError::StaleCursor => MemoryQueryError::StaleCursor,
            MemoryQueryError::BudgetExceeded(value) => {
                MemoryQueryError::BudgetExceeded(value.copied())
            },
            MemoryQueryError::ContentChanged => MemoryQueryError::ContentChanged,
            MemoryQueryError::SourceNotAuthorized => MemoryQueryError::SourceNotAuthorized,
            MemoryQueryError::Backend(value) => MemoryQueryError::Backend(value.copied()),
        }
    }

    fn same(&self, other: &Self) -> (same: bool) {
        match self {
            MemoryQueryError::Unavailable => matches!(other, MemoryQueryError::Unavailable),
            MemoryQueryError::RevisionNotFound => {
                matches!(other, MemoryQueryError::RevisionNotFound)
            },
            MemoryQueryError::StaleCursor => matches!(other, MemoryQueryError::StaleCursor),
            MemoryQueryError::BudgetExceeded(left) => match other {
                MemoryQueryError::BudgetExceeded(right) => left.same(right),
                _ => false,
            },
            MemoryQueryError::ContentChanged => matches!(other, MemoryQueryError::ContentChanged),
            MemoryQueryError::SourceNotAuthorized => {
                matches!(other, MemoryQueryError::SourceNotAuthorized)
            },
            MemoryQueryError::Backend(left) => match other {
                MemoryQueryError::Backend(right) => left.same(right),
                _ => false,
            },
        }
    }
}

impl Clone for MemoryQueryError {
    fn clone(&self) -> (copy: Self)
        ensures
            copy.deep_view() == self.deep_view(),
    {
        self.copied()
    }
}

impl MemoryQueryErrorView {
    /// What is wrong, in words.
    pub open spec fn message(self) -> Seq<char> {
        match self {
            MemoryQueryErrorView::Unavailable => "project memory is unavailable"@,
            MemoryQueryErrorView::RevisionNotFound => "project memory revision was not found"@,
            MemoryQueryErrorView::StaleCursor =>
                "project memory cursor is stale or belongs to another request"@,
            MemoryQueryErrorView::BudgetExceeded(reason) => "project memory request exceeded the "@
                + variant_name(reason) + " budget"@,
            MemoryQueryErrorView::ContentChanged => "project memory source content changed"@,
            MemoryQueryErrorView::SourceNotAuthorized =>
                "project memory source category is not authorized"@,
            MemoryQueryErrorView::Backend(code) => "project memory backend failed with "@ + code,
        }
    }
}

/// The name of a reason's variant.
pub open spec fn variant_name(reason: MemoryTruncationReason) -> Seq<char> {
    match reason {
        MemoryTruncationReason::Results => "Results"@,
        MemoryTruncationReason::Bytes => "Bytes"@,
        MemoryTruncationReason::Depth => "Depth"@,
        MemoryTruncationReason::Duration => "Duration"@,
        MemoryTruncationReason::Capability => "Capability"@,
    }
}

impl MemoryQueryError {
    /// What is wrong, in words.
    pub fn message(&self) -> (text: String)
        ensures
            text@ == self.deep_view().message(),
    {
        match self {
            MemoryQueryError::Unavailable => "project memory is unavailable".to_owned(),
            MemoryQueryError::RevisionNotFound => {
                "project memory revision was not found".to_owned()
            },
            MemoryQueryError::StaleCursor =>
                "project memory cursor is stale or belongs to another request".to_owned(),
            MemoryQueryError::BudgetExceeded(reason) => {
                let mut text = "project memory request exceeded the ".to_owned();
                text.append(
                    match reason {
                        MemoryTruncationReason::Results => "Results",
                        MemoryTruncationReason::Bytes => "Bytes",
                        MemoryTruncationReason::Depth => "Depth",
                        MemoryTruncationReason::Duration => "Duration",
                        MemoryTruncationReason::Capability => "Capability",
                    },
                );
                text.append(" budget");
                text
            },
            MemoryQueryError::ContentChanged => "project memory source content changed".to_owned(),
            MemoryQueryError::SourceNotAuthorized =>
                "project memory source category is not authorized".to_owned(),
            MemoryQueryError::Backend(code) => {
                let mut text = "project memory backend failed with ".to_owned();
                text.append(code.as_str());
                text
            },
        }
    }
}

}
