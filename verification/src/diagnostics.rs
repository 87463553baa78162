//! Diagnostics and lifecycle events that cannot carry free-form text.
use vstd::prelude::*;
use crate::domain::{
    MemoryBuildId, MemoryEntityId, MemoryRelationshipId, MemoryRevisionId, MemorySourceCategory,
    ProjectRef, ProjectRefView,
};
use crate::json::{json_object, json_string, text_json, JsonObject, ToJson};
use crate::record::Record;
use crate::text::{chars_of, signed_decimal, signed_decimal_of};

verus! {

/// How many bytes a diagnostic code may have.
pub const MAX_DIAGNOSTIC_CODE_BYTES: usize = 64;

/// A text that is no diagnostic code.
#[derive(Debug, Clone, Copy, PartialEq, Eq, Structural)]
pub struct InvalidMemoryDiagnosticCode;

impl InvalidMemoryDiagnosticCode {
    /// What is wrong, in words.
    pub fn message(&self) -> (text: String)
        ensures
            text@ == "diagnostic code must be a lowercase dotted token of at most 64 bytes"@,
    {
        "diagnostic code must be a lowercase dotted token of at most 64 bytes".to_owned()
    }
}

/// A character of a diagnostic code.
pub open spec fn is_code_character(character: char) -> bool {
    'a' <= character <= 'z' || '0' <= character <= '9' || character == '.'
}

/// Whether a text is a lower-case dotted token of at most [`MAX_DIAGNOSTIC_CODE_BYTES`] bytes.
pub open spec fn is_diagnostic_code(text: Seq<char>) -> bool {
    &&& 0 < text.len() <= MAX_DIAGNOSTIC_CODE_BYTES
    &&& forall|i: int| 0 <= i < text.len() ==> is_code_character(#[trigger] text[i])
}

/// A lower-case dotted token that names what was noticed.
#[derive(Debug, PartialEq, Eq, PartialOrd, Ord, Hash)]
pub struct MemoryDiagnosticCode {
    value: String,
}

impl DeepView for MemoryDiagnosticCode {
    type V = Seq<char>;

    closed spec fn deep_view(&self) -> Seq<char> {
        self.value@
    }
}

impl MemoryDiagnosticCode {
    #[verifier::type_invariant]
    spec fn valid(self) -> bool {
        is_diagnostic_code(self.value@)
    }

    /// The code with this text.
    pub fn new(value: &str) -> (result: Result<Self, InvalidMemoryDiagnosticCode>)
        ensures
            is_diagnostic_code(value@) ==> result is Ok && result->Ok_0.deep_view() == value@,
            !is_diagnostic_code(value@) ==> result is Err,
    {
        let chars = chars_of(value);
        if chars.len() == 0 || chars.len() > MAX_DIAGNOSTIC_CODE_BYTES {
            return Err(InvalidMemoryDiagnosticCode);
        }
        let mut at: usize = 0;
        while at < chars.len()
            invariant
                at <= chars.len(),
                chars@ == value@,
                forall|i: int| 0 <= i < at ==> is_code_character(#[trigger] value@[i]),
            decreases chars.len() - at,
        {
            let character = chars[at];
            if !(('a' <= character && character <= 'z') || ('0' <= character && character <= '9')
                || character == '.') {
                assert(!is_code_character(value@[at as int]));
                return Err(InvalidMemoryDiagnosticCode);
            }
            at += 1;
        }
        Ok(MemoryDiagnosticCode { value: value.to_owned() })
    }

    /// The text.
    pub fn as_str(&self) -> (text: &str)
        ensures
            text@ == self.deep_view(),
            is_diagnostic_code(text@),
    {
        proof {
            use_type_invariant(self);
        }
        self.value.as_str()
    }
}

/// The code with a text that is known to be one.
pub fn diagnostic_code(value: &str) -> (code: MemoryDiagnosticCode)
    requires
        is_diagnostic_code(value@),
    ensures
        code.deep_view() == value@,
{
    MemoryDiagnosticCode { value: value.to_owned() }
}

impl Record for MemoryDiagnosticCode {
    fn copied(&self) -> (copy: Self) {
        proof {
            use_type_invariant(self);
        }
        MemoryDiagnosticCode { value: self.value.clone() }
    }

    fn same(&self, other: &Self) -> (same: bool) {
        self.value == other.value
    }
}

impl Clone for MemoryDiagnosticCode {
    fn clone(&self) -> (copy: Self)
        ensures
            copy.deep_view() == self.deep_view(),
    {
        self.copied()
    }
}

impl ToJson for MemoryDiagnosticCode {
    open spec fn json(model: Seq<char>) -> Seq<char> {
        json_string(model)
    }

    fn to_json(&self) -> (text: String) {
        text_json(self.value.as_str())
    }
}

/// How grave a diagnostic is.
#[derive(Debug, Clone, Copy, PartialEq, Eq, PartialOrd, Ord, Hash, Structural)]
pub enum MemoryDiagnosticSeverity {
    Info,
    Warning,
    Error,
}

impl DeepView for MemoryDiagnosticSeverity {
    type V = MemoryDiagnosticSeverity;

    open spec fn deep_view(&self) -> MemoryDiagnosticSeverity {
        *self
    }
}

impl MemoryDiagnosticSeverity {
    /// The name in stored and transmitted records.
    pub open spec fn name(self) -> Seq<char> {
        match self {
            MemoryDiagnosticSeverity::Info => "info"@,
            MemoryDiagnosticSeverity::Warning => "warning"@,
            MemoryDiagnosticSeverity::Error => "error"@,
        }
    }

    /// The name in stored and transmitted records.
    pub fn as_str(self) -> (name: &'static str)
        ensures
            name@ == self.name(),
    {
        match self {
            MemoryDiagnosticSeverity::Info => "info",
            MemoryDiagnosticSeverity::Warning => "warning",
            MemoryDiagnosticSeverity::Error => "error",
        }
    }
}

impl Record for MemoryDiagnosticSeverity {
    fn copied(&self) -> (copy: Self) {
        *self
    }

    fn same(&self, other: &Self) -> (same: bool) {
        *self == *other
    }
}

impl ToJson for MemoryDiagnosticSeverity {
    open spec fn json(model: MemoryDiagnosticSeverity) -> Seq<char> {
        json_string(model.name())
    }

    fn to_json(&self) -> (text: String) {
        text_json(self.as_str())
    }
}

/// A number that belongs to a diagnostic.
#[derive(Debug, PartialEq, Eq)]
pub struct MemoryDiagnosticMetric {
    pub code: MemoryDiagnosticCode,
    pub value: i64,
}

/// The numbers that belong to a diagnostic, in the order of their codes.
#[derive(Debug, PartialEq, Eq)]
pub struct MemoryDiagnosticMetrics {
    pub entries: Vec<MemoryDiagnosticMetric>,
}

/// The model of [`MemoryDiagnosticMetric`].
pub struct MemoryDiagnosticMetricView {
    pub code: Seq<char>,
    pub value: i64,
}

/// The model of [`MemoryDiagnosticMetrics`].
pub struct MemoryDiagnosticMetricsView {
    pub entries: Seq<MemoryDiagnosticMetricView>,
}

impl DeepView for MemoryDiagnosticMetric {
    type V = MemoryDiagnosticMetricView;

    open spec fn deep_view(&self) -> MemoryDiagnosticMetricView {
        MemoryDiagnosticMetricView { code: self.code.deep_view(), value: self.value }
    }
}

impl DeepView for MemoryDiagnosticMetrics {
    type V = MemoryDiagnosticMetricsView;

    open spec fn deep_view(&self) -> MemoryDiagnosticMetricsView {
        MemoryDiagnosticMetricsView { entries: self.entries.deep_view() }
    }
}

impl Record for MemoryDiagnosticMetric {
    fn copied(&self) -> (copy: Self) {
        MemoryDiagnosticMetric { code: self.code.copied(), value: self.value }
    }

    fn same(&self, other: &Self) -> (same: bool) {
        self.code.same(&other.code) && self.value == other.value
    }
}

impl Record for MemoryDiagnosticMetrics {
    fn copied(&self) -> (copy: Self) {
        MemoryDiagnosticMetrics { entries: self.entries.copied() }
    }

    fn same(&self, other: &Self) -> (same: bool) {
        self.entries.same(&other.entries)
    }
}

/// No numbers.
pub fn no_metrics() -> (metrics: MemoryDiagnosticMetrics)
    ensures
        metrics.deep_view() == no_metrics_model(),
{
    let metrics = MemoryDiagnosticMetrics { entries: Vec::new() };
    assert(metrics.deep_view().entries =~= Seq::empty());
    metrics
}

/// No numbers.
pub open spec fn no_metrics_model() -> MemoryDiagnosticMetricsView {
    MemoryDiagnosticMetricsView { entries: Seq::empty() }
}

impl MemoryDiagnosticMetricsView {
    /// The members of the JSON object.
    pub open spec fn members(self) -> Seq<(Seq<char>, Seq<char>)> {
        self.entries.map_values(
            |entry: MemoryDiagnosticMetricView| (entry.code, signed_decimal(entry.value)),
        )
    }
}

impl ToJson for MemoryDiagnosticMetrics {
    open spec fn json(model: MemoryDiagnosticMetricsView) -> Seq<char> {
        json_object(model.members())
    }

    fn to_json(&self) -> (text: String) {
        let mut object = JsonObject::new();
        let mut at: usize = 0;
        while at < self.entries.len()
            invariant
                at <= self.entries.len(),
                object.members() =~= self.deep_view().members().take(at as int),
            decreases self.entries.len() - at,
        {
            let entry = &self.entries[at];
            object = object.member(entry.code.as_str(), signed_decimal_of(entry.value));
            at += 1;
        }
        assert(self.deep_view().members().take(at as int) =~= self.deep_view().members());
        object.finish()
    }
}

/// A diagnostic without a channel for messages or source text.
#[derive(Debug, PartialEq, Eq)]
pub struct MemoryDiagnostic {
    pub build_id: MemoryBuildId,
    pub revision_id: MemoryRevisionId,
    pub severity: MemoryDiagnosticSeverity,
    pub code: MemoryDiagnosticCode,
    pub source_category: Option<MemorySourceCategory>,
    pub entity_id: Option<MemoryEntityId>,
    pub relationship_id: Option<MemoryRelationshipId>,
    pub metrics: MemoryDiagnosticMetrics,
}

/// The model of [`MemoryDiagnostic`].
pub struct MemoryDiagnosticView {
    pub build_id: Seq<char>,
    pub revision_id: Seq<char>,
    pub severity: MemoryDiagnosticSeverity,
    pub code: Seq<char>,
    pub source_category: Option<MemorySourceCategory>,
    pub entity_id: Option<Seq<char>>,
    pub relationship_id: Option<Seq<char>>,
    pub metrics: MemoryDiagnosticMetricsView,
}

impl DeepView for MemoryDiagnostic {
    type V = MemoryDiagnosticView;

    open spec fn deep_view(&self) -> MemoryDiagnosticView {
        MemoryDiagnosticView {
            build_id: self.build_id.deep_view(),
            revision_id: self.revision_id.deep_view(),
            severity: self.severity.deep_view(),
            code: self.code.deep_view(),
            source_category: self.source_category.deep_view(),
            entity_id: self.entity_id.deep_view(),
            relationship_id: self.relationship_id.deep_view(),
            metrics: self.metrics.deep_view(),
        }
    }
}

impl Record for MemoryDiagnostic {
    fn copied(&self) -> (copy: Self) {
        MemoryDiagnostic {
            build_id: self.build_id.copied(),
            revision_id: self.revision_id.copied(),
            severity: self.severity.copied(),
            code: self.code.copied(),
            source_category: self.source_category.copied(),
            entity_id: self.entity_id.copied(),
            relationship_id: self.relationship_id.copied(),
            metrics: self.metrics.copied(),
        }
    }

    fn same(&self, other: &Self) -> (same: bool) {
        self.build_id.same(&other.build_id)
            && self.revision_id.same(&other.revision_id)
            && self.severity.same(&other.severity)
            && self.code.same(&other.code)
            && self.source_category.same(&other.source_category)
            && self.entity_id.same(&other.entity_id)
            && self.relationship_id.same(&other.relationship_id)
            && self.metrics.same(&other.metrics)
    }
}

impl Clone for MemoryDiagnostic {
    fn clone(&self) -> (copy: Self)
        ensures
            copy.deep_view() == self.deep_view(),
    {
        self.copied()
    }
}

impl MemoryDiagnosticView {
    /// The members of the JSON object.
    pub open spec fn members(self) -> Seq<(Seq<char>, Seq<char>)> {
        seq![
            ("build_id"@, <MemoryBuildId as ToJson>::json(self.build_id)),
            ("revision_id"@, <MemoryRevisionId as ToJson>::json(self.revision_id)),
            ("severity"@, <MemoryDiagnosticSeverity as ToJson>::json(self.severity)),
            ("code"@, <MemoryDiagnosticCode as ToJson>::json(self.code)),
            ("source_category"@, <Option<MemorySourceCategory> as ToJson>::json(self.source_category)),
            ("entity_id"@, <Option<MemoryEntityId> as ToJson>::json(self.entity_id)),
            ("relationship_id"@, <Option<MemoryRelationshipId> as ToJson>::json(self.relationship_id)),
            ("metrics"@, <MemoryDiagnosticMetrics as ToJson>::json(self.metrics)),
        ]
    }
}

impl ToJson for MemoryDiagnostic {
    open spec fn json(model: MemoryDiagnosticView) -> Seq<char> {
        json_object(model.members())
    }

    fn to_json(&self) -> (text: String) {
        let object = JsonObject::new()
            .member("build_id", self.build_id.to_json())
            .member("revision_id", self.revision_id.to_json())
            .member("severity", self.severity.to_json())
            .member("code", self.code.to_json())
            .member("source_category", self.source_category.to_json())
            .member("entity_id", self.entity_id.to_json())
            .member("relationship_id", self.relationship_id.to_json())
            .member("metrics", self.metrics.to_json());
        assert(object.members() =~= self.deep_view().members());
        object.finish()
    }
}

/// What happened to a build.
#[derive(Debug, Clone, Copy, PartialEq, Eq, PartialOrd, Ord, Hash, Structural)]
pub enum MemoryLifecycleEventKind {
    BuildStarted,
    BuildFailed,
    RevisionCompleted,
    RevisionPublished,
    BuildSuperseded,
    PublicationConflict,
}

impl DeepView for MemoryLifecycleEventKind {
    type V = MemoryLifecycleEventKind;

    open spec fn deep_view(&self) -> MemoryLifecycleEventKind {
        *self
    }
}

impl MemoryLifecycleEventKind {
    /// The name in stored and transmitted records.
    pub open spec fn name(self) -> Seq<char> {
        match self {
            MemoryLifecycleEventKind::BuildStarted => "build_started"@,
            MemoryLifecycleEventKind::BuildFailed => "build_failed"@,
            MemoryLifecycleEventKind::RevisionCompleted => "revision_completed"@,
            MemoryLifecycleEventKind::RevisionPublished => "revision_published"@,
            MemoryLifecycleEventKind::BuildSuperseded => "build_superseded"@,
            MemoryLifecycleEventKind::PublicationConflict => "publication_conflict"@,
        }
    }

    /// The name in stored and transmitted records.
    pub fn as_str(self) -> (name: &'static str)
        ensures
            name@ == self.name(),
    {
        match self {
            MemoryLifecycleEventKind::BuildStarted => "build_started",
            MemoryLifecycleEventKind::BuildFailed => "build_failed",
            MemoryLifecycleEventKind::RevisionCompleted => "revision_completed",
            MemoryLifecycleEventKind::RevisionPublished => "revision_published",
            MemoryLifecycleEventKind::BuildSuperseded => "build_superseded",
            MemoryLifecycleEventKind::PublicationConflict => "publication_conflict",
        }
    }
}

impl Record for MemoryLifecycleEventKind {
    fn copied(&self) -> (copy: Self) {
        *self
    }

    fn same(&self, other: &Self) -> (same: bool) {
        *self == *other
    }
}

impl ToJson for MemoryLifecycleEventKind {
    open spec fn json(model: MemoryLifecycleEventKind) -> Seq<char> {
        json_string(model.name())
    }

    fn to_json(&self) -> (text: String) {
        text_json(self.as_str())
    }
}

/// What a build had counted when an event was emitted.
#[derive(Debug, PartialEq, Eq)]
pub struct MemoryLifecycleCounters {
    pub sources: u64,
    pub entities: u64,
    pub relationships: u64,
    pub stale_links: u64,
    pub diagnostics: u64,
}

/// The model of [`MemoryLifecycleCounters`].
pub struct MemoryLifecycleCountersView {
    pub sources: u64,
    pub entities: u64,
    pub relationships: u64,
    pub stale_links: u64,
    pub diagnostics: u64,
}

impl Default for MemoryLifecycleCounters {
    /// Nothing yet.
    fn default() -> (counters: Self)
        ensures
            counters.deep_view() == (MemoryLifecycleCountersView {
                sources: 0,
                entities: 0,
                relationships: 0,
                stale_links: 0,
                diagnostics: 0,
            }),
    {
        MemoryLifecycleCounters {
            sources: 0,
            entities: 0,
            relationships: 0,
            stale_links: 0,
            diagnostics: 0,
        }
    }
}

impl DeepView for MemoryLifecycleCounters {
    type V = MemoryLifecycleCountersView;

    open spec fn deep_view(&self) -> MemoryLifecycleCountersView {
        MemoryLifecycleCountersView {
            sources: self.sources.deep_view(),
            entities: self.entities.deep_view(),
            relationships: self.relationships.deep_view(),
            stale_links: self.stale_links.deep_view(),
            diagnostics: self.diagnostics.deep_view(),
        }
    }
}

impl Record for MemoryLifecycleCounters {
    fn copied(&self) -> (copy: Self) {
        MemoryLifecycleCounters {
            sources: self.sources.copied(),
            entities: self.entities.copied(),
            relationships: self.relationships.copied(),
            stale_links: self.stale_links.copied(),
            diagnostics: self.diagnostics.copied(),
        }
    }

    fn same(&self, other: &Self) -> (same: bool) {
        self.sources.same(&other.sources)
            && self.entities.same(&other.entities)
            && self.relationships.same(&other.relationships)
            && self.stale_links.same(&other.stale_links)
            && self.diagnostics.same(&other.diagnostics)
    }
}

impl Clone for MemoryLifecycleCounters {
    fn clone(&self) -> (copy: Self)
        ensures
            copy.deep_view() == self.deep_view(),
    {
        self.copied()
    }
}

impl MemoryLifecycleCountersView {
    /// The members of the JSON object.
    pub open spec fn members(self) -> Seq<(Seq<char>, Seq<char>)> {
        seq![
            ("sources"@, <u64 as ToJson>::json(self.sources)),
            ("entities"@, <u64 as ToJson>::json(self.entities)),
            ("relationships"@, <u64 as ToJson>::json(self.relationships)),
            ("stale_links"@, <u64 as ToJson>::json(self.stale_links)),
            ("diagnostics"@, <u64 as ToJson>::json(self.diagnostics)),
        ]
    }
}

impl ToJson for MemoryLifecycleCounters {
    open spec fn json(model: MemoryLifecycleCountersView) -> Seq<char> {
        json_object(model.members())
    }

    fn to_json(&self) -> (text: String) {
        let object = JsonObject::new()
            .member("sources", self.sources.to_json())
            .member("entities", self.entities.to_json())
            .member("relationships", self.relationships.to_json())
            .member("stale_links", self.stale_links.to_json())
            .member("diagnostics", self.diagnostics.to_json());
        assert(object.members() =~= self.deep_view().members());
        object.finish()
    }
}

/// An event in the life of a build.
#[derive(Debug, PartialEq, Eq)]
pub struct MemoryLifecycleEvent {
    pub kind: MemoryLifecycleEventKind,
    pub project: ProjectRef,
    pub build_id: MemoryBuildId,
    pub revision_id: Option<MemoryRevisionId>,
    pub counters: MemoryLifecycleCounters,
    pub duration_ms: Option<u64>,
}

/// The model of [`MemoryLifecycleEvent`].
pub struct MemoryLifecycleEventView {
    pub kind: MemoryLifecycleEventKind,
    pub project: ProjectRefView,
    pub build_id: Seq<char>,
    pub revision_id: Option<Seq<char>>,
    pub counters: MemoryLifecycleCountersView,
    pub duration_ms: Option<u64>,
}

impl DeepView for MemoryLifecycleEvent {
    type V = MemoryLifecycleEventView;

    open spec fn deep_view(&self) -> MemoryLifecycleEventView {
        MemoryLifecycleEventView {
            kind: self.kind.deep_view(),
            project: self.project.deep_view(),
            build_id: self.build_id.deep_view(),
            revision_id: self.revision_id.deep_view(),
            counters: self.counters.deep_view(),
            duration_ms: self.duration_ms.deep_view(),
        }
    }
}

impl Record for MemoryLifecycleEvent {
    fn copied(&self) -> (copy: Self) {
        MemoryLifecycleEvent {
            kind: self.kind.copied(),
            project: self.project.copied(),
            build_id: self.build_id.copied(),
            revision_id: self.revision_id.copied(),
            counters: self.counters.copied(),
            duration_ms: self.duration_ms.copied(),
        }
    }

    fn same(&self, other: &Self) -> (same: bool) {
        self.kind.same(&other.kind)
            && self.project.same(&other.project)
            && self.build_id.same(&other.build_id)
            && self.revision_id.same(&other.revision_id)
            && self.counters.same(&other.counters)
            && self.duration_ms.same(&other.duration_ms)
    }
}

impl Clone for MemoryLifecycleEvent {
    fn clone(&self) -> (copy: Self)
        ensures
            copy.deep_view() == self.deep_view(),
    {
        self.copied()
    }
}

impl MemoryLifecycleEventView {
    /// The members of the JSON object.
    pub open spec fn members(self) -> Seq<(Seq<char>, Seq<char>)> {
        seq![
            ("kind"@, <MemoryLifecycleEventKind as ToJson>::json(self.kind)),
            ("project"@, <ProjectRef as ToJson>::json(self.project)),
            ("build_id"@, <MemoryBuildId as ToJson>::json(self.build_id)),
            ("revision_id"@, <Option<MemoryRevisionId> as ToJson>::json(self.revision_id)),
            ("counters"@, <MemoryLifecycleCounters as ToJson>::json(self.counters)),
            ("duration_ms"@, <Option<u64> as ToJson>::json(self.duration_ms)),
        ]
    }
}

impl ToJson for MemoryLifecycleEvent {
    open spec fn json(model: MemoryLifecycleEventView) -> Seq<char> {
        json_object(model.members())
    }

    fn to_json(&self) -> (text: String) {
        let object = JsonObject::new()
            .member("kind", self.kind.to_json())
            .member("project", self.project.to_json())
            .member("build_id", self.build_id.to_json())
            .member("revision_id", self.revision_id.to_json())
            .member("counters", self.counters.to_json())
            .member("duration_ms", self.duration_ms.to_json());
        assert(object.members() =~= self.deep_view().members());
        object.finish()
    }
}

}
