//! Links from a project's memory to the files and symbols of a repository snapshot.
use vstd::prelude::*;
use crate::deadline::{asked_chain, asked_until, poll, Deadline, NoDeadline};
use crate::diagnostics::{
    diagnostic_code, no_metrics, no_metrics_model, MemoryDiagnostic, MemoryDiagnosticCode,
    MemoryDiagnosticSeverity, MemoryDiagnosticView,
};
use crate::digest::{text_digest, Digest, DigestView};
use crate::domain::{
    MemoryConfidence, MemoryEntity, MemoryEntityData, MemoryEntityDataView, MemoryEntityId,
    MemoryEntityView, MemoryEvidenceLocator, MemoryEvidenceLocatorView, MemoryExtractorIdentity,
    MemoryIndexTimestamps, MemoryIndexTimestampsView, MemoryProvenance, MemoryProvenanceView,
    MemoryRelationship, MemoryRelationshipId, MemoryRelationshipKind, MemoryRelationshipTarget,
    MemoryRelationshipTargetView, MemoryRelationshipView, MemoryRepositoryLinkCommit,
    MemoryRepositoryLinkCommitView, MemoryRepositoryLinkSet, MemoryRepositoryLinkSetId,
    MemoryRepositoryLinkSetView, MemoryResolutionState, MemoryRevision, MemoryRevisionView,
    MemorySourceLocator, MemorySourceLocatorView, ProjectRef, ProjectRefView,
};
use crate::extractors::{
    extractor_identity, extractor_model, relationship_id, relationship_identity,
};
use crate::json::{json_array, json_object, json_string, text_json, JsonArray, JsonObject, ToJson};
use crate::order::{in_order, sorted_distinct, values_in_order, OrderedMap};
use crate::record::Record;
use crate::repository::{
    is_repo_path, FactEvidence, FactEvidenceView, GraphNode, GraphNodeView, NodeId, RepoPath,
    RepositoryId, RepositoryNamespace, RepositoryRef, RepositoryRefView, SemanticKey, SnapshotId,
    MAX_IDENTITY_BYTES,
};
use crate::text::{
    contains_character, joined, split_at_each, split_text, strip_prefix, trim, trimmed,
};
use crate::value::{is_bounded_text, plain_text_is_bounded, MemoryValueError};

verus! {

/// How many diagnostics one resolution keeps.
pub const MAX_LINK_DIAGNOSTICS: usize = 1_000;

/// How many links one set holds.
pub const MAX_REPOSITORY_LINKS: usize = 20_000;

/// How many files of one snapshot are looked at.
pub const MAX_ORIGIN_FILES: usize = 100_000;

/// A file or a symbol that a text names on purpose.
#[derive(Debug, PartialEq, Eq)]
#[allow(inconsistent_fields)]
pub enum ExplicitRepositoryReference {
    Path(RepoPath),
    Symbol(SemanticKey),
}

/// The model of [`ExplicitRepositoryReference`].
#[allow(inconsistent_fields)]
pub enum ExplicitRepositoryReferenceView {
    Path(Seq<char>),
    Symbol(Seq<char>),
}

impl DeepView for ExplicitRepositoryReference {
    type V = ExplicitRepositoryReferenceView;

    open spec fn deep_view(&self) -> ExplicitRepositoryReferenceView {
        match self {
            ExplicitRepositoryReference::Path(value) => {
                ExplicitRepositoryReferenceView::Path(value.deep_view())
            },
            ExplicitRepositoryReference::Symbol(value) => {
                ExplicitRepositoryReferenceView::Symbol(value.deep_view())
            },
        }
    }
}

impl Record for ExplicitRepositoryReference {
    fn copied(&self) -> (copy: Self) {
        match self {
            ExplicitRepositoryReference::Path(value) => {
                ExplicitRepositoryReference::Path(value.copied())
            },
            ExplicitRepositoryReference::Symbol(value) => {
                ExplicitRepositoryReference::Symbol(value.copied())
            },
        }
    }

    fn same(&self, other: &Self) -> (same: bool) {
        match self {
            ExplicitRepositoryReference::Path(left) => match other {
                ExplicitRepositoryReference::Path(right) => left.same(right),
                _ => false,
            },
            ExplicitRepositoryReference::Symbol(left) => match other {
                ExplicitRepositoryReference::Symbol(right) => left.same(right),
                _ => false,
            },
        }
    }
}

impl Clone for ExplicitRepositoryReference {
    fn clone(&self) -> (copy: Self)
        ensures
            copy.deep_view() == self.deep_view(),
    {
        self.copied()
    }
}

impl ExplicitRepositoryReferenceView {
    /// The members of the JSON object.
    pub open spec fn members(self) -> Seq<(Seq<char>, Seq<char>)> {
        match self {
            ExplicitRepositoryReferenceView::Path(value) => seq![
                ("type"@, json_string("path"@)),
                ("value"@, <RepoPath as ToJson>::json(value)),
            ],
            ExplicitRepositoryReferenceView::Symbol(value) => seq![
                ("type"@, json_string("symbol"@)),
                ("value"@, <SemanticKey as ToJson>::json(value)),
            ],
        }
    }
}

impl ToJson for ExplicitRepositoryReference {
    open spec fn json(model: ExplicitRepositoryReferenceView) -> Seq<char> {
        json_object(model.members())
    }

    fn to_json(&self) -> (text: String) {
        let object = match self {
            ExplicitRepositoryReference::Path(value) => JsonObject::new()
                .member("type", text_json("path"))
                .member("value", value.to_json()),
            ExplicitRepositoryReference::Symbol(value) => JsonObject::new()
                .member("type", text_json("symbol"))
                .member("value", value.to_json()),
        };
        assert(object.members() =~= self.deep_view().members());
        object.finish()
    }
}

/// A link before its target is looked up.
#[derive(Debug, PartialEq, Eq)]
pub struct LinkCandidate {
    pub id: MemoryRelationshipId,
    pub source: MemoryEntityId,
    pub kind: MemoryRelationshipKind,
    pub reference: ExplicitRepositoryReference,
    pub origin_snapshot_id: Option<SnapshotId>,
    pub provenance: MemoryProvenance,
}

/// The model of [`LinkCandidate`].
pub struct LinkCandidateView {
    pub id: Seq<char>,
    pub source: Seq<char>,
    pub kind: MemoryRelationshipKind,
    pub reference: ExplicitRepositoryReferenceView,
    pub origin_snapshot_id: Option<Seq<char>>,
    pub provenance: MemoryProvenanceView,
}

impl DeepView for LinkCandidate {
    type V = LinkCandidateView;

    open spec fn deep_view(&self) -> LinkCandidateView {
        LinkCandidateView {
            id: self.id.deep_view(),
            source: self.source.deep_view(),
            kind: self.kind.deep_view(),
            reference: self.reference.deep_view(),
            origin_snapshot_id: self.origin_snapshot_id.deep_view(),
            provenance: self.provenance.deep_view(),
        }
    }
}

impl Record for LinkCandidate {
    fn copied(&self) -> (copy: Self) {
        LinkCandidate {
            id: self.id.copied(),
            source: self.source.copied(),
            kind: self.kind.copied(),
            reference: self.reference.copied(),
            origin_snapshot_id: self.origin_snapshot_id.copied(),
            provenance: self.provenance.copied(),
        }
    }

    fn same(&self, other: &Self) -> (same: bool) {
        self.id.same(&other.id)
            && self.source.same(&other.source)
            && self.kind.same(&other.kind)
            && self.reference.same(&other.reference)
            && self.origin_snapshot_id.same(&other.origin_snapshot_id)
            && self.provenance.same(&other.provenance)
    }
}

impl Clone for LinkCandidate {
    fn clone(&self) -> (copy: Self)
        ensures
            copy.deep_view() == self.deep_view(),
    {
        self.copied()
    }
}

/// A file that differs between two snapshots, and the snapshot that has it.
#[derive(Debug, PartialEq, Eq)]
pub struct ChangedPath {
    pub path: RepoPath,
    pub origin_snapshot_id: SnapshotId,
}

/// The model of [`ChangedPath`].
pub struct ChangedPathView {
    pub path: Seq<char>,
    pub origin_snapshot_id: Seq<char>,
}

impl DeepView for ChangedPath {
    type V = ChangedPathView;

    open spec fn deep_view(&self) -> ChangedPathView {
        ChangedPathView {
            path: self.path.deep_view(),
            origin_snapshot_id: self.origin_snapshot_id.deep_view(),
        }
    }
}

impl Record for ChangedPath {
    fn copied(&self) -> (copy: Self) {
        ChangedPath {
            path: self.path.copied(),
            origin_snapshot_id: self.origin_snapshot_id.copied(),
        }
    }

    fn same(&self, other: &Self) -> (same: bool) {
        self.path.same(&other.path)
            && self.origin_snapshot_id.same(&other.origin_snapshot_id)
    }
}

impl Clone for ChangedPath {
    fn clone(&self) -> (copy: Self)
        ensures
            copy.deep_view() == self.deep_view(),
    {
        self.copied()
    }
}

/// Why links could not be resolved.
#[derive(Debug, Clone, Copy, PartialEq, Eq, PartialOrd, Ord, Hash, Structural)]
pub enum SnapshotLinkResolutionError {
    InvalidSnapshot,
    DeadlineExceeded,
}

impl DeepView for SnapshotLinkResolutionError {
    type V = SnapshotLinkResolutionError;

    open spec fn deep_view(&self) -> SnapshotLinkResolutionError {
        *self
    }
}

impl SnapshotLinkResolutionError {
    /// The name in stored and transmitted records.
    pub open spec fn name(self) -> Seq<char> {
        match self {
            SnapshotLinkResolutionError::InvalidSnapshot => "invalid_snapshot"@,
            SnapshotLinkResolutionError::DeadlineExceeded => "deadline_exceeded"@,
        }
    }

    /// The name in stored and transmitted records.
    pub fn as_str(self) -> (name: &'static str)
        ensures
            name@ == self.name(),
    {
        match self {
            SnapshotLinkResolutionError::InvalidSnapshot => "invalid_snapshot",
            SnapshotLinkResolutionError::DeadlineExceeded => "deadline_exceeded",
        }
    }
}

impl Record for SnapshotLinkResolutionError {
    fn copied(&self) -> (copy: Self) {
        *self
    }

    fn same(&self, other: &Self) -> (same: bool) {
        *self == *other
    }
}

impl ToJson for SnapshotLinkResolutionError {
    open spec fn json(model: SnapshotLinkResolutionError) -> Seq<char> {
        json_string(model.name())
    }

    fn to_json(&self) -> (text: String) {
        text_json(self.as_str())
    }
}

/// A snapshot with its nodes.
#[derive(Debug, PartialEq, Eq)]
pub struct RepositoryLinkSnapshot {
    pub snapshot_id: SnapshotId,
    pub nodes: Vec<GraphNode>,
}

/// The model of [`RepositoryLinkSnapshot`].
pub struct RepositoryLinkSnapshotView {
    pub snapshot_id: Seq<char>,
    pub nodes: Seq<GraphNodeView>,
}

impl DeepView for RepositoryLinkSnapshot {
    type V = RepositoryLinkSnapshotView;

    open spec fn deep_view(&self) -> RepositoryLinkSnapshotView {
        RepositoryLinkSnapshotView {
            snapshot_id: self.snapshot_id.deep_view(),
            nodes: self.nodes.deep_view(),
        }
    }
}

impl Record for RepositoryLinkSnapshot {
    fn copied(&self) -> (copy: Self) {
        RepositoryLinkSnapshot {
            snapshot_id: self.snapshot_id.copied(),
            nodes: self.nodes.copied(),
        }
    }

    fn same(&self, other: &Self) -> (same: bool) {
        self.snapshot_id.same(&other.snapshot_id)
            && self.nodes.same(&other.nodes)
    }
}

impl Clone for RepositoryLinkSnapshot {
    fn clone(&self) -> (copy: Self)
        ensures
            copy.deep_view() == self.deep_view(),
    {
        self.copied()
    }
}

/// The snapshot that links point into, and those that changes came from.
#[derive(Debug, PartialEq, Eq)]
pub struct RepositoryLinkSnapshotSet {
    pub repository: RepositoryRef,
    pub current: RepositoryLinkSnapshot,
    pub origins: Vec<RepositoryLinkSnapshot>,
}

/// The model of [`RepositoryLinkSnapshotSet`].
pub struct RepositoryLinkSnapshotSetView {
    pub repository: RepositoryRefView,
    pub current: RepositoryLinkSnapshotView,
    pub origins: Seq<RepositoryLinkSnapshotView>,
}

impl DeepView for RepositoryLinkSnapshotSet {
    type V = RepositoryLinkSnapshotSetView;

    open spec fn deep_view(&self) -> RepositoryLinkSnapshotSetView {
        RepositoryLinkSnapshotSetView {
            repository: self.repository.deep_view(),
            current: self.current.deep_view(),
            origins: self.origins.deep_view(),
        }
    }
}

impl Record for RepositoryLinkSnapshotSet {
    fn copied(&self) -> (copy: Self) {
        RepositoryLinkSnapshotSet {
            repository: self.repository.copied(),
            current: self.current.copied(),
            origins: self.origins.copied(),
        }
    }

    fn same(&self, other: &Self) -> (same: bool) {
        self.repository.same(&other.repository)
            && self.current.same(&other.current)
            && self.origins.same(&other.origins)
    }
}

impl Clone for RepositoryLinkSnapshotSet {
    fn clone(&self) -> (copy: Self)
        ensures
            copy.deep_view() == self.deep_view(),
    {
        self.copied()
    }
}

/// A node that has a key.
#[derive(Debug, PartialEq, Eq)]
pub struct SymbolNode {
    pub semantic_key: SemanticKey,
    pub node_id: NodeId,
}

/// The model of [`SymbolNode`].
pub struct SymbolNodeView {
    pub semantic_key: Seq<char>,
    pub node_id: Seq<char>,
}

impl DeepView for SymbolNode {
    type V = SymbolNodeView;

    open spec fn deep_view(&self) -> SymbolNodeView {
        SymbolNodeView {
            semantic_key: self.semantic_key.deep_view(),
            node_id: self.node_id.deep_view(),
        }
    }
}

impl Record for SymbolNode {
    fn copied(&self) -> (copy: Self) {
        SymbolNode {
            semantic_key: self.semantic_key.copied(),
            node_id: self.node_id.copied(),
        }
    }

    fn same(&self, other: &Self) -> (same: bool) {
        self.semantic_key.same(&other.semantic_key)
            && self.node_id.same(&other.node_id)
    }
}

impl Clone for SymbolNode {
    fn clone(&self) -> (copy: Self)
        ensures
            copy.deep_view() == self.deep_view(),
    {
        self.copied()
    }
}

/// What the local graph store holds of a snapshot, and whether it belongs to the repository.
#[derive(Debug, PartialEq, Eq)]
pub struct LocalSnapshot {
    pub id: SnapshotId,
    pub belongs: bool,
    pub files: Vec<FactEvidence>,
    pub symbols: Vec<SymbolNode>,
}

/// The model of [`LocalSnapshot`].
pub struct LocalSnapshotView {
    pub id: Seq<char>,
    pub belongs: bool,
    pub files: Seq<FactEvidenceView>,
    pub symbols: Seq<SymbolNodeView>,
}

impl DeepView for LocalSnapshot {
    type V = LocalSnapshotView;

    open spec fn deep_view(&self) -> LocalSnapshotView {
        LocalSnapshotView {
            id: self.id.deep_view(),
            belongs: self.belongs.deep_view(),
            files: self.files.deep_view(),
            symbols: self.symbols.deep_view(),
        }
    }
}

impl Record for LocalSnapshot {
    fn copied(&self) -> (copy: Self) {
        LocalSnapshot {
            id: self.id.copied(),
            belongs: self.belongs.copied(),
            files: self.files.copied(),
            symbols: self.symbols.copied(),
        }
    }

    fn same(&self, other: &Self) -> (same: bool) {
        self.id.same(&other.id)
            && self.belongs.same(&other.belongs)
            && self.files.same(&other.files)
            && self.symbols.same(&other.symbols)
    }
}

impl Clone for LocalSnapshot {
    fn clone(&self) -> (copy: Self)
        ensures
            copy.deep_view() == self.deep_view(),
    {
        self.copied()
    }
}

/// The local repository graph as links are resolved against it.
#[derive(Debug, PartialEq, Eq)]
pub struct LocalRepositoryLinkResolver {
    pub repository: RepositoryRef,
    /// The snapshot that is current, where the graph can be read.
    pub repository_snapshot_id: Option<SnapshotId>,
    pub snapshots: Vec<LocalSnapshot>,
    /// Why the graph cannot be read, where it cannot.
    pub availability_diagnostic: Option<MemoryDiagnosticCode>,
}

/// The model of [`LocalRepositoryLinkResolver`].
pub struct LocalRepositoryLinkResolverView {
    pub repository: RepositoryRefView,
    pub repository_snapshot_id: Option<Seq<char>>,
    pub snapshots: Seq<LocalSnapshotView>,
    pub availability_diagnostic: Option<Seq<char>>,
}

impl DeepView for LocalRepositoryLinkResolver {
    type V = LocalRepositoryLinkResolverView;

    open spec fn deep_view(&self) -> LocalRepositoryLinkResolverView {
        LocalRepositoryLinkResolverView {
            repository: self.repository.deep_view(),
            repository_snapshot_id: self.repository_snapshot_id.deep_view(),
            snapshots: self.snapshots.deep_view(),
            availability_diagnostic: self.availability_diagnostic.deep_view(),
        }
    }
}

/// What opening the graph of a repository came to.
#[derive(Debug, PartialEq, Eq)]
pub enum GraphOpening {
    /// It is open, and this snapshot is published.
    Published(SnapshotId),
    /// It is open, and no snapshot is published.
    Unpublished,
    /// It is open, and what is published cannot be read.
    Unreadable,
    /// There is none.
    Absent,
    /// It is of an earlier version.
    NeedsMigration,
    /// It can only be built anew.
    RequiresRebuild,
    /// It cannot be opened.
    Failed,
}

/// Why links cannot be resolved against a graph, where they cannot.
pub open spec fn unavailability(opening: GraphOpening) -> Option<Seq<char>> {
    match opening {
        GraphOpening::Published(_) => None,
        GraphOpening::Unpublished | GraphOpening::Absent => Some("link.repository.notbuilt"@),
        _ => Some("link.repository.unavailable"@),
    }
}

/// The snapshot that links are resolved against, or why there is none.
pub fn link_availability(opening: GraphOpening) -> (result: (
    Option<SnapshotId>,
    Option<MemoryDiagnosticCode>,
))
    ensures
        result.0.deep_view() == match opening {
            GraphOpening::Published(snapshot_id) => Some(snapshot_id.deep_view()),
            _ => None,
        },
        result.1.deep_view() == unavailability(opening),
{
    proof {
        reveal_strlit("link.repository.notbuilt");
        reveal_strlit("link.repository.unavailable");
    }
    match opening {
        GraphOpening::Published(snapshot_id) => (Some(snapshot_id), None),
        GraphOpening::Unpublished | GraphOpening::Absent => (
            None,
            Some(diagnostic_code("link.repository.notbuilt")),
        ),
        GraphOpening::Unreadable | GraphOpening::NeedsMigration | GraphOpening::RequiresRebuild
        | GraphOpening::Failed => (None, Some(diagnostic_code("link.repository.unavailable"))),
    }
}

/// The repository of a project.
pub open spec fn local_repository(project: ProjectRefView) -> RepositoryRefView {
    RepositoryRefView { namespace: "local:"@ + project.project_id, repository_id: "root"@ }
}

impl LocalRepositoryLinkResolver {
    /// The graph of a project's repository as it was opened. Without a published snapshot none of its
    /// snapshots is looked at. A project whose repository cannot be named has none.
    pub fn opened(
        project: &ProjectRef,
        opening: GraphOpening,
        snapshots: Vec<LocalSnapshot>,
    ) -> (result: Result<Self, MemoryValueError>)
        ensures
            result is Ok == is_bounded_text(
                local_repository(project.deep_view()).namespace,
                MAX_IDENTITY_BYTES as nat,
                false,
            ),
            result matches Ok(resolver) ==> resolver.deep_view() == (LocalRepositoryLinkResolverView {
                repository: local_repository(project.deep_view()),
                repository_snapshot_id: match opening {
                    GraphOpening::Published(snapshot_id) => Some(snapshot_id.deep_view()),
                    _ => None,
                },
                snapshots: if opening is Published {
                    snapshots.deep_view()
                } else {
                    Seq::empty()
                },
                availability_diagnostic: unavailability(opening),
            }),
            result matches Err(error) ==> error.describes(
                "repository namespace"@,
                MAX_IDENTITY_BYTES,
            ),
    {
        let name = joined("local:", project.project_id.as_str());
        let namespace = match RepositoryNamespace::new(name.as_str()) {
            Ok(namespace) => namespace,
            Err(error) => {
                return Err(error);
            },
        };
        proof {
            reveal_strlit("root");
            plain_text_is_bounded("root"@, MAX_IDENTITY_BYTES as nat, false);
        }
        let repository_id = RepositoryId::new("root").unwrap();
        let (repository_snapshot_id, availability_diagnostic) = link_availability(opening);
        let snapshots = match repository_snapshot_id {
            Some(_) => snapshots,
            None => {
                let none: Vec<LocalSnapshot> = Vec::new();
                assert(none.deep_view() =~= Seq::empty());
                none
            },
        };
        Ok(
            LocalRepositoryLinkResolver {
                repository: RepositoryRef { namespace, repository_id },
                repository_snapshot_id,
                snapshots,
                availability_diagnostic,
            },
        )
    }
}

impl Record for LocalRepositoryLinkResolver {
    fn copied(&self) -> (copy: Self) {
        LocalRepositoryLinkResolver {
            repository: self.repository.copied(),
            repository_snapshot_id: self.repository_snapshot_id.copied(),
            snapshots: self.snapshots.copied(),
            availability_diagnostic: self.availability_diagnostic.copied(),
        }
    }

    fn same(&self, other: &Self) -> (same: bool) {
        self.repository.same(&other.repository)
            && self.repository_snapshot_id.same(&other.repository_snapshot_id)
            && self.snapshots.same(&other.snapshots)
            && self.availability_diagnostic.same(&other.availability_diagnostic)
    }
}

impl Clone for LocalRepositoryLinkResolver {
    fn clone(&self) -> (copy: Self)
        ensures
            copy.deep_view() == self.deep_view(),
    {
        self.copied()
    }
}

/// What an earlier resolution found.
#[derive(Debug, PartialEq, Eq)]
pub struct PreviousLinks {
    pub link_set: MemoryRepositoryLinkSet,
    pub relationships: Vec<MemoryRelationship>,
}

/// The model of [`PreviousLinks`].
pub struct PreviousLinksView {
    pub link_set: MemoryRepositoryLinkSetView,
    pub relationships: Seq<MemoryRelationshipView>,
}

impl DeepView for PreviousLinks {
    type V = PreviousLinksView;

    open spec fn deep_view(&self) -> PreviousLinksView {
        PreviousLinksView {
            link_set: self.link_set.deep_view(),
            relationships: self.relationships.deep_view(),
        }
    }
}

impl Record for PreviousLinks {
    fn copied(&self) -> (copy: Self) {
        PreviousLinks {
            link_set: self.link_set.copied(),
            relationships: self.relationships.copied(),
        }
    }

    fn same(&self, other: &Self) -> (same: bool) {
        self.link_set.same(&other.link_set)
            && self.relationships.same(&other.relationships)
    }
}

impl Clone for PreviousLinks {
    fn clone(&self) -> (copy: Self)
        ensures
            copy.deep_view() == self.deep_view(),
    {
        self.copied()
    }
}

/// A snapshot that changes came from has too many files.
#[derive(Debug, Clone, Copy, PartialEq, Eq, Structural)]
pub struct OriginFilesExceeded;

/// The reference that a piece of inline code makes.
pub open spec fn reference_in(code: Seq<char>) -> Option<ExplicitRepositoryReferenceView> {
    let named = trimmed(code);
    let path = trimmed(named.skip("path:"@.len() as int));
    let symbol = trimmed(named.skip("symbol:"@.len() as int));
    if code.contains('\n') || code.contains('\r') {
        None
    } else if "path:"@.is_prefix_of(named) && is_repo_path(path) {
        Some(ExplicitRepositoryReferenceView::Path(path))
    } else if "symbol:"@.is_prefix_of(named) && is_bounded_text(
        symbol,
        MAX_IDENTITY_BYTES as nat,
        false,
    ) {
        Some(ExplicitRepositoryReferenceView::Symbol(symbol))
    } else {
        None
    }
}

/// Whether the piece of inline code at place `at` among the parts between backquotes makes this
/// reference. Every second part is inline code.
pub open spec fn refers_at(
    parts: Seq<Seq<char>>,
    at: int,
    reference: ExplicitRepositoryReferenceView,
) -> bool {
    0 <= at < parts.len() && at % 2 == 1 && reference_in(parts[at]) == Some(reference)
}

/// Whether some inline code among these parts makes this reference.
pub open spec fn refers(parts: Seq<Seq<char>>, reference: ExplicitRepositoryReferenceView) -> bool {
    exists|at: int| refers_at(parts, at, reference)
}

/// The files that some inline code among these parts names.
pub open spec fn referenced_paths(parts: Seq<Seq<char>>) -> Set<Seq<char>> {
    Set::new(|path: Seq<char>| refers(parts, ExplicitRepositoryReferenceView::Path(path)))
}

/// The symbols that some inline code among these parts names.
pub open spec fn referenced_symbols(parts: Seq<Seq<char>>) -> Set<Seq<char>> {
    Set::new(|key: Seq<char>| refers(parts, ExplicitRepositoryReferenceView::Symbol(key)))
}

/// The references that a text makes: its files, then its symbols, each once and in order.
pub open spec fn references(text: Seq<char>) -> Seq<ExplicitRepositoryReferenceView> {
    let parts = split_at_each(text, '`');
    in_order(referenced_paths(parts)).map_values(
        |path: Seq<char>| ExplicitRepositoryReferenceView::Path(path),
    ) + in_order(referenced_symbols(parts)).map_values(
        |key: Seq<char>| ExplicitRepositoryReferenceView::Symbol(key),
    )
}

fn reference_of(code: &str) -> (reference: Option<ExplicitRepositoryReference>)
    ensures
        match reference {
            Some(reference) => reference_in(code@) == Some(reference.deep_view()),
            None => reference_in(code@) is None,
        },
{
    if contains_character(code, '\n') || contains_character(code, '\r') {
        return None;
    }
    let named = trim(code);
    if let Some(rest) = strip_prefix(named.as_str(), "path:") {
        let path = trim(rest.as_str());
        if let Ok(path) = RepoPath::new(path.as_str()) {
            return Some(ExplicitRepositoryReference::Path(path));
        }
    }
    if let Some(rest) = strip_prefix(named.as_str(), "symbol:") {
        let key = trim(rest.as_str());
        if let Ok(key) = SemanticKey::new(key.as_str()) {
            return Some(ExplicitRepositoryReference::Symbol(key));
        }
    }
    None
}

/// The parts before `at` name what the parts before `at + 1` name, and one reference more at most.
proof fn references_grow(parts: Seq<Seq<char>>, at: int)
    requires
        0 <= at < parts.len(),
    ensures
        referenced_paths(parts.take(at + 1)) == match (if at % 2 == 1 { reference_in(parts[at]) } else { None }) {
            Some(ExplicitRepositoryReferenceView::Path(path)) => {
                referenced_paths(parts.take(at)).insert(path)
            },
            _ => referenced_paths(parts.take(at)),
        },
        referenced_symbols(parts.take(at + 1)) == match (if at % 2 == 1 { reference_in(parts[at]) } else { None }) {
            Some(ExplicitRepositoryReferenceView::Symbol(key)) => {
                referenced_symbols(parts.take(at)).insert(key)
            },
            _ => referenced_symbols(parts.take(at)),
        },
{
    let before = parts.take(at);
    let after = parts.take(at + 1);
    let found = if at % 2 == 1 { reference_in(parts[at]) } else { None };
    let paths = match found {
        Some(ExplicitRepositoryReferenceView::Path(path)) => referenced_paths(before).insert(path),
        _ => referenced_paths(before),
    };
    let symbols = match found {
        Some(ExplicitRepositoryReferenceView::Symbol(key)) => {
            referenced_symbols(before).insert(key)
        },
        _ => referenced_symbols(before),
    };
    assert forall|path: Seq<char>| referenced_paths(after).contains(path) == paths.contains(path) by {
        reference_grows(parts, at, ExplicitRepositoryReferenceView::Path(path));
    }
    assert(referenced_paths(after) =~= paths);
    assert forall|key: Seq<char>| referenced_symbols(after).contains(key) == symbols.contains(key) by {
        reference_grows(parts, at, ExplicitRepositoryReferenceView::Symbol(key));
    }
    assert(referenced_symbols(after) =~= symbols);
}

proof fn reference_grows(parts: Seq<Seq<char>>, at: int, reference: ExplicitRepositoryReferenceView)
    requires
        0 <= at < parts.len(),
    ensures
        refers(parts.take(at + 1), reference) == (refers(parts.take(at), reference) || (at % 2 == 1 && reference_in(parts[at]) == Some(
            reference,
        ))),
{
    let before = parts.take(at);
    let after = parts.take(at + 1);
    if refers(before, reference) {
        let i = choose|i: int| refers_at(before, i, reference);
        assert(refers_at(after, i, reference));
    }
    if refers(after, reference) {
        let i = choose|i: int| refers_at(after, i, reference);
        if i != at {
            assert(refers_at(before, i, reference));
        }
    }
    if at % 2 == 1 && reference_in(parts[at]) == Some(reference) {
        assert(refers_at(after, at, reference));
    }
}

proof fn pushed_to_set(keys: Seq<Seq<char>>, key: Seq<char>)
    ensures
        keys.push(key).to_set() == keys.to_set().insert(key),
{
    assert forall|other: Seq<char>| keys.push(key).to_set().contains(other) == keys.to_set().insert(key).contains(other) by {
        if keys.contains(other) {
            let i = choose|i: int| 0 <= i < keys.len() && keys[i] == other;
            assert(keys.push(key)[i] == other);
        }
        assert(keys.push(key)[keys.len() as int] == key);
        if keys.push(key).contains(other) {
            let i = choose|i: int| 0 <= i < keys.push(key).len() && keys.push(key)[i] == other;
            if i < keys.len() {
                assert(keys[i] == other);
            }
        }
    }
    assert(keys.push(key).to_set() =~= keys.to_set().insert(key));
}

/// The references that a text makes. The deadline is asked about before each part of the text.
pub fn explicit_references_until<D: Deadline>(
    text: &str,
    deadline: &mut D,
) -> (result: Result<Vec<ExplicitRepositoryReference>, SnapshotLinkResolutionError>)
    ensures
        asked_until(*old(deadline), *final(deadline), result is Err),
        match result {
            Ok(found) => found.deep_view() == references(text@)
                && final(deadline).answers().len() == old(deadline).answers().len()
                + split_at_each(text@, '`').len(),
            Err(error) => error == SnapshotLinkResolutionError::DeadlineExceeded,
        },
{
    let ghost start = *deadline;
    let parts = split_text(text, '`');
    let ghost models = parts.deep_view();
    let mut paths: Vec<String> = Vec::new();
    let mut symbols: Vec<String> = Vec::new();
    let mut at: usize = 0;
    assert(referenced_paths(models.take(0)) =~= Set::<Seq<char>>::empty());
    assert(referenced_symbols(models.take(0)) =~= Set::<Seq<char>>::empty());
    assert(paths.deep_view().to_set() =~= Set::<Seq<char>>::empty());
    assert(symbols.deep_view().to_set() =~= Set::<Seq<char>>::empty());
    while at < parts.len()
        invariant
            at <= parts.len(),
            models == parts.deep_view(),
            start == *old(deadline),
            asked_until(start, *deadline, false),
            deadline.answers().len() == start.answers().len() + at,
            paths.deep_view().to_set() == referenced_paths(models.take(at as int)),
            symbols.deep_view().to_set() == referenced_symbols(models.take(at as int)),
            forall|i: int| 0 <= i < paths.len() ==> is_repo_path((#[trigger] paths@[i])@),
            forall|i: int| 0 <= i < symbols.len() ==> is_bounded_text((#[trigger] symbols@[i])@, MAX_IDENTITY_BYTES as nat, false),
        decreases parts.len() - at,
    {
        if poll(deadline, Ghost(start)) {
            return Err(SnapshotLinkResolutionError::DeadlineExceeded);
        }
        proof {
            references_grow(models, at as int);
        }
        if at % 2 == 1 {
            assert(models[at as int] == parts@[at as int]@);
            match reference_of(parts[at].as_str()) {
                Some(ExplicitRepositoryReference::Path(path)) => {
                    let ghost before = paths.deep_view();
                    paths.push(path.as_str().to_owned());
                    assert(paths.deep_view() =~= before.push(path.deep_view()));
                    proof {
                        pushed_to_set(before, path.deep_view());
                    }
                },
                Some(ExplicitRepositoryReference::Symbol(key)) => {
                    let ghost before = symbols.deep_view();
                    symbols.push(key.as_str().to_owned());
                    assert(symbols.deep_view() =~= before.push(key.deep_view()));
                    proof {
                        pushed_to_set(before, key.deep_view());
                    }
                },
                None => {},
            }
        }
        at += 1;
    }
    assert(models.take(at as int) =~= models);
    let sorted_paths = sorted_distinct(&paths);
    let sorted_symbols = sorted_distinct(&symbols);
    let mut result: Vec<ExplicitRepositoryReference> = Vec::new();
    let mut at: usize = 0;
    let ghost path_models = in_order(referenced_paths(models));
    let ghost symbol_models = in_order(referenced_symbols(models));
    let ghost all = references(text@);
    proof {
        crate::order::in_order_holds(paths.deep_view());
        crate::order::in_order_holds(symbols.deep_view());
    }
    while at < sorted_paths.len()
        invariant
            at <= sorted_paths.len(),
            sorted_paths.deep_view() == path_models,
            path_models.to_set() == paths.deep_view().to_set(),
            forall|i: int| 0 <= i < paths.len() ==> is_repo_path((#[trigger] paths@[i])@),
            all == path_models.map_values(|path: Seq<char>| ExplicitRepositoryReferenceView::Path(path))
                + symbol_models.map_values(|key: Seq<char>| ExplicitRepositoryReferenceView::Symbol(key)),
            result.deep_view() =~= all.take(at as int),
        decreases sorted_paths.len() - at,
    {
        let ghost before = result.deep_view();
        assert(sorted_paths.deep_view()[at as int] == sorted_paths@[at as int]@);
        assert(path_models.to_set().contains(path_models[at as int]));
        assert(paths.deep_view().contains(path_models[at as int]));
        let path = RepoPath::new(sorted_paths[at].as_str()).unwrap();
        result.push(ExplicitRepositoryReference::Path(path));
        assert(result.deep_view() =~= before.push(all[at as int]));
        at += 1;
    }
    let mut at: usize = 0;
    while at < sorted_symbols.len()
        invariant
            at <= sorted_symbols.len(),
            sorted_symbols.deep_view() == symbol_models,
            symbol_models.to_set() == symbols.deep_view().to_set(),
            forall|i: int| 0 <= i < symbols.len() ==> is_bounded_text((#[trigger] symbols@[i])@, MAX_IDENTITY_BYTES as nat, false),
            all == path_models.map_values(|path: Seq<char>| ExplicitRepositoryReferenceView::Path(path))
                + symbol_models.map_values(|key: Seq<char>| ExplicitRepositoryReferenceView::Symbol(key)),
            result.deep_view() =~= all.take(path_models.len() + at),
        decreases sorted_symbols.len() - at,
    {
        let ghost before = result.deep_view();
        assert(sorted_symbols.deep_view()[at as int] == sorted_symbols@[at as int]@);
        assert(symbol_models.to_set().contains(symbol_models[at as int]));
        assert(symbols.deep_view().contains(symbol_models[at as int]));
        let key = SemanticKey::new(sorted_symbols[at].as_str()).unwrap();
        result.push(ExplicitRepositoryReference::Symbol(key));
        assert(result.deep_view() =~= before.push(all[path_models.len() + at]));
        at += 1;
    }
    assert(result.deep_view() =~= all);
    Ok(result)
}

/// The references that a text makes.
pub fn explicit_references(text: &str) -> (found: Vec<ExplicitRepositoryReference>)
    ensures
        found.deep_view() == references(text@),
{
    let mut deadline = NoDeadline::new();
    match explicit_references_until(text, &mut deadline) {
        Ok(found) => found,
        Err(_) => {
            deadline.never_expired();
            Vec::new()
        },
    }
}

/// What the nodes of a snapshot say of its files: which there are, and what each holds.
pub open spec fn file_map(nodes: Seq<GraphNodeView>) -> Map<Seq<char>, DigestView>
    decreases nodes.len(),
{
    if nodes.len() == 0 {
        Map::empty()
    } else {
        let files = file_map(nodes.drop_last());
        match nodes.last().provenance.evidence {
            Some(evidence) => files.insert(evidence.path, evidence.content_identity),
            None => files,
        }
    }
}

/// Whether no two nodes say different things of the same file.
pub open spec fn is_consistent(nodes: Seq<GraphNodeView>) -> bool
    decreases nodes.len(),
{
    nodes.len() == 0 || {
        let files = file_map(nodes.drop_last());
        &&& is_consistent(nodes.drop_last())
        &&& match nodes.last().provenance.evidence {
            Some(evidence) => files.contains_key(evidence.path) ==> files[evidence.path]
                == evidence.content_identity,
            None => true,
        }
    }
}

/// Whether the nodes are those of one snapshot, agree with each other, and have not too many files.
pub open spec fn is_valid_snapshot(snapshot_id: Seq<char>, nodes: Seq<GraphNodeView>) -> bool {
    &&& forall|i: int| 0 <= i < nodes.len() ==> (#[trigger] nodes[i]).snapshot_id == snapshot_id
    &&& is_consistent(nodes)
    &&& file_map(nodes).dom().len() <= MAX_ORIGIN_FILES
}

proof fn first_nodes(nodes: Seq<GraphNodeView>, count: int)
    requires
        0 <= count <= nodes.len(),
    ensures
        is_consistent(nodes) ==> is_consistent(nodes.take(count)),
        file_map(nodes).dom().finite(),
        file_map(nodes.take(count)).dom().subset_of(file_map(nodes).dom()),
        file_map(nodes.take(count)).dom().len() <= file_map(nodes).dom().len(),
    decreases nodes.len(),
{
    if nodes.len() > 0 {
        let rest = nodes.drop_last();
        first_nodes(rest, 0);
        if count < nodes.len() {
            first_nodes(rest, count);
            assert(rest.take(count) =~= nodes.take(count));
        } else {
            assert(nodes.take(count) =~= nodes);
        }
        vstd::set_lib::lemma_len_subset(file_map(nodes.take(count)).dom(), file_map(nodes).dom());
    } else {
        assert(nodes.take(count) =~= nodes);
    }
}

/// What the nodes of a snapshot say of its files. The deadline is asked about before each node.
pub fn snapshot_files_from_nodes<D: Deadline>(
    snapshot_id: &SnapshotId,
    nodes: &Vec<GraphNode>,
    deadline: &mut D,
) -> (result: Result<OrderedMap<Digest>, SnapshotLinkResolutionError>)
    ensures
        asked_until(*old(deadline), *final(deadline), result matches Err(error) && error
            == SnapshotLinkResolutionError::DeadlineExceeded),
        match result {
            Ok(files) => {
                &&& is_valid_snapshot(snapshot_id.deep_view(), nodes.deep_view())
                &&& files.well_formed()
                &&& files.deep_view() == file_map(nodes.deep_view())
                &&& has_repo_paths(files.deep_view())
                &&& final(deadline).answers().len() == old(deadline).answers().len() + nodes.len()
            },
            Err(error) => error == SnapshotLinkResolutionError::InvalidSnapshot
                ==> !is_valid_snapshot(snapshot_id.deep_view(), nodes.deep_view()),
        },
{
    let ghost start = *deadline;
    let ghost models = nodes.deep_view();
    let mut files: OrderedMap<Digest> = OrderedMap::new();
    let mut at: usize = 0;
    assert(models.take(0) =~= Seq::empty());
    proof {
        first_nodes(models, 0);
    }
    while at < nodes.len()
        invariant
            at <= nodes.len(),
            models == nodes.deep_view(),
            start == *old(deadline),
            asked_until(start, *deadline, false),
            deadline.answers().len() == start.answers().len() + at,
            files.well_formed(),
            files.deep_view() == file_map(models.take(at as int)),
            file_map(models.take(at as int)).dom().len() <= MAX_ORIGIN_FILES,
            is_consistent(models.take(at as int)),
            has_repo_paths(files.deep_view()),
            forall|i: int| 0 <= i < at ==> (#[trigger] models[i]).snapshot_id == snapshot_id.deep_view(),
        decreases nodes.len() - at,
    {
        if poll(deadline, Ghost(start)) {
            return Err(SnapshotLinkResolutionError::DeadlineExceeded);
        }
        let node = &nodes[at];
        let ghost next = models.take(at + 1);
        proof {
            assert(models[at as int] == node.deep_view());
            assert(next.drop_last() =~= models.take(at as int));
            assert(next.last() == node.deep_view());
            first_nodes(models, at + 1);
        }
        if !node.snapshot_id.same(snapshot_id) {
            assert(nodes.deep_view()[at as int].snapshot_id != snapshot_id.deep_view());
            return Err(SnapshotLinkResolutionError::InvalidSnapshot);
        }
        match &node.provenance.evidence {
            Some(evidence) => {
                let path = evidence.path.as_str().to_owned();
                match files.insert(path, evidence.content_identity.copied()) {
                    Some(existing) => {
                        if !existing.same(&evidence.content_identity) {
                            assert(!is_consistent(next));
                            return Err(SnapshotLinkResolutionError::InvalidSnapshot);
                        }
                    },
                    None => {},
                }
                if files.len() > MAX_ORIGIN_FILES {
                    return Err(SnapshotLinkResolutionError::InvalidSnapshot);
                }
            },
            None => {},
        }
        at += 1;
    }
    assert(models.take(at as int) =~= models);
    Ok(files)
}

/// Whether every key is a path.
pub open spec fn has_repo_paths(files: Map<Seq<char>, DigestView>) -> bool {
    forall|path: Seq<char>| #[trigger] files.contains_key(path) ==> is_repo_path(path)
}

/// The files of several snapshots.
pub struct SnapshotFiles {
    ids: Vec<SnapshotId>,
    files: Vec<OrderedMap<Digest>>,
}

impl SnapshotFiles {
    pub closed spec fn well_formed(self) -> bool {
        &&& self.ids.len() == self.files.len()
        &&& self.ids.deep_view().no_duplicates()
        &&& forall|i: int| 0 <= i < self.files.len() ==> (#[trigger] self.files@[i]).well_formed()
        &&& forall|i: int| 0 <= i < self.files.len() ==> has_repo_paths((#[trigger] self.files@[i]).deep_view())
    }

    /// The files of each snapshot.
    pub closed spec fn model(self) -> Map<Seq<char>, Map<Seq<char>, DigestView>> {
        Map::new(
            |id: Seq<char>| self.ids.deep_view().contains(id),
            |id: Seq<char>| self.files@[self.ids.deep_view().index_of(id)].deep_view(),
        )
    }

    /// Only finitely many snapshots are held, each with finitely many files.
    pub proof fn holds_finitely_many(self)
        requires
            self.well_formed(),
        ensures
            self.model().dom().finite(),
            forall|id: Seq<char>| #[trigger]
                self.model().contains_key(id) ==> self.model()[id].dom().finite(),
    {
        assert(self.model().dom() =~= self.ids.deep_view().to_set());
        assert forall|id: Seq<char>| #[trigger] self.model().contains_key(id) implies self.model()[id].dom().finite() by {
            let at = self.ids.deep_view().index_of(id);
            self.files@[at].holds_finitely_many();
        }
    }

    /// No snapshots.
    pub fn new() -> (snapshots: Self)
        ensures
            snapshots.well_formed(),
            snapshots.model() == Map::<Seq<char>, Map<Seq<char>, DigestView>>::empty(),
    {
        let snapshots = SnapshotFiles { ids: Vec::new(), files: Vec::new() };
        assert(snapshots.model() =~= Map::empty());
        snapshots
    }

    /// The files of a snapshot.
    pub fn get(&self, id: &SnapshotId) -> (files: Option<&OrderedMap<Digest>>)
        requires
            self.well_formed(),
        ensures
            files is Some == self.model().contains_key(id.deep_view()),
            files matches Some(found) ==> found.well_formed() && found.deep_view()
                == self.model()[id.deep_view()] && has_repo_paths(found.deep_view()),
    {
        let ghost ids = self.ids.deep_view();
        let mut at: usize = 0;
        while at < self.ids.len()
            invariant
                at <= self.ids.len(),
                self.well_formed(),
                ids == self.ids.deep_view(),
                forall|i: int| 0 <= i < at ==> #[trigger] ids[i] != id.deep_view(),
            decreases self.ids.len() - at,
        {
            assert(ids[at as int] == self.ids@[at as int].deep_view());
            if self.ids[at].same(id) {
                assert(ids.contains(ids[at as int]));
                assert(ids.index_of(ids[at as int]) == at);
                return Some(&self.files[at]);
            }
            at += 1;
        }
        assert(!ids.contains(id.deep_view()));
        None
    }

    /// Whether the files of a snapshot are known.
    pub fn contains(&self, id: &str) -> (found: bool)
        requires
            self.well_formed(),
        ensures
            found == self.model().contains_key(id@),
    {
        let ghost ids = self.ids.deep_view();
        let name = id.to_owned();
        let mut at: usize = 0;
        while at < self.ids.len()
            invariant
                at <= self.ids.len(),
                ids == self.ids.deep_view(),
                name@ == id@,
                forall|i: int| 0 <= i < at ==> #[trigger] ids[i] != id@,
            decreases self.ids.len() - at,
        {
            assert(ids[at as int] == self.ids@[at as int].deep_view());
            if self.ids[at].as_str().to_owned() == name {
                assert(ids.contains(ids[at as int]));
                return true;
            }
            at += 1;
        }
        assert(!ids.contains(id@));
        false
    }

    /// Adds a snapshot, unless it is there already.
    pub fn insert(&mut self, id: &SnapshotId, files: OrderedMap<Digest>) -> (fresh: bool)
        requires
            old(self).well_formed(),
            files.well_formed(),
            has_repo_paths(files.deep_view()),
        ensures
            final(self).well_formed(),
            fresh == !old(self).model().contains_key(id.deep_view()),
            fresh ==> final(self).model() == old(self).model().insert(id.deep_view(), files.deep_view()),
            !fresh ==> final(self).model() == old(self).model(),
    {
        if self.get(id).is_some() {
            return false;
        }
        let ghost before = *self;
        let ghost added = files.deep_view();
        self.ids.push(id.copied());
        self.files.push(files);
        proof {
            let old_ids = before.ids.deep_view();
            let new_ids = self.ids.deep_view();
            assert(new_ids =~= old_ids.push(id.deep_view()));
            assert(new_ids.no_duplicates()) by {
                assert forall|i: int, j: int|
                    0 <= i < new_ids.len() && 0 <= j < new_ids.len() && i != j implies new_ids[i] != new_ids[j] by {
                    if i == old_ids.len() {
                        assert(old_ids.contains(old_ids[j]));
                    } else if j == old_ids.len() {
                        assert(old_ids.contains(old_ids[i]));
                    }
                }
            }
            let expected = before.model().insert(id.deep_view(), added);
            assert forall|other: Seq<char>| self.model().contains_key(other) == expected.contains_key(other) by {
                if old_ids.contains(other) {
                    let i = old_ids.index_of(other);
                    assert(new_ids[i] == other);
                }
                assert(new_ids[old_ids.len() as int] == id.deep_view());
            }
            assert forall|other: Seq<char>|
                self.model().contains_key(other) implies self.model()[other] == expected[other] by {
                let i = new_ids.index_of(other);
                assert(0 <= i < new_ids.len() && new_ids[i] == other);
                if other != id.deep_view() {
                    assert(old_ids[i] == other);
                    let j = old_ids.index_of(other);
                    assert(old_ids[j] == other);
                    assert(new_ids[j] == other);
                    assert(i == j);
                } else {
                    assert(new_ids[old_ids.len() as int] == other);
                    assert(i == old_ids.len());
                }
            }
            assert(self.model() =~= expected);
        }
        true
    }
}

/// What a snapshot holds of a file.
pub open spec fn file_in(files: Map<Seq<char>, DigestView>, path: Seq<char>) -> Option<DigestView> {
    if files.contains_key(path) {
        Some(files[path])
    } else {
        None
    }
}

/// The files that are not the same in both snapshots.
pub open spec fn differing_paths(
    baseline: Map<Seq<char>, DigestView>,
    view: Map<Seq<char>, DigestView>,
) -> Set<Seq<char>> {
    baseline.dom().union(view.dom()).filter(|path: Seq<char>| file_in(baseline, path) != file_in(view, path))
}

/// The files that differ between two snapshots, in order, each with the snapshot that has it: the
/// later one, or the earlier one where the file is gone. Unknown where a snapshot is.
pub open spec fn changes(
    baseline: Option<Seq<char>>,
    view: Option<Seq<char>>,
    snapshots: Map<Seq<char>, Map<Seq<char>, DigestView>>,
) -> Option<Seq<ChangedPathView>> {
    match (baseline, view) {
        (Some(baseline), Some(view)) => if snapshots.contains_key(baseline) && snapshots.contains_key(view) {
            Some(
                in_order(differing_paths(snapshots[baseline], snapshots[view])).map_values(
                    |path: Seq<char>|
                        ChangedPathView {
                            path,
                            origin_snapshot_id: if snapshots[view].contains_key(path) {
                                view
                            } else {
                                baseline
                            },
                        },
                ),
            )
        } else {
            None
        },
        _ => None,
    }
}

fn same_file(baseline: &OrderedMap<Digest>, view: &OrderedMap<Digest>, path: &str) -> (same: bool)
    requires
        baseline.well_formed(),
        view.well_formed(),
    ensures
        same == (file_in(baseline.deep_view(), path@) == file_in(view.deep_view(), path@)),
{
    match (baseline.get(path), view.get(path)) {
        (Some(left), Some(right)) => left.same(right),
        (None, None) => true,
        _ => false,
    }
}

fn collect_differing(
    keys: &Vec<String>,
    baseline: &OrderedMap<Digest>,
    view: &OrderedMap<Digest>,
    found: &mut Vec<String>,
)
    requires
        baseline.well_formed(),
        view.well_formed(),
    ensures
        final(found).deep_view().to_set() == old(found).deep_view().to_set().union(
            keys.deep_view().to_set().filter(
                |path: Seq<char>| file_in(baseline.deep_view(), path) != file_in(view.deep_view(), path),
            ),
        ),
{
    let ghost differs = |path: Seq<char>| file_in(baseline.deep_view(), path) != file_in(view.deep_view(), path);
    let ghost before = found.deep_view().to_set();
    let ghost models = keys.deep_view();
    let mut at: usize = 0;
    assert(models.take(0).to_set() =~= Set::empty());
    assert(found.deep_view().to_set() =~= before.union(models.take(0).to_set().filter(differs)));
    while at < keys.len()
        invariant
            at <= keys.len(),
            baseline.well_formed(),
            view.well_formed(),
            models == keys.deep_view(),
            differs == (|path: Seq<char>| file_in(baseline.deep_view(), path) != file_in(view.deep_view(), path)),
            found.deep_view().to_set() == before.union(models.take(at as int).to_set().filter(differs)),
        decreases keys.len() - at,
    {
        let ghost so_far = found.deep_view();
        assert(models[at as int] == keys@[at as int]@);
        assert(models.take(at + 1) =~= models.take(at as int).push(models[at as int]));
        proof {
            pushed_to_set(models.take(at as int), models[at as int]);
        }
        if !same_file(baseline, view, keys[at].as_str()) {
            found.push(keys[at].clone());
            assert(found.deep_view() =~= so_far.push(models[at as int]));
            proof {
                pushed_to_set(so_far, models[at as int]);
            }
        }
        assert(found.deep_view().to_set() =~= before.union(models.take(at + 1).to_set().filter(differs)));
        at += 1;
    }
    assert(models.take(at as int) =~= models);
}

/// The files that differ between two snapshots.
pub fn portable_origin_changed_paths(
    baseline: &Option<SnapshotId>,
    view: &Option<SnapshotId>,
    snapshots: &SnapshotFiles,
) -> (changed: Option<Vec<ChangedPath>>)
    requires
        snapshots.well_formed(),
    ensures
        changed.deep_view() == changes(baseline.deep_view(), view.deep_view(), snapshots.model()),
{
    let (baseline, view) = match (baseline, view) {
        (Some(baseline), Some(view)) => (baseline, view),
        _ => {
            return None;
        },
    };
    let (baseline_files, view_files) = match (snapshots.get(baseline), snapshots.get(view)) {
        (Some(baseline_files), Some(view_files)) => (baseline_files, view_files),
        _ => {
            return None;
        },
    };
    let ghost left = baseline_files.deep_view();
    let ghost right = view_files.deep_view();
    let mut found: Vec<String> = Vec::new();
    assert(found.deep_view().to_set() =~= Set::empty());
    collect_differing(baseline_files.keys(), baseline_files, view_files, &mut found);
    collect_differing(view_files.keys(), baseline_files, view_files, &mut found);
    assert(found.deep_view().to_set() =~= differing_paths(left, right));
    let paths = sorted_distinct(&found);
    proof {
        crate::order::in_order_holds(found.deep_view());
    }
    let ghost all = changes(
        Some(baseline.deep_view()),
        Some(view.deep_view()),
        snapshots.model(),
    )->0;
    let mut changed: Vec<ChangedPath> = Vec::new();
    let mut at: usize = 0;
    while at < paths.len()
        invariant
            at <= paths.len(),
            view_files.well_formed(),
            view_files.deep_view() == right,
            has_repo_paths(left),
            has_repo_paths(right),
            paths.deep_view() == in_order(differing_paths(left, right)),
            paths.deep_view().to_set() == differing_paths(left, right),
            all == paths.deep_view().map_values(
                |path: Seq<char>|
                    ChangedPathView {
                        path,
                        origin_snapshot_id: if right.contains_key(path) {
                            view.deep_view()
                        } else {
                            baseline.deep_view()
                        },
                    },
            ),
            changed.deep_view() =~= all.take(at as int),
        decreases paths.len() - at,
    {
        let ghost before = changed.deep_view();
        let ghost path_model = paths.deep_view()[at as int];
        assert(path_model == paths@[at as int]@);
        assert(paths.deep_view().to_set().contains(path_model));
        assert(is_repo_path(path_model)) by {
            if left.contains_key(path_model) {
            } else {
                assert(right.contains_key(path_model));
            }
        }
        let origin = if view_files.contains(paths[at].as_str()) {
            view.copied()
        } else {
            baseline.copied()
        };
        let path = RepoPath::new(paths[at].as_str()).unwrap();
        changed.push(ChangedPath { path, origin_snapshot_id: origin });
        assert(changed.deep_view() =~= before.push(all[at as int]));
        at += 1;
    }
    assert(changed.deep_view() =~= all);
    Some(changed)
}

/// The curated text of an entity, where it has one.
pub open spec fn curated(data: MemoryEntityDataView) -> Option<Seq<char>> {
    match data {
        MemoryEntityDataView::Outcome { text } => Some(text),
        MemoryEntityDataView::Decision { text } => Some(text),
        MemoryEntityDataView::Deviation { text } => Some(text),
        MemoryEntityDataView::FollowUpWork { text, milestone_id } => Some(text),
        MemoryEntityDataView::ValidationEvidence { text, check_id, status } => text,
        _ => None,
    }
}

/// The curated text of an entity, where it has one.
pub fn curated_text(data: &MemoryEntityData) -> (text: Option<&str>)
    ensures
        text is Some == curated(data.deep_view()) is Some,
        text matches Some(text) ==> curated(data.deep_view()) == Some(text@),
{
    match data {
        MemoryEntityData::Outcome { text } => Some(text.as_str()),
        MemoryEntityData::Decision { text } => Some(text.as_str()),
        MemoryEntityData::Deviation { text } => Some(text.as_str()),
        MemoryEntityData::FollowUpWork { text, .. } => Some(text.as_str()),
        MemoryEntityData::ValidationEvidence { text: Some(text), .. } => Some(text.as_str()),
        _ => None,
    }
}

/// The snapshots between which an entity's changes were made.
pub open spec fn origin_snapshots(data: MemoryEntityDataView) -> Seq<Seq<char>> {
    match data {
        MemoryEntityDataView::TaskReference { baseline_snapshot_id, repository_snapshot_id, .. } => given(
            baseline_snapshot_id,
        ) + given(repository_snapshot_id),
        MemoryEntityDataView::RunReference { baseline_snapshot_id, repository_snapshot_id, .. } => given(
            baseline_snapshot_id,
        ) + given(repository_snapshot_id),
        _ => Seq::empty(),
    }
}

/// The text that is there, if any.
pub open spec fn given(text: Option<Seq<char>>) -> Seq<Seq<char>> {
    match text {
        Some(text) => seq![text],
        None => Seq::empty(),
    }
}

/// The snapshots between which the entities' changes were made, entity by entity.
pub open spec fn all_origin_snapshots(entities: Seq<MemoryEntityView>) -> Seq<Seq<char>>
    decreases entities.len(),
{
    if entities.len() == 0 {
        Seq::empty()
    } else {
        all_origin_snapshots(entities.drop_last()) + origin_snapshots(entities.last().data)
    }
}

fn push_given(texts: &mut Vec<String>, id: &Option<SnapshotId>)
    ensures
        final(texts).deep_view() == old(texts).deep_view() + given(id.deep_view()),
{
    let ghost before = texts.deep_view();
    match id {
        Some(id) => {
            texts.push(id.as_str().to_owned());
            assert(texts.deep_view() =~= before + given(Some(id.deep_view())));
        },
        None => {
            assert(texts.deep_view() =~= before + given(None));
        },
    }
}

/// The snapshots between which the entities' changes were made, each once and in order.
pub fn repository_origin_snapshots(entities: &Vec<MemoryEntity>) -> (origins: Vec<String>)
    ensures
        origins.deep_view() == in_order(all_origin_snapshots(entities.deep_view()).to_set()),
{
    let ghost models = entities.deep_view();
    let mut found: Vec<String> = Vec::new();
    let mut at: usize = 0;
    assert(found.deep_view() =~= all_origin_snapshots(models.take(0)));
    while at < entities.len()
        invariant
            at <= entities.len(),
            models == entities.deep_view(),
            found.deep_view() == all_origin_snapshots(models.take(at as int)),
        decreases entities.len() - at,
    {
        let ghost before = found.deep_view();
        let entity = &entities[at];
        assert(models.take(at + 1).drop_last() =~= models.take(at as int));
        assert(models.take(at + 1).last() == entity.deep_view());
        match &entity.data {
            MemoryEntityData::TaskReference {
                baseline_snapshot_id,
                repository_snapshot_id,
                ..
            } => {
                push_given(&mut found, baseline_snapshot_id);
                push_given(&mut found, repository_snapshot_id);
            },
            MemoryEntityData::RunReference { baseline_snapshot_id, repository_snapshot_id, .. } => {
                push_given(&mut found, baseline_snapshot_id);
                push_given(&mut found, repository_snapshot_id);
            },
            _ => {},
        }
        assert(found.deep_view() =~= before + origin_snapshots(entity.deep_view().data));
        at += 1;
    }
    assert(models.take(at as int) =~= models);
    sorted_distinct(&found)
}

/// The identity of a set of links: what was linked, against what, and by whom.
pub open spec fn link_set_identity(
    revision: MemoryRevisionView,
    repository: RepositoryRefView,
    snapshot_id: Option<Seq<char>>,
    origins: Seq<Seq<char>>,
    available: spec_fn(Seq<char>) -> bool,
) -> Seq<char> {
    "memory-links:"@ + text_digest(
        json_array(
            seq![
                json_string("repository-link-set"@),
                <ProjectRef as ToJson>::json(revision.project),
                json_string(revision.id),
                <RepositoryRef as ToJson>::json(repository),
                <Option<SnapshotId> as ToJson>::json(snapshot_id),
                json_array(
                    origins.map_values(
                        |origin: Seq<char>| origin_availability(origin, available(origin)),
                    ),
                ),
                <MemoryExtractorIdentity as ToJson>::json(resolver_model()),
            ],
        ),
    )
}

/// A snapshot and whether it is at hand, as JSON text.
pub open spec fn origin_availability(origin: Seq<char>, available: bool) -> Seq<char> {
    json_array(seq![json_string(origin), <bool as ToJson>::json(available)])
}

/// The identity of the resolver.
pub open spec fn resolver_model() -> crate::domain::MemoryExtractorIdentityView {
    extractor_model("ferrus.repository-link-resolver"@)
}

/// The identity of the resolver.
pub fn resolver_identity() -> (identity: MemoryExtractorIdentity)
    ensures
        identity.deep_view() == resolver_model(),
{
    proof {
        reveal_strlit("ferrus.repository-link-resolver");
    }
    extractor_identity("ferrus.repository-link-resolver")
}

fn link_set_id_of(
    revision: &MemoryRevision,
    repository: &RepositoryRef,
    snapshot_id: &Option<SnapshotId>,
    origins: &Vec<String>,
    availability: &Vec<bool>,
    available: Ghost<spec_fn(Seq<char>) -> bool>,
) -> (id: MemoryRepositoryLinkSetId)
    requires
        origins.len() == availability.len(),
        forall|i: int| 0 <= i < origins.len() ==> #[trigger] availability@[i] == available@(origins.deep_view()[i]),
    ensures
        id.deep_view() == link_set_identity(
            revision.deep_view(),
            repository.deep_view(),
            snapshot_id.deep_view(),
            origins.deep_view(),
            available@,
        ),
{
    let ghost texts = origins.deep_view().map_values(
        |origin: Seq<char>| origin_availability(origin, available@(origin)),
    );
    let mut list = JsonArray::new();
    let mut at: usize = 0;
    while at < origins.len()
        invariant
            at <= origins.len(),
            origins.len() == availability.len(),
            forall|i: int| 0 <= i < origins.len() ==> #[trigger] availability@[i] == available@(origins.deep_view()[i]),
            texts == origins.deep_view().map_values(
                |origin: Seq<char>| origin_availability(origin, available@(origin)),
            ),
            list.items() =~= texts.take(at as int),
        decreases origins.len() - at,
    {
        let pair = JsonArray::new().item(origins[at].to_json()).item(availability[at].to_json());
        assert(origins.deep_view()[at as int] == origins@[at as int]@);
        assert(pair.items() =~= seq![
            json_string(origins.deep_view()[at as int]),
            <bool as ToJson>::json(availability@[at as int]),
        ]);
        list = list.item(pair.finish());
        assert(availability@[at as int] == available@(origins.deep_view()[at as int]));
        at += 1;
    }
    assert(texts.take(at as int) =~= texts);
    let all = JsonArray::new().item(text_json("repository-link-set")).item(revision.project.to_json()).item(
        revision.id.to_json(),
    ).item(repository.to_json()).item(snapshot_id.to_json()).item(list.finish()).item(
        resolver_identity().to_json(),
    );
    assert(all.items() =~= seq![
        json_string("repository-link-set"@),
        <ProjectRef as ToJson>::json(revision.deep_view().project),
        json_string(revision.deep_view().id),
        <RepositoryRef as ToJson>::json(repository.deep_view()),
        <Option<SnapshotId> as ToJson>::json(snapshot_id.deep_view()),
        json_array(texts),
        <MemoryExtractorIdentity as ToJson>::json(resolver_model()),
    ]);
    let text = all.finish();
    proof {
        reveal_strlit("memory-links:");
    }
    MemoryRepositoryLinkSetId::of_digest("memory-links:", text.as_str())
}

/// The entity of each milestone: the last one that claims it.
pub open spec fn milestone_entities(entities: Seq<MemoryEntityView>) -> Map<Seq<char>, Seq<char>>
    decreases entities.len(),
{
    if entities.len() == 0 {
        Map::empty()
    } else {
        let known = milestone_entities(entities.drop_last());
        match entities.last().data {
            MemoryEntityDataView::Milestone { milestone_id, .. } => {
                known.insert(milestone_id, entities.last().id)
            },
            _ => known,
        }
    }
}

fn milestones_of(entities: &Vec<MemoryEntity>) -> (milestones: OrderedMap<MemoryEntityId>)
    ensures
        milestones.well_formed(),
        milestones.deep_view() == milestone_entities(entities.deep_view()),
{
    let ghost models = entities.deep_view();
    let mut milestones: OrderedMap<MemoryEntityId> = OrderedMap::new();
    let mut at: usize = 0;
    assert(models.take(0) =~= Seq::empty());
    while at < entities.len()
        invariant
            at <= entities.len(),
            models == entities.deep_view(),
            milestones.well_formed(),
            milestones.deep_view() == milestone_entities(models.take(at as int)),
        decreases entities.len() - at,
    {
        let entity = &entities[at];
        assert(models.take(at + 1).drop_last() =~= models.take(at as int));
        assert(models.take(at + 1).last() == entity.deep_view());
        if let MemoryEntityData::Milestone { milestone_id, .. } = &entity.data {
            milestones.insert(milestone_id.as_str().to_owned(), entity.id.copied());
        }
        at += 1;
    }
    assert(models.take(at as int) =~= models);
    milestones
}

/// The key of a link's identity.
pub open spec fn link_key(
    source: Seq<char>,
    kind: MemoryRelationshipKind,
    reference: ExplicitRepositoryReferenceView,
) -> Seq<char> {
    json_array(
        seq![
            json_string("repository-link"@),
            json_string(source),
            <MemoryRelationshipKind as ToJson>::json(kind),
            <ExplicitRepositoryReference as ToJson>::json(reference),
        ],
    )
}

/// A link before its target is looked up.
pub open spec fn candidate(
    project: ProjectRefView,
    source: Seq<char>,
    kind: MemoryRelationshipKind,
    reference: ExplicitRepositoryReferenceView,
    origin_snapshot_id: Option<Seq<char>>,
    provenance: MemoryProvenanceView,
) -> LinkCandidateView {
    LinkCandidateView {
        id: relationship_identity(project, link_key(source, kind, reference)),
        source,
        kind,
        reference,
        origin_snapshot_id,
        provenance,
    }
}

/// The candidates with one more, unless there are too many or its link is among them.
pub open spec fn with_candidate(
    candidates: Map<Seq<char>, LinkCandidateView>,
    candidate: LinkCandidateView,
) -> Map<Seq<char>, LinkCandidateView> {
    if candidates.dom().len() > MAX_REPOSITORY_LINKS || candidates.contains_key(candidate.id) {
        candidates
    } else {
        candidates.insert(candidate.id, candidate)
    }
}

/// The candidates that are kept of those proposed: the first one for each link, as long as there
/// are not too many.
pub open spec fn collected(proposed: Seq<LinkCandidateView>) -> Map<Seq<char>, LinkCandidateView>
    decreases proposed.len(),
{
    if proposed.len() == 0 {
        Map::empty()
    } else {
        with_candidate(collected(proposed.drop_last()), proposed.last())
    }
}

fn insert_candidate(
    candidates: &mut OrderedMap<LinkCandidate>,
    project: &ProjectRef,
    source: &MemoryEntityId,
    kind: MemoryRelationshipKind,
    reference: ExplicitRepositoryReference,
    origin_snapshot_id: Option<SnapshotId>,
    provenance: MemoryProvenance,
    proposed: Ghost<Seq<LinkCandidateView>>,
)
    requires
        old(candidates).well_formed(),
        old(candidates).deep_view() == collected(proposed@),
    ensures
        final(candidates).well_formed(),
        final(candidates).deep_view() == collected(
            proposed@.push(
                candidate(
                    project.deep_view(),
                    source.deep_view(),
                    kind,
                    reference.deep_view(),
                    origin_snapshot_id.deep_view(),
                    provenance.deep_view(),
                ),
            ),
        ),
{
    let ghost added = candidate(
        project.deep_view(),
        source.deep_view(),
        kind,
        reference.deep_view(),
        origin_snapshot_id.deep_view(),
        provenance.deep_view(),
    );
    assert(proposed@.push(added).drop_last() =~= proposed@);
    if candidates.len() > MAX_REPOSITORY_LINKS {
        return ;
    }
    let key = JsonArray::new().item(text_json("repository-link")).item(source.to_json()).item(
        kind.to_json(),
    ).item(reference.to_json());
    assert(key.items() =~= seq![
        json_string("repository-link"@),
        json_string(source.deep_view()),
        <MemoryRelationshipKind as ToJson>::json(kind),
        <ExplicitRepositoryReference as ToJson>::json(reference.deep_view()),
    ]);
    let id = relationship_id(project, key.finish());
    let name = id.as_str().to_owned();
    let candidate = LinkCandidate {
        id,
        source: source.copied(),
        kind,
        reference,
        origin_snapshot_id,
        provenance,
    };
    assert(candidate.deep_view() == added);
    candidates.or_insert(name, candidate);
}

/// The link to the file that an entity was read from.
pub open spec fn tracked_proposals(
    project: ProjectRefView,
    entity: MemoryEntityView,
) -> Seq<LinkCandidateView> {
    match entity.provenance.source_locator {
        MemorySourceLocatorView::TrackedFile { path } => seq![
            candidate(
                project,
                entity.id,
                MemoryRelationshipKind::Concerns,
                ExplicitRepositoryReferenceView::Path(path),
                None,
                entity.provenance,
            ),
        ],
        _ => Seq::empty(),
    }
}

/// The link to the specification that an archive holds.
pub open spec fn archive_proposals(
    project: ProjectRefView,
    entity: MemoryEntityView,
) -> Seq<LinkCandidateView> {
    match entity.data {
        MemoryEntityDataView::ArchiveReference { spec_path, .. } => seq![
            candidate(
                project,
                entity.id,
                MemoryRelationshipKind::Concerns,
                ExplicitRepositoryReferenceView::Path(spec_path),
                None,
                entity.provenance,
            ),
        ],
        _ => Seq::empty(),
    }
}

/// The links to what an entity's text names.
pub open spec fn text_proposals(
    project: ProjectRefView,
    entity: MemoryEntityView,
) -> Seq<LinkCandidateView> {
    match curated(entity.data) {
        Some(text) => references(text).map_values(
            |reference: ExplicitRepositoryReferenceView|
                candidate(
                    project,
                    entity.id,
                    MemoryRelationshipKind::Touches,
                    reference,
                    None,
                    entity.provenance,
                ),
        ),
        None => Seq::empty(),
    }
}

/// The link from an entity to a file that it changed.
pub open spec fn change_proposal(
    project: ProjectRefView,
    source: Seq<char>,
    provenance: MemoryProvenanceView,
    changed: ChangedPathView,
) -> LinkCandidateView {
    candidate(
        project,
        source,
        MemoryRelationshipKind::Touches,
        ExplicitRepositoryReferenceView::Path(changed.path),
        Some(changed.origin_snapshot_id),
        provenance,
    )
}

/// The links to the files that a task changed: from the task, and from its milestone.
pub open spec fn task_proposals(
    project: ProjectRefView,
    entity: MemoryEntityView,
    task_id: Seq<char>,
    milestone: Option<Seq<char>>,
    changed: Seq<ChangedPathView>,
) -> Seq<LinkCandidateView>
    decreases changed.len(),
{
    if changed.len() == 0 {
        Seq::empty()
    } else {
        let before = task_proposals(project, entity, task_id, milestone, changed.drop_last());
        let own = before.push(change_proposal(project, entity.id, entity.provenance, changed.last()));
        match milestone {
            Some(milestone) => own.push(
                change_proposal(project, milestone, task_evidence(entity.provenance, task_id), changed.last()),
            ),
            None => own,
        }
    }
}

/// A task's provenance with the task itself as evidence.
pub open spec fn task_evidence(
    provenance: MemoryProvenanceView,
    task_id: Seq<char>,
) -> MemoryProvenanceView {
    MemoryProvenanceView { evidence: MemoryEvidenceLocatorView::Record(task_id), ..provenance }
}

/// The entity of a task's milestone, where both are known.
pub open spec fn milestone_entity(
    milestone_id: Option<Seq<char>>,
    milestones: Map<Seq<char>, Seq<char>>,
) -> Option<Seq<char>> {
    match milestone_id {
        Some(id) => if milestones.contains_key(id) {
            Some(milestones[id])
        } else {
            None
        },
        None => None,
    }
}

/// The changes that are known, or none.
pub open spec fn known_changes(changed: Option<Seq<ChangedPathView>>) -> Seq<ChangedPathView> {
    match changed {
        Some(changed) => changed,
        None => Seq::empty(),
    }
}

/// The links to the files that an entity changed.
pub open spec fn change_proposals(
    project: ProjectRefView,
    entity: MemoryEntityView,
    milestones: Map<Seq<char>, Seq<char>>,
    snapshots: Map<Seq<char>, Map<Seq<char>, DigestView>>,
) -> Seq<LinkCandidateView> {
    match entity.data {
        MemoryEntityDataView::TaskReference {
            task_id,
            milestone_id,
            status,
            baseline_snapshot_id,
            repository_snapshot_id,
        } => task_proposals(
            project,
            entity,
            task_id,
            milestone_entity(milestone_id, milestones),
            known_changes(changes(baseline_snapshot_id, repository_snapshot_id, snapshots)),
        ),
        MemoryEntityDataView::RunReference { baseline_snapshot_id, repository_snapshot_id, .. } => known_changes(
            changes(baseline_snapshot_id, repository_snapshot_id, snapshots),
        ).map_values(
            |changed: ChangedPathView| change_proposal(project, entity.id, entity.provenance, changed),
        ),
        _ => Seq::empty(),
    }
}

/// The links that an entity proposes.
pub open spec fn entity_proposals(
    project: ProjectRefView,
    entity: MemoryEntityView,
    milestones: Map<Seq<char>, Seq<char>>,
    snapshots: Map<Seq<char>, Map<Seq<char>, DigestView>>,
) -> Seq<LinkCandidateView> {
    tracked_proposals(project, entity) + archive_proposals(project, entity) + text_proposals(project, entity)
        + change_proposals(project, entity, milestones, snapshots)
}

/// The links that the entities propose, entity by entity.
pub open spec fn proposals(
    project: ProjectRefView,
    entities: Seq<MemoryEntityView>,
    milestones: Map<Seq<char>, Seq<char>>,
    snapshots: Map<Seq<char>, Map<Seq<char>, DigestView>>,
) -> Seq<LinkCandidateView>
    decreases entities.len(),
{
    if entities.len() == 0 {
        Seq::empty()
    } else {
        proposals(project, entities.drop_last(), milestones, snapshots) + entity_proposals(
            project,
            entities.last(),
            milestones,
            snapshots,
        )
    }
}

/// A diagnostic of the resolution.
pub open spec fn link_diagnostic(
    revision: MemoryRevisionView,
    code: Seq<char>,
    entity_id: Option<Seq<char>>,
    relationship_id: Option<Seq<char>>,
) -> MemoryDiagnosticView {
    MemoryDiagnosticView {
        build_id: revision.completed_by,
        revision_id: revision.id,
        severity: MemoryDiagnosticSeverity::Warning,
        code,
        source_category: None,
        entity_id,
        relationship_id,
        metrics: no_metrics_model(),
    }
}

/// The diagnostics that are kept: the first ones.
pub open spec fn kept_diagnostics(
    diagnostics: Seq<MemoryDiagnosticView>,
) -> Seq<MemoryDiagnosticView> {
    if diagnostics.len() <= MAX_LINK_DIAGNOSTICS {
        diagnostics
    } else {
        diagnostics.take(MAX_LINK_DIAGNOSTICS as int)
    }
}

fn push_diagnostic(
    diagnostics: &mut Vec<MemoryDiagnostic>,
    revision: &MemoryRevision,
    code: MemoryDiagnosticCode,
    entity_id: Option<MemoryEntityId>,
    relationship_id: Option<MemoryRelationshipId>,
    noticed: Ghost<Seq<MemoryDiagnosticView>>,
)
    requires
        old(diagnostics).deep_view() == kept_diagnostics(noticed@),
    ensures
        final(diagnostics).deep_view() == kept_diagnostics(
            noticed@.push(
                link_diagnostic(
                    revision.deep_view(),
                    code.deep_view(),
                    entity_id.deep_view(),
                    relationship_id.deep_view(),
                ),
            ),
        ),
{
    let ghost before = diagnostics.deep_view();
    let ghost added = link_diagnostic(
        revision.deep_view(),
        code.deep_view(),
        entity_id.deep_view(),
        relationship_id.deep_view(),
    );
    if diagnostics.len() >= MAX_LINK_DIAGNOSTICS {
        assert(kept_diagnostics(noticed@.push(added)) =~= before);
        return ;
    }
    diagnostics.push(
        MemoryDiagnostic {
            build_id: revision.completed_by.copied(),
            revision_id: revision.id.copied(),
            severity: MemoryDiagnosticSeverity::Warning,
            code,
            source_category: None,
            entity_id,
            relationship_id,
            metrics: no_metrics(),
        },
    );
    assert(diagnostics.deep_view() =~= before.push(added));
    assert(kept_diagnostics(noticed@.push(added)) =~= before.push(added));
}

/// What is noticed of an entity: that its changes are not known though their snapshots are named.
pub open spec fn origin_diagnostics(
    revision: MemoryRevisionView,
    entity: MemoryEntityView,
    snapshots: Map<Seq<char>, Map<Seq<char>, DigestView>>,
) -> Seq<MemoryDiagnosticView> {
    match entity.data {
        MemoryEntityDataView::TaskReference { baseline_snapshot_id, repository_snapshot_id, .. } =>
            if baseline_snapshot_id is Some && repository_snapshot_id is Some && changes(
                baseline_snapshot_id,
                repository_snapshot_id,
                snapshots,
            ) is None {
                seq![link_diagnostic(revision, "link.taskorigin.unavailable"@, Some(entity.id), None)]
            } else {
                Seq::empty()
            },
        _ => Seq::empty(),
    }
}

/// What is noticed of the entities, entity by entity.
pub open spec fn all_origin_diagnostics(
    revision: MemoryRevisionView,
    entities: Seq<MemoryEntityView>,
    snapshots: Map<Seq<char>, Map<Seq<char>, DigestView>>,
) -> Seq<MemoryDiagnosticView>
    decreases entities.len(),
{
    if entities.len() == 0 {
        Seq::empty()
    } else {
        all_origin_diagnostics(revision, entities.drop_last(), snapshots) + origin_diagnostics(
            revision,
            entities.last(),
            snapshots,
        )
    }
}

/// Candidates being collected.
pub struct LinkCandidates {
    pub candidates: OrderedMap<LinkCandidate>,
    pub diagnostics: Vec<MemoryDiagnostic>,
}

fn propose_changes(
    set: &mut LinkCandidates,
    revision: &MemoryRevision,
    entity: &MemoryEntity,
    milestones: &OrderedMap<MemoryEntityId>,
    snapshots: &SnapshotFiles,
    proposed: Ghost<Seq<LinkCandidateView>>,
    noticed: Ghost<Seq<MemoryDiagnosticView>>,
)
    requires
        snapshots.well_formed(),
        milestones.well_formed(),
        old(set).candidates.well_formed(),
        old(set).candidates.deep_view() == collected(proposed@),
        old(set).diagnostics.deep_view() == kept_diagnostics(noticed@),
    ensures
        final(set).candidates.well_formed(),
        final(set).candidates.deep_view() == collected(
            proposed@ + change_proposals(
                revision.deep_view().project,
                entity.deep_view(),
                milestones.deep_view(),
                snapshots.model(),
            ),
        ),
        final(set).diagnostics.deep_view() == kept_diagnostics(
            noticed@ + origin_diagnostics(revision.deep_view(), entity.deep_view(), snapshots.model()),
        ),
{
    let ghost project = revision.deep_view().project;
    let ghost model = entity.deep_view();
    match &entity.data {
        MemoryEntityData::TaskReference {
            task_id,
            milestone_id,
            baseline_snapshot_id,
            repository_snapshot_id,
            ..
        } => {
            let changed = portable_origin_changed_paths(
                baseline_snapshot_id,
                repository_snapshot_id,
                snapshots,
            );
            let unavailable = baseline_snapshot_id.is_some() && repository_snapshot_id.is_some()
                && changed.is_none();
            if unavailable {
                proof {
                    reveal_strlit("link.taskorigin.unavailable");
                }
                push_diagnostic(
                    &mut set.diagnostics,
                    revision,
                    diagnostic_code("link.taskorigin.unavailable"),
                    Some(entity.id.copied()),
                    None,
                    noticed,
                );
                assert(noticed@.push(
                    link_diagnostic(
                        revision.deep_view(),
                        "link.taskorigin.unavailable"@,
                        Some(model.id),
                        None,
                    ),
                ) =~= noticed@ + origin_diagnostics(revision.deep_view(), model, snapshots.model()));
            } else {
                assert(noticed@ =~= noticed@ + origin_diagnostics(
                    revision.deep_view(),
                    model,
                    snapshots.model(),
                ));
            }
            let changed = match changed {
                Some(changed) => changed,
                None => Vec::new(),
            };
            let milestone = match milestone_id {
                Some(id) => milestones.get(id.as_str()),
                None => None,
            };
            let ghost known = known_changes(
                changes(
                    baseline_snapshot_id.deep_view(),
                    repository_snapshot_id.deep_view(),
                    snapshots.model(),
                ),
            );
            let ghost target = milestone_entity(milestone_id.deep_view(), milestones.deep_view());
            assert(changed.deep_view() =~= known);
            let mut at: usize = 0;
            assert(proposed@ + task_proposals(project, model, task_id.deep_view(), target, known.take(0))
                =~= proposed@);
            while at < changed.len()
                invariant
                    at <= changed.len(),
                    changed.deep_view() == known,
                    project == revision.deep_view().project,
                    model == entity.deep_view(),
                    target == match milestone {
                        Some(id) => Some(id.deep_view()),
                        None => None,
                    },
                    set.candidates.well_formed(),
                    set.diagnostics.deep_view() == kept_diagnostics(
                        noticed@ + origin_diagnostics(revision.deep_view(), model, snapshots.model()),
                    ),
                    set.candidates.deep_view() == collected(
                        proposed@ + task_proposals(
                            project,
                            model,
                            task_id.deep_view(),
                            target,
                            known.take(at as int),
                        ),
                    ),
                decreases changed.len() - at,
            {
                let change = &changed[at];
                let ghost base = proposed@ + task_proposals(
                    project,
                    model,
                    task_id.deep_view(),
                    target,
                    known.take(at as int),
                );
                let ghost next = known.take(at + 1);
                assert(next.drop_last() =~= known.take(at as int));
                assert(next.last() == change.deep_view());
                insert_candidate(
                    &mut set.candidates,
                    &revision.project,
                    &entity.id,
                    MemoryRelationshipKind::Touches,
                    ExplicitRepositoryReference::Path(change.path.copied()),
                    Some(change.origin_snapshot_id.copied()),
                    entity.provenance.copied(),
                    Ghost(base),
                );
                let ghost own = base.push(
                    change_proposal(project, model.id, model.provenance, change.deep_view()),
                );
                if let Some(milestone) = milestone {
                    let mut provenance = entity.provenance.copied();
                    provenance.evidence = MemoryEvidenceLocator::Record(task_id.copied());
                    insert_candidate(
                        &mut set.candidates,
                        &revision.project,
                        milestone,
                        MemoryRelationshipKind::Touches,
                        ExplicitRepositoryReference::Path(change.path.copied()),
                        Some(change.origin_snapshot_id.copied()),
                        provenance,
                        Ghost(own),
                    );
                    assert(own.push(
                        change_proposal(
                            project,
                            milestone.deep_view(),
                            task_evidence(model.provenance, task_id.deep_view()),
                            change.deep_view(),
                        ),
                    ) =~= proposed@ + task_proposals(project, model, task_id.deep_view(), target, next));
                } else {
                    assert(own =~= proposed@ + task_proposals(
                        project,
                        model,
                        task_id.deep_view(),
                        target,
                        next,
                    ));
                }
                at += 1;
            }
            assert(known.take(at as int) =~= known);
        },
        MemoryEntityData::RunReference { baseline_snapshot_id, repository_snapshot_id, .. } => {
            let changed = match portable_origin_changed_paths(
                baseline_snapshot_id,
                repository_snapshot_id,
                snapshots,
            ) {
                Some(changed) => changed,
                None => Vec::new(),
            };
            let ghost known = known_changes(
                changes(
                    baseline_snapshot_id.deep_view(),
                    repository_snapshot_id.deep_view(),
                    snapshots.model(),
                ),
            );
            let ghost all = change_proposals(project, model, milestones.deep_view(), snapshots.model());
            assert(changed.deep_view() =~= known);
            let mut at: usize = 0;
            assert(proposed@ + all.take(0) =~= proposed@);
            while at < changed.len()
                invariant
                    at <= changed.len(),
                    changed.deep_view() == known,
                    project == revision.deep_view().project,
                    model == entity.deep_view(),
                    all == known.map_values(
                        |changed: ChangedPathView| change_proposal(project, model.id, model.provenance, changed),
                    ),
                    set.candidates.well_formed(),
                    set.diagnostics.deep_view() == kept_diagnostics(noticed@),
                    set.candidates.deep_view() == collected(proposed@ + all.take(at as int)),
                decreases changed.len() - at,
            {
                let change = &changed[at];
                assert(known[at as int] == change.deep_view());
                insert_candidate(
                    &mut set.candidates,
                    &revision.project,
                    &entity.id,
                    MemoryRelationshipKind::Touches,
                    ExplicitRepositoryReference::Path(change.path.copied()),
                    Some(change.origin_snapshot_id.copied()),
                    entity.provenance.copied(),
                    Ghost(proposed@ + all.take(at as int)),
                );
                assert((proposed@ + all.take(at as int)).push(all[at as int]) =~= proposed@ + all.take(
                    at + 1,
                ));
                at += 1;
            }
            assert(all.take(at as int) =~= all);
            assert(noticed@ =~= noticed@ + origin_diagnostics(
                revision.deep_view(),
                model,
                snapshots.model(),
            ));
        },
        _ => {
            assert(proposed@ =~= proposed@ + change_proposals(
                project,
                model,
                milestones.deep_view(),
                snapshots.model(),
            ));
            assert(noticed@ =~= noticed@ + origin_diagnostics(
                revision.deep_view(),
                model,
                snapshots.model(),
            ));
        },
    }
}

fn propose_own_files(
    candidates: &mut OrderedMap<LinkCandidate>,
    revision: &MemoryRevision,
    entity: &MemoryEntity,
    proposed: Ghost<Seq<LinkCandidateView>>,
)
    requires
        old(candidates).well_formed(),
        old(candidates).deep_view() == collected(proposed@),
    ensures
        final(candidates).well_formed(),
        final(candidates).deep_view() == collected(
            proposed@ + tracked_proposals(revision.deep_view().project, entity.deep_view())
                + archive_proposals(revision.deep_view().project, entity.deep_view()),
        ),
{
    let ghost project = revision.deep_view().project;
    let ghost model = entity.deep_view();
    let ghost mut so_far = proposed@;
    if let MemorySourceLocator::TrackedFile { path } = &entity.provenance.source_locator {
        insert_candidate(
            candidates,
            &revision.project,
            &entity.id,
            MemoryRelationshipKind::Concerns,
            ExplicitRepositoryReference::Path(path.copied()),
            None,
            entity.provenance.copied(),
            Ghost(so_far),
        );
        proof {
            so_far = so_far.push(tracked_proposals(project, model)[0]);
        }
    }
    assert(so_far =~= proposed@ + tracked_proposals(project, model));
    let ghost second = so_far;
    if let MemoryEntityData::ArchiveReference { spec_path, .. } = &entity.data {
        insert_candidate(
            candidates,
            &revision.project,
            &entity.id,
            MemoryRelationshipKind::Concerns,
            ExplicitRepositoryReference::Path(spec_path.copied()),
            None,
            entity.provenance.copied(),
            Ghost(so_far),
        );
        proof {
            so_far = so_far.push(archive_proposals(project, model)[0]);
        }
    }
    assert(so_far =~= second + archive_proposals(project, model));
}

fn propose_references<D: Deadline>(
    candidates: &mut OrderedMap<LinkCandidate>,
    revision: &MemoryRevision,
    entity: &MemoryEntity,
    deadline: &mut D,
    proposed: Ghost<Seq<LinkCandidateView>>,
    start: Ghost<D>,
) -> (result: Result<(), SnapshotLinkResolutionError>)
    requires
        old(candidates).well_formed(),
        old(candidates).deep_view() == collected(proposed@),
        asked_until(start@, *old(deadline), false),
    ensures
        final(candidates).well_formed(),
        asked_until(start@, *final(deadline), result is Err),
        final(deadline).answers().len() >= old(deadline).answers().len(),
        result is Ok ==> final(candidates).deep_view() == collected(
            proposed@ + text_proposals(revision.deep_view().project, entity.deep_view()),
        ),
        result matches Err(error) ==> error == SnapshotLinkResolutionError::DeadlineExceeded,
{
    let ghost project = revision.deep_view().project;
    let ghost model = entity.deep_view();
    let ghost before_scan = *deadline;
    let text = match curated_text(&entity.data) {
        Some(text) => text,
        None => {
            assert(proposed@ + text_proposals(project, model) =~= proposed@);
            return Ok(());
        },
    };
    let found = match explicit_references_until(text, deadline) {
        Ok(found) => found,
        Err(error) => {
            proof {
                asked_chain(start@, before_scan, *deadline, true);
            }
            return Err(error);
        },
    };
    proof {
        asked_chain(start@, before_scan, *deadline, false);
    }
    let ghost all = text_proposals(project, model);
    let ghost named = references(text@);
    let mut place: usize = 0;
    assert(proposed@ + all.take(0) =~= proposed@);
    while place < found.len()
        invariant
            place <= found.len(),
            found.deep_view() == named,
            project == revision.deep_view().project,
            model == entity.deep_view(),
            all == named.map_values(
                |reference: ExplicitRepositoryReferenceView|
                    candidate(
                        project,
                        model.id,
                        MemoryRelationshipKind::Touches,
                        reference,
                        None,
                        model.provenance,
                    ),
            ),
            asked_until(start@, *deadline, false),
            before_scan == *old(deadline),
            deadline.answers().len() >= before_scan.answers().len(),
            candidates.well_formed(),
            candidates.deep_view() == collected(proposed@ + all.take(place as int)),
        decreases found.len() - place,
    {
        if poll(deadline, start) {
            return Err(SnapshotLinkResolutionError::DeadlineExceeded);
        }
        assert(named[place as int] == found@[place as int].deep_view());
        insert_candidate(
            candidates,
            &revision.project,
            &entity.id,
            MemoryRelationshipKind::Touches,
            found[place].copied(),
            None,
            entity.provenance.copied(),
            Ghost(proposed@ + all.take(place as int)),
        );
        assert((proposed@ + all.take(place as int)).push(all[place as int]) =~= proposed@ + all.take(
            place + 1,
        ));
        place += 1;
    }
    assert(all.take(place as int) =~= all);
    Ok(())
}

fn propose_entity<D: Deadline>(
    set: &mut LinkCandidates,
    revision: &MemoryRevision,
    entity: &MemoryEntity,
    milestones: &OrderedMap<MemoryEntityId>,
    snapshots: &SnapshotFiles,
    deadline: &mut D,
    proposed: Ghost<Seq<LinkCandidateView>>,
    noticed: Ghost<Seq<MemoryDiagnosticView>>,
    start: Ghost<D>,
) -> (result: Result<(), SnapshotLinkResolutionError>)
    requires
        snapshots.well_formed(),
        milestones.well_formed(),
        old(set).candidates.well_formed(),
        old(set).candidates.deep_view() == collected(proposed@),
        old(set).diagnostics.deep_view() == kept_diagnostics(noticed@),
        asked_until(start@, *old(deadline), false),
    ensures
        final(set).candidates.well_formed(),
        asked_until(start@, *final(deadline), result is Err),
        final(deadline).answers().len() >= old(deadline).answers().len(),
        result is Ok ==> final(set).candidates.deep_view() == collected(
            proposed@ + entity_proposals(
                revision.deep_view().project,
                entity.deep_view(),
                milestones.deep_view(),
                snapshots.model(),
            ),
        ),
        result is Ok ==> final(set).diagnostics.deep_view() == kept_diagnostics(
            noticed@ + origin_diagnostics(revision.deep_view(), entity.deep_view(), snapshots.model()),
        ),
        result matches Err(error) ==> error == SnapshotLinkResolutionError::DeadlineExceeded,
{
    let ghost project = revision.deep_view().project;
    let ghost model = entity.deep_view();
    propose_own_files(&mut set.candidates, revision, entity, proposed);
    let ghost second = proposed@ + tracked_proposals(project, model) + archive_proposals(project, model);
    if let Err(error) = propose_references(
        &mut set.candidates,
        revision,
        entity,
        deadline,
        Ghost(second),
        start,
    ) {
        return Err(error);
    }
    let ghost third = second + text_proposals(project, model);
    propose_changes(set, revision, entity, milestones, snapshots, Ghost(third), noticed);
    assert(third + change_proposals(project, model, milestones.deep_view(), snapshots.model())
        =~= proposed@ + entity_proposals(project, model, milestones.deep_view(), snapshots.model()));
    Ok(())
}

/// The links that the entities propose, as far as they are kept, with what is noticed on the way.
/// The deadline is asked about before each entity and before each reference of its text.
pub fn collect_candidates<D: Deadline>(
    revision: &MemoryRevision,
    entities: &Vec<MemoryEntity>,
    snapshots: &SnapshotFiles,
    deadline: &mut D,
) -> (result: Result<LinkCandidates, SnapshotLinkResolutionError>)
    requires
        snapshots.well_formed(),
    ensures
        asked_until(*old(deadline), *final(deadline), result is Err),
        match result {
            Ok(set) => {
                &&& set.candidates.well_formed()
                &&& set.candidates.deep_view() == collected(
                    proposals(
                        revision.deep_view().project,
                        entities.deep_view(),
                        milestone_entities(entities.deep_view()),
                        snapshots.model(),
                    ),
                )
                &&& set.diagnostics.deep_view() == kept_diagnostics(
                    all_origin_diagnostics(revision.deep_view(), entities.deep_view(), snapshots.model()),
                )
                &&& final(deadline).answers().len() >= old(deadline).answers().len() + entities.len()
            },
            Err(error) => error == SnapshotLinkResolutionError::DeadlineExceeded,
        },
{
    let ghost start = *deadline;
    let ghost models = entities.deep_view();
    let ghost project = revision.deep_view().project;
    let milestones = milestones_of(entities);
    let ghost known = milestones.deep_view();
    let mut set = LinkCandidates { candidates: OrderedMap::new(), diagnostics: Vec::new() };
    let mut at: usize = 0;
    proof {
        assert(models.take(0) =~= Seq::empty());
        assert(set.diagnostics.deep_view() =~= Seq::empty());
    }
    while at < entities.len()
        invariant
            at <= entities.len(),
            models == entities.deep_view(),
            project == revision.deep_view().project,
            snapshots.well_formed(),
            milestones.well_formed(),
            known == milestones.deep_view(),
            start == *old(deadline),
            asked_until(start, *deadline, false),
            deadline.answers().len() >= start.answers().len() + at,
            set.candidates.well_formed(),
            set.candidates.deep_view() == collected(
                proposals(project, models.take(at as int), known, snapshots.model()),
            ),
            set.diagnostics.deep_view() == kept_diagnostics(
                all_origin_diagnostics(revision.deep_view(), models.take(at as int), snapshots.model()),
            ),
        decreases entities.len() - at,
    {
        if poll(deadline, Ghost(start)) {
            return Err(SnapshotLinkResolutionError::DeadlineExceeded);
        }
        let entity = &entities[at];
        let ghost next = models.take(at + 1);
        assert(next.drop_last() =~= models.take(at as int));
        assert(next.last() == entity.deep_view());
        if let Err(error) = propose_entity(
            &mut set,
            revision,
            entity,
            &milestones,
            snapshots,
            deadline,
            Ghost(proposals(project, models.take(at as int), known, snapshots.model())),
            Ghost(all_origin_diagnostics(revision.deep_view(), models.take(at as int), snapshots.model())),
            Ghost(start),
        ) {
            return Err(error);
        }
        at += 1;
    }
    assert(models.take(at as int) =~= models);
    Ok(set)
}

/// Where a link points, and whether that was found.
pub struct LinkTargetView {
    pub target: MemoryRelationshipTargetView,
    pub resolution: MemoryResolutionState,
}

struct LinkTarget {
    target: MemoryRelationshipTarget,
    resolution: MemoryResolutionState,
}

impl LinkTarget {
    spec fn model(self) -> LinkTargetView {
        LinkTargetView { target: self.target.deep_view(), resolution: self.resolution }
    }
}

/// A link to a file as it is in a snapshot.
pub open spec fn path_target(
    repository: RepositoryRefView,
    path: Seq<char>,
    snapshot_id: Option<Seq<char>>,
    resolution: MemoryResolutionState,
) -> LinkTargetView {
    LinkTargetView {
        target: MemoryRelationshipTargetView::RepositoryPath { repository, path, snapshot_id },
        resolution,
    }
}

/// A link to the one node of a snapshot that has a key.
pub open spec fn node_target(
    repository: RepositoryRefView,
    snapshot_id: Seq<char>,
    node_id: Seq<char>,
    semantic_key: Seq<char>,
    resolution: MemoryResolutionState,
) -> LinkTargetView {
    LinkTargetView {
        target: MemoryRelationshipTargetView::RepositoryNode {
            repository,
            snapshot_id,
            node_id,
            semantic_key: Some(semantic_key),
        },
        resolution,
    }
}

/// A link to a symbol whose node is not known.
pub open spec fn symbol_target(
    repository: RepositoryRefView,
    semantic_key: Seq<char>,
    snapshot_id: Option<Seq<char>>,
) -> LinkTargetView {
    LinkTargetView {
        target: MemoryRelationshipTargetView::RepositorySymbol { repository, semantic_key, snapshot_id },
        resolution: MemoryResolutionState::Unresolved,
    }
}

fn path_link(
    repository: &RepositoryRef,
    path: &RepoPath,
    snapshot_id: Option<SnapshotId>,
    resolution: MemoryResolutionState,
) -> (link: LinkTarget)
    ensures
        link.model() == path_target(
            repository.deep_view(),
            path.deep_view(),
            snapshot_id.deep_view(),
            resolution,
        ),
{
    LinkTarget {
        target: MemoryRelationshipTarget::RepositoryPath {
            repository: repository.copied(),
            path: path.copied(),
            snapshot_id,
        },
        resolution,
    }
}

fn node_link(
    repository: &RepositoryRef,
    snapshot_id: &SnapshotId,
    node_id: &NodeId,
    semantic_key: &SemanticKey,
    resolution: MemoryResolutionState,
) -> (link: LinkTarget)
    ensures
        link.model() == node_target(
            repository.deep_view(),
            snapshot_id.deep_view(),
            node_id.deep_view(),
            semantic_key.deep_view(),
            resolution,
        ),
{
    LinkTarget {
        target: MemoryRelationshipTarget::RepositoryNode {
            repository: repository.copied(),
            snapshot_id: snapshot_id.copied(),
            node_id: node_id.copied(),
            semantic_key: Some(semantic_key.copied()),
        },
        resolution,
    }
}

fn symbol_link(
    repository: &RepositoryRef,
    semantic_key: &SemanticKey,
    snapshot_id: Option<SnapshotId>,
) -> (link: LinkTarget)
    ensures
        link.model() == symbol_target(
            repository.deep_view(),
            semantic_key.deep_view(),
            snapshot_id.deep_view(),
        ),
{
    LinkTarget {
        target: MemoryRelationshipTarget::RepositorySymbol {
            repository: repository.copied(),
            semantic_key: semantic_key.copied(),
            snapshot_id,
        },
        resolution: MemoryResolutionState::Unresolved,
    }
}

/// The relationship that a candidate becomes.
pub open spec fn linked(
    revision: MemoryRevisionView,
    candidate: LinkCandidateView,
    link: LinkTargetView,
    indexed_at: Seq<char>,
) -> MemoryRelationshipView {
    MemoryRelationshipView {
        project: revision.project,
        memory_revision_id: revision.id,
        id: candidate.id,
        kind: candidate.kind,
        source: candidate.source,
        target: link.target,
        provenance: MemoryProvenanceView {
            extractor: resolver_model(),
            resolution: link.resolution,
            confidence: MemoryConfidence::Exact,
            timestamps: MemoryIndexTimestampsView {
                source_observed_at: candidate.provenance.timestamps.source_observed_at,
                indexed_at,
            },
            ..candidate.provenance
        },
    }
}

fn link_candidate(
    revision: &MemoryRevision,
    candidate: &LinkCandidate,
    link: LinkTarget,
    indexed_at: &str,
) -> (relationship: MemoryRelationship)
    ensures
        relationship.deep_view() == linked(
            revision.deep_view(),
            candidate.deep_view(),
            link.model(),
            indexed_at@,
        ),
{
    let mut provenance = candidate.provenance.copied();
    provenance.extractor = resolver_identity();
    provenance.resolution = link.resolution;
    provenance.confidence = MemoryConfidence::Exact;
    provenance.timestamps = MemoryIndexTimestamps {
        source_observed_at: candidate.provenance.timestamps.source_observed_at.clone(),
        indexed_at: indexed_at.to_owned(),
    };
    MemoryRelationship {
        project: revision.project.copied(),
        memory_revision_id: revision.id.copied(),
        id: candidate.id.copied(),
        kind: candidate.kind,
        source: candidate.source.copied(),
        target: link.target,
        provenance,
    }
}

/// The nodes that have a key, in order.
pub open spec fn nodes_with_key(nodes: Seq<GraphNodeView>, key: Seq<char>) -> Seq<Seq<char>>
    decreases nodes.len(),
{
    if nodes.len() == 0 {
        Seq::empty()
    } else {
        let before = nodes_with_key(nodes.drop_last(), key);
        if nodes.last().semantic_key == Some(key) {
            before.push(nodes.last().id)
        } else {
            before
        }
    }
}

/// Where a candidate points, given the current snapshot and those that changes came from.
pub open spec fn snapshot_target(
    candidate: LinkCandidateView,
    repository: RepositoryRefView,
    snapshot_id: Seq<char>,
    nodes: Seq<GraphNodeView>,
    snapshots: Map<Seq<char>, Map<Seq<char>, DigestView>>,
) -> LinkTargetView {
    match candidate.reference {
        ExplicitRepositoryReferenceView::Path(path) => {
            if file_map(nodes).contains_key(path) {
                path_target(repository, path, Some(snapshot_id), MemoryResolutionState::Resolved)
            } else if candidate.origin_snapshot_id is Some && snapshots.contains_key(
                candidate.origin_snapshot_id->0,
            ) && snapshots[candidate.origin_snapshot_id->0].contains_key(path) {
                path_target(repository, path, candidate.origin_snapshot_id, MemoryResolutionState::Stale)
            } else {
                path_target(repository, path, None, MemoryResolutionState::Unresolved)
            }
        },
        ExplicitRepositoryReferenceView::Symbol(key) => {
            let matches = nodes_with_key(nodes, key);
            if matches.len() == 1 {
                node_target(repository, snapshot_id, matches[0], key, MemoryResolutionState::Resolved)
            } else {
                symbol_target(repository, key, None)
            }
        },
    }
}

/// The one node that has a key, where there is exactly one.
fn single_node<'a>(nodes: &'a Vec<GraphNode>, key: &SemanticKey) -> (found: Option<&'a NodeId>)
    ensures
        found is Some == (nodes_with_key(nodes.deep_view(), key.deep_view()).len() == 1),
        found matches Some(id) ==> id.deep_view() == nodes_with_key(nodes.deep_view(), key.deep_view())[0],
{
    let ghost models = nodes.deep_view();
    let ghost name = key.deep_view();
    let mut found: Option<&NodeId> = None;
    let mut many = false;
    let mut at: usize = 0;
    assert(models.take(0) =~= Seq::empty());
    while at < nodes.len()
        invariant
            at <= nodes.len(),
            models == nodes.deep_view(),
            name == key.deep_view(),
            many == (nodes_with_key(models.take(at as int), name).len() > 1),
            found is None ==> nodes_with_key(models.take(at as int), name).len() == 0,
            found matches Some(id) ==> nodes_with_key(models.take(at as int), name).len() > 0
                && nodes_with_key(models.take(at as int), name)[0] == id.deep_view(),
        decreases nodes.len() - at,
    {
        let node = &nodes[at];
        assert(models.take(at + 1).drop_last() =~= models.take(at as int));
        assert(models.take(at + 1).last() == node.deep_view());
        if let Some(own) = &node.semantic_key {
            if own.same(key) {
                if found.is_some() {
                    many = true;
                } else {
                    found = Some(&node.id);
                }
            }
        }
        at += 1;
    }
    assert(models.take(at as int) =~= models);
    if many {
        None
    } else {
        found
    }
}

fn resolve_against_snapshot(
    candidate: &LinkCandidate,
    repository: &RepositoryRef,
    snapshot_id: &SnapshotId,
    nodes: &Vec<GraphNode>,
    current_files: &OrderedMap<Digest>,
    snapshots: &SnapshotFiles,
) -> (link: LinkTarget)
    requires
        snapshots.well_formed(),
        current_files.well_formed(),
        current_files.deep_view() == file_map(nodes.deep_view()),
    ensures
        link.model() == snapshot_target(
            candidate.deep_view(),
            repository.deep_view(),
            snapshot_id.deep_view(),
            nodes.deep_view(),
            snapshots.model(),
        ),
{
    match &candidate.reference {
        ExplicitRepositoryReference::Path(path) => {
            if current_files.contains(path.as_str()) {
                return path_link(
                    repository,
                    path,
                    Some(snapshot_id.copied()),
                    MemoryResolutionState::Resolved,
                );
            }
            if let Some(origin) = &candidate.origin_snapshot_id {
                if let Some(files) = snapshots.get(origin) {
                    if files.contains(path.as_str()) {
                        return path_link(
                            repository,
                            path,
                            Some(origin.copied()),
                            MemoryResolutionState::Stale,
                        );
                    }
                }
            }
            path_link(repository, path, None, MemoryResolutionState::Unresolved)
        },
        ExplicitRepositoryReference::Symbol(key) => match single_node(nodes, key) {
            Some(node_id) => node_link(
                repository,
                snapshot_id,
                node_id,
                key,
                MemoryResolutionState::Resolved,
            ),
            None => symbol_link(repository, key, None),
        },
    }
}

/// The files of the current snapshot and of those that changes came from.
pub open spec fn known_snapshots(
    current: RepositoryLinkSnapshotView,
    origins: Seq<RepositoryLinkSnapshotView>,
) -> Map<Seq<char>, Map<Seq<char>, DigestView>>
    decreases origins.len(),
{
    if origins.len() == 0 {
        Map::empty().insert(current.snapshot_id, file_map(current.nodes))
    } else {
        known_snapshots(current, origins.drop_last()).insert(
            origins.last().snapshot_id,
            file_map(origins.last().nodes),
        )
    }
}

/// Whether every snapshot is valid and each is there once.
pub open spec fn are_valid_snapshots(
    current: RepositoryLinkSnapshotView,
    origins: Seq<RepositoryLinkSnapshotView>,
) -> bool
    decreases origins.len(),
{
    if origins.len() == 0 {
        is_valid_snapshot(current.snapshot_id, current.nodes)
    } else {
        &&& are_valid_snapshots(current, origins.drop_last())
        &&& is_valid_snapshot(origins.last().snapshot_id, origins.last().nodes)
        &&& !known_snapshots(current, origins.drop_last()).contains_key(origins.last().snapshot_id)
    }
}

proof fn first_snapshots_are_valid(
    current: RepositoryLinkSnapshotView,
    origins: Seq<RepositoryLinkSnapshotView>,
    count: int,
)
    requires
        0 <= count <= origins.len(),
        are_valid_snapshots(current, origins),
    ensures
        are_valid_snapshots(current, origins.take(count)),
    decreases origins.len(),
{
    if count < origins.len() {
        first_snapshots_are_valid(current, origins.drop_last(), count);
        assert(origins.drop_last().take(count) =~= origins.take(count));
    } else {
        assert(origins.take(count) =~= origins);
    }
}

/// The links that are kept: in the order of their identities, not too many.
pub open spec fn kept_candidates(
    candidates: Map<Seq<char>, LinkCandidateView>,
) -> Seq<LinkCandidateView> {
    let ordered = values_in_order(candidates);
    if ordered.len() <= MAX_REPOSITORY_LINKS {
        ordered
    } else {
        ordered.take(MAX_REPOSITORY_LINKS as int)
    }
}

/// What is noticed when there are more links than are kept.
pub open spec fn limit_diagnostics(
    revision: MemoryRevisionView,
    candidates: Map<Seq<char>, LinkCandidateView>,
) -> Seq<MemoryDiagnosticView> {
    if candidates.dom().len() > MAX_REPOSITORY_LINKS {
        seq![link_diagnostic(revision, "link.limit"@, None, None)]
    } else {
        Seq::empty()
    }
}

/// What is noticed of a link: that it is stale, or not resolved.
pub open spec fn link_state_diagnostics(
    revision: MemoryRevisionView,
    relationship: MemoryRelationshipView,
) -> Seq<MemoryDiagnosticView> {
    match relationship.provenance.resolution {
        MemoryResolutionState::Resolved => Seq::empty(),
        MemoryResolutionState::Stale => seq![
            link_diagnostic(
                revision,
                "link.stale"@,
                Some(relationship.source),
                Some(relationship.id),
            ),
        ],
        MemoryResolutionState::Unresolved => seq![
            link_diagnostic(
                revision,
                "link.unresolved"@,
                Some(relationship.source),
                Some(relationship.id),
            ),
        ],
    }
}

/// What is noticed of the links, link by link.
pub open spec fn all_link_state_diagnostics(
    revision: MemoryRevisionView,
    relationships: Seq<MemoryRelationshipView>,
) -> Seq<MemoryDiagnosticView>
    decreases relationships.len(),
{
    if relationships.len() == 0 {
        Seq::empty()
    } else {
        all_link_state_diagnostics(revision, relationships.drop_last()) + link_state_diagnostics(
            revision,
            relationships.last(),
        )
    }
}

/// What is noticed of the links that are not resolved, link by link; stale ones are passed over.
pub open spec fn unresolved_diagnostics(
    revision: MemoryRevisionView,
    relationships: Seq<MemoryRelationshipView>,
) -> Seq<MemoryDiagnosticView>
    decreases relationships.len(),
{
    if relationships.len() == 0 {
        Seq::empty()
    } else {
        let before = unresolved_diagnostics(revision, relationships.drop_last());
        if relationships.last().provenance.resolution == MemoryResolutionState::Unresolved {
            before + link_state_diagnostics(revision, relationships.last())
        } else {
            before
        }
    }
}

fn push_link_state(
    diagnostics: &mut Vec<MemoryDiagnostic>,
    revision: &MemoryRevision,
    relationship: &MemoryRelationship,
    noticed: Ghost<Seq<MemoryDiagnosticView>>,
)
    requires
        old(diagnostics).deep_view() == kept_diagnostics(noticed@),
    ensures
        final(diagnostics).deep_view() == kept_diagnostics(
            noticed@ + link_state_diagnostics(revision.deep_view(), relationship.deep_view()),
        ),
{
    proof {
        reveal_strlit("link.stale");
        reveal_strlit("link.unresolved");
    }
    let code = match relationship.provenance.resolution {
        MemoryResolutionState::Resolved => {
            assert(noticed@ =~= noticed@ + link_state_diagnostics(
                revision.deep_view(),
                relationship.deep_view(),
            ));
            return ;
        },
        MemoryResolutionState::Stale => diagnostic_code("link.stale"),
        MemoryResolutionState::Unresolved => diagnostic_code("link.unresolved"),
    };
    let ghost added = link_diagnostic(
        revision.deep_view(),
        code.deep_view(),
        Some(relationship.deep_view().source),
        Some(relationship.deep_view().id),
    );
    push_diagnostic(
        diagnostics,
        revision,
        code,
        Some(relationship.source.copied()),
        Some(relationship.id.copied()),
        noticed,
    );
    assert(noticed@.push(added) =~= noticed@ + link_state_diagnostics(
        revision.deep_view(),
        relationship.deep_view(),
    ));
}

/// The links of a revision into the current snapshot.
pub open spec fn snapshot_links(
    revision: MemoryRevisionView,
    entities: Seq<MemoryEntityView>,
    snapshots: RepositoryLinkSnapshotSetView,
    indexed_at: Seq<char>,
) -> Seq<MemoryRelationshipView> {
    let files = known_snapshots(snapshots.current, snapshots.origins);
    let candidates = collected(
        proposals(revision.project, entities, milestone_entities(entities), files),
    );
    kept_candidates(candidates).map_values(
        |candidate: LinkCandidateView|
            linked(
                revision,
                candidate,
                snapshot_target(
                    candidate,
                    snapshots.repository,
                    snapshots.current.snapshot_id,
                    snapshots.current.nodes,
                    files,
                ),
                indexed_at,
            ),
    )
}

/// The links of a revision into the current snapshot, as a set of their own.
pub open spec fn snapshot_link_commit(
    revision: MemoryRevisionView,
    entities: Seq<MemoryEntityView>,
    snapshots: RepositoryLinkSnapshotSetView,
    indexed_at: Seq<char>,
) -> MemoryRepositoryLinkCommitView {
    let files = known_snapshots(snapshots.current, snapshots.origins);
    let candidates = collected(
        proposals(revision.project, entities, milestone_entities(entities), files),
    );
    let relationships = snapshot_links(revision, entities, snapshots, indexed_at);
    MemoryRepositoryLinkCommitView {
        link_set: MemoryRepositoryLinkSetView {
            id: link_set_identity(
                revision,
                snapshots.repository,
                Some(snapshots.current.snapshot_id),
                in_order(all_origin_snapshots(entities).to_set()),
                |origin: Seq<char>| files.contains_key(origin),
            ),
            project: revision.project,
            memory_revision_id: revision.id,
            repository: snapshots.repository,
            repository_snapshot_id: Some(snapshots.current.snapshot_id),
            resolver: resolver_model(),
        },
        relationships,
        diagnostics: kept_diagnostics(
            all_origin_diagnostics(revision, entities, files) + limit_diagnostics(revision, candidates)
                + unresolved_diagnostics(revision, relationships),
        ),
    }
}

fn index_snapshots<D: Deadline>(
    snapshots: &RepositoryLinkSnapshotSet,
    deadline: &mut D,
) -> (result: Result<SnapshotFiles, SnapshotLinkResolutionError>)
    ensures
        asked_until(*old(deadline), *final(deadline), result matches Err(error) && error
            == SnapshotLinkResolutionError::DeadlineExceeded),
        match result {
            Ok(files) => {
                &&& files.well_formed()
                &&& files.model() == known_snapshots(
                    snapshots.deep_view().current,
                    snapshots.deep_view().origins,
                )
                &&& are_valid_snapshots(snapshots.deep_view().current, snapshots.deep_view().origins)
                &&& final(deadline).answers().len() >= old(deadline).answers().len()
                    + snapshots.current.nodes.len()
            },
            Err(error) => error == SnapshotLinkResolutionError::InvalidSnapshot
                ==> !are_valid_snapshots(snapshots.deep_view().current, snapshots.deep_view().origins),
        },
{
    let ghost start = *deadline;
    let ghost current = snapshots.deep_view().current;
    let ghost origins = snapshots.deep_view().origins;
    proof {
        if are_valid_snapshots(current, origins) {
            first_snapshots_are_valid(current, origins, 0);
        }
        assert(origins.take(0) =~= Seq::empty());
    }
    let mut index = SnapshotFiles::new();
    let current_files = match snapshot_files_from_nodes(
        &snapshots.current.snapshot_id,
        &snapshots.current.nodes,
        deadline,
    ) {
        Ok(files) => files,
        Err(error) => {
            return Err(error);
        },
    };
    let fresh = index.insert(&snapshots.current.snapshot_id, current_files);
    let mut at: usize = 0;
    while at < snapshots.origins.len()
        invariant
            at <= snapshots.origins.len(),
            current == snapshots.deep_view().current,
            origins == snapshots.deep_view().origins,
            origins == snapshots.origins.deep_view(),
            start == *old(deadline),
            asked_until(start, *deadline, false),
            deadline.answers().len() >= start.answers().len() + snapshots.current.nodes.len(),
            index.well_formed(),
            index.model() == known_snapshots(current, origins.take(at as int)),
            are_valid_snapshots(current, origins.take(at as int)),
        decreases snapshots.origins.len() - at,
    {
        if poll(deadline, Ghost(start)) {
            return Err(SnapshotLinkResolutionError::DeadlineExceeded);
        }
        let snapshot = &snapshots.origins[at];
        let ghost next = origins.take(at + 1);
        proof {
            assert(next.drop_last() =~= origins.take(at as int));
            assert(next.last() == snapshot.deep_view());
            if are_valid_snapshots(current, origins) {
                first_snapshots_are_valid(current, origins, at + 1);
            }
        }
        let ghost before = *deadline;
        let files = match snapshot_files_from_nodes(&snapshot.snapshot_id, &snapshot.nodes, deadline) {
            Ok(files) => files,
            Err(error) => {
                proof {
                    asked_chain(
                        start,
                        before,
                        *deadline,
                        error == SnapshotLinkResolutionError::DeadlineExceeded,
                    );
                }
                return Err(error);
            },
        };
        proof {
            asked_chain(start, before, *deadline, false);
        }
        if !index.insert(&snapshot.snapshot_id, files) {
            return Err(SnapshotLinkResolutionError::InvalidSnapshot);
        }
        at += 1;
    }
    assert(origins.take(at as int) =~= origins);
    Ok(index)
}

/// Resolves the portable evidence of a revision against one immutable graph snapshot. No
/// repository, store, process or connection is opened. The deadline is asked about throughout.
pub fn resolve_repository_links_for_snapshot<D: Deadline>(
    revision: &MemoryRevision,
    entities: &Vec<MemoryEntity>,
    snapshots: &RepositoryLinkSnapshotSet,
    indexed_at: &str,
    deadline: &mut D,
) -> (result: Result<MemoryRepositoryLinkCommit, SnapshotLinkResolutionError>)
    ensures
        asked_until(*old(deadline), *final(deadline), result matches Err(error) && error
            == SnapshotLinkResolutionError::DeadlineExceeded),
        match result {
            Ok(commit) => {
                &&& are_valid_snapshots(snapshots.deep_view().current, snapshots.deep_view().origins)
                &&& commit.deep_view() == snapshot_link_commit(
                    revision.deep_view(),
                    entities.deep_view(),
                    snapshots.deep_view(),
                    indexed_at@,
                )
                &&& final(deadline).answers().len() > old(deadline).answers().len()
                    + snapshots.current.nodes.len() + entities.len()
            },
            Err(error) => error == SnapshotLinkResolutionError::InvalidSnapshot
                ==> !are_valid_snapshots(snapshots.deep_view().current, snapshots.deep_view().origins),
        },
{
    let ghost start = *deadline;
    let ghost sets = snapshots.deep_view();
    let ghost models = entities.deep_view();
    if poll(deadline, Ghost(start)) {
        return Err(SnapshotLinkResolutionError::DeadlineExceeded);
    }
    let ghost before = *deadline;
    let index = match index_snapshots(snapshots, deadline) {
        Ok(index) => index,
        Err(error) => {
            proof {
                asked_chain(
                    start,
                    before,
                    *deadline,
                    error == SnapshotLinkResolutionError::DeadlineExceeded,
                );
            }
            return Err(error);
        },
    };
    proof {
        asked_chain(start, before, *deadline, false);
    }
    let ghost files = index.model();
    let origins = repository_origin_snapshots(entities);
    let ghost at_hand = |origin: Seq<char>| files.contains_key(origin);
    let availability = origins_at_hand(&origins, &index);
    let link_set = MemoryRepositoryLinkSet {
        id: link_set_id_of(
            revision,
            &snapshots.repository,
            &Some(snapshots.current.snapshot_id.copied()),
            &origins,
            &availability,
            Ghost(at_hand),
        ),
        project: revision.project.copied(),
        memory_revision_id: revision.id.copied(),
        repository: snapshots.repository.copied(),
        repository_snapshot_id: Some(snapshots.current.snapshot_id.copied()),
        resolver: resolver_identity(),
    };
    let ghost before = *deadline;
    let set = match collect_candidates(revision, entities, &index, deadline) {
        Ok(set) => set,
        Err(error) => {
            proof {
                asked_chain(start, before, *deadline, true);
            }
            return Err(error);
        },
    };
    proof {
        asked_chain(start, before, *deadline, false);
    }
    let mut diagnostics = set.diagnostics;
    let ghost candidates = set.candidates.deep_view();
    let ghost mut noticed = all_origin_diagnostics(revision.deep_view(), models, files);
    if set.candidates.len() > MAX_REPOSITORY_LINKS {
        proof {
            reveal_strlit("link.limit");
        }
        push_diagnostic(
            &mut diagnostics,
            revision,
            diagnostic_code("link.limit"),
            None,
            None,
            Ghost(noticed),
        );
        proof {
            noticed = noticed.push(link_diagnostic(revision.deep_view(), "link.limit"@, None, None));
        }
    }
    assert(noticed =~= all_origin_diagnostics(revision.deep_view(), models, files) + limit_diagnostics(
        revision.deep_view(),
        candidates,
    ));
    let current_files = match index.get(&snapshots.current.snapshot_id) {
        Some(current_files) => current_files,
        None => {
            proof {
                known_snapshots_hold_current(sets.current, sets.origins);
            }
            return Err(SnapshotLinkResolutionError::InvalidSnapshot);
        },
    };
    proof {
        known_snapshots_hold_current(sets.current, sets.origins);
    }
    let ordered = set.candidates.into_values();
    let ghost kept = kept_candidates(candidates);
    let ghost all = snapshot_links(revision.deep_view(), models, sets, indexed_at@);
    let mut relationships: Vec<MemoryRelationship> = Vec::new();
    let mut at: usize = 0;
    assert(noticed + unresolved_diagnostics(revision.deep_view(), all.take(0)) =~= noticed);
    while at < ordered.len() && at < MAX_REPOSITORY_LINKS
        invariant
            at <= ordered.len(),
            at <= MAX_REPOSITORY_LINKS,
            sets == snapshots.deep_view(),
            index.well_formed(),
            files == index.model(),
            current_files.well_formed(),
            current_files.deep_view() == file_map(snapshots.current.nodes.deep_view()),
            ordered.deep_view() == values_in_order(candidates),
            kept == kept_candidates(candidates),
            all == kept.map_values(
                |candidate: LinkCandidateView|
                    linked(
                        revision.deep_view(),
                        candidate,
                        snapshot_target(
                            candidate,
                            sets.repository,
                            sets.current.snapshot_id,
                            sets.current.nodes,
                            files,
                        ),
                        indexed_at@,
                    ),
            ),
            start == *old(deadline),
            asked_until(start, *deadline, false),
            deadline.answers().len() > start.answers().len() + snapshots.current.nodes.len()
                + entities.len(),
            relationships.deep_view() =~= all.take(at as int),
            diagnostics.deep_view() == kept_diagnostics(
                noticed + unresolved_diagnostics(revision.deep_view(), all.take(at as int)),
            ),
        decreases ordered.len() - at,
    {
        if poll(deadline, Ghost(start)) {
            return Err(SnapshotLinkResolutionError::DeadlineExceeded);
        }
        let candidate = &ordered[at];
        assert(kept[at as int] == ordered.deep_view()[at as int]);
        assert(ordered.deep_view()[at as int] == candidate.deep_view());
        let link = resolve_against_snapshot(
            candidate,
            &snapshots.repository,
            &snapshots.current.snapshot_id,
            &snapshots.current.nodes,
            current_files,
            &index,
        );
        let relationship = link_candidate(revision, candidate, link, indexed_at);
        assert(relationship.deep_view() == all[at as int]);
        let ghost so_far = noticed + unresolved_diagnostics(revision.deep_view(), all.take(at as int));
        assert(all.take(at + 1).drop_last() =~= all.take(at as int));
        assert(all.take(at + 1).last() == all[at as int]);
        if matches!(relationship.provenance.resolution, MemoryResolutionState::Unresolved) {
            push_link_state(&mut diagnostics, revision, &relationship, Ghost(so_far));
            assert(so_far + link_state_diagnostics(revision.deep_view(), all[at as int]) =~= noticed
                + unresolved_diagnostics(revision.deep_view(), all.take(at + 1)));
        }
        let ghost before = relationships.deep_view();
        relationships.push(relationship);
        assert(relationships.deep_view() =~= before.push(all[at as int]));
        at += 1;
    }
    assert(all.take(at as int) =~= all);
    let commit = MemoryRepositoryLinkCommit { link_set, relationships, diagnostics };
    proof {
        let expected = snapshot_link_commit(revision.deep_view(), models, sets, indexed_at@);
        assert(commit.deep_view().diagnostics == expected.diagnostics);
        assert(commit.deep_view().relationships == expected.relationships);
        assert(at_hand =~= |origin: Seq<char>| files.contains_key(origin));
        assert(commit.deep_view().link_set == expected.link_set);
    }
    Ok(commit)
}

proof fn known_snapshots_hold_current(
    current: RepositoryLinkSnapshotView,
    origins: Seq<RepositoryLinkSnapshotView>,
)
    requires
        are_valid_snapshots(current, origins),
    ensures
        known_snapshots(current, origins).contains_key(current.snapshot_id),
        known_snapshots(current, origins)[current.snapshot_id] == file_map(current.nodes),
    decreases origins.len(),
{
    if origins.len() > 0 {
        known_snapshots_hold_current(current, origins.drop_last());
    }
}

fn origins_at_hand(origins: &Vec<String>, snapshots: &SnapshotFiles) -> (available: Vec<bool>)
    requires
        snapshots.well_formed(),
    ensures
        available.len() == origins.len(),
        forall|i: int|
            0 <= i < origins.len() ==> #[trigger] available@[i] == snapshots.model().contains_key(
                origins.deep_view()[i],
            ),
{
    let mut available: Vec<bool> = Vec::new();
    let mut at: usize = 0;
    while at < origins.len()
        invariant
            at <= origins.len(),
            snapshots.well_formed(),
            available.len() == at,
            forall|i: int|
                0 <= i < at ==> #[trigger] available@[i] == snapshots.model().contains_key(
                    origins.deep_view()[i],
                ),
        decreases origins.len() - at,
    {
        available.push(snapshots.contains(origins[at].as_str()));
        at += 1;
    }
    available
}

impl LocalSnapshotView {
    /// The files of the snapshot.
    pub open spec fn file_map(self) -> Map<Seq<char>, DigestView> {
        listed_files(self.files)
    }
}

/// The listed files: which there are, and what each holds.
pub open spec fn listed_files(files: Seq<FactEvidenceView>) -> Map<Seq<char>, DigestView>
    decreases files.len(),
{
    if files.len() == 0 {
        Map::empty()
    } else {
        listed_files(files.drop_last()).insert(files.last().path, files.last().content_identity)
    }
}

/// The files of the snapshots that belong to the repository.
pub open spec fn belonging_files(
    snapshots: Seq<LocalSnapshotView>,
) -> Map<Seq<char>, Map<Seq<char>, DigestView>>
    decreases snapshots.len(),
{
    if snapshots.len() == 0 {
        Map::empty()
    } else {
        let known = belonging_files(snapshots.drop_last());
        if snapshots.last().belongs && !known.contains_key(snapshots.last().id) {
            known.insert(snapshots.last().id, snapshots.last().file_map())
        } else {
            known
        }
    }
}

/// Whether a file is in a snapshot.
pub open spec fn has_file(
    snapshots: Seq<LocalSnapshotView>,
    id: Seq<char>,
    path: Seq<char>,
) -> bool {
    exists|i: int| file_stands_at(snapshots, i, id, path)
}

/// Whether a file is in the snapshot at place `at`.
pub open spec fn file_stands_at(
    snapshots: Seq<LocalSnapshotView>,
    at: int,
    id: Seq<char>,
    path: Seq<char>,
) -> bool {
    0 <= at < snapshots.len() && snapshots[at].id == id && snapshots[at].file_map().contains_key(path)
}

/// The nodes that have a key among these, in order.
pub open spec fn keyed_nodes(symbols: Seq<SymbolNodeView>, key: Seq<char>) -> Seq<Seq<char>>
    decreases symbols.len(),
{
    if symbols.len() == 0 {
        Seq::empty()
    } else {
        let before = keyed_nodes(symbols.drop_last(), key);
        if symbols.last().semantic_key == key {
            before.push(symbols.last().node_id)
        } else {
            before
        }
    }
}

/// The nodes that have a key in a snapshot, in order.
pub open spec fn symbol_nodes_of(
    snapshots: Seq<LocalSnapshotView>,
    id: Seq<char>,
    key: Seq<char>,
) -> Seq<Seq<char>>
    decreases snapshots.len(),
{
    if snapshots.len() == 0 {
        Seq::empty()
    } else {
        let before = symbol_nodes_of(snapshots.drop_last(), id, key);
        if snapshots.last().id == id {
            before + keyed_nodes(snapshots.last().symbols, key)
        } else {
            before
        }
    }
}

fn files_of(files: &Vec<FactEvidence>) -> (map: OrderedMap<Digest>)
    ensures
        map.well_formed(),
        map.deep_view() == listed_files(files.deep_view()),
        has_repo_paths(map.deep_view()),
{
    let ghost models = files.deep_view();
    let mut map: OrderedMap<Digest> = OrderedMap::new();
    let mut at: usize = 0;
    assert(models.take(0) =~= Seq::empty());
    while at < files.len()
        invariant
            at <= files.len(),
            models == files.deep_view(),
            map.well_formed(),
            map.deep_view() == listed_files(models.take(at as int)),
            has_repo_paths(map.deep_view()),
        decreases files.len() - at,
    {
        let file = &files[at];
        assert(models.take(at + 1).drop_last() =~= models.take(at as int));
        assert(models.take(at + 1).last() == file.deep_view());
        map.insert(file.path.as_str().to_owned(), file.content_identity.copied());
        at += 1;
    }
    assert(models.take(at as int) =~= models);
    map
}

impl LocalRepositoryLinkResolver {
    fn index(&self) -> (index: SnapshotFiles)
        ensures
            index.well_formed(),
            index.model() == belonging_files(self.deep_view().snapshots),
    {
        let ghost models = self.deep_view().snapshots;
        let mut index = SnapshotFiles::new();
        let mut at: usize = 0;
        assert(models.take(0) =~= Seq::empty());
        while at < self.snapshots.len()
            invariant
                at <= self.snapshots.len(),
                models == self.snapshots.deep_view(),
                index.well_formed(),
                index.model() == belonging_files(models.take(at as int)),
            decreases self.snapshots.len() - at,
        {
            let snapshot = &self.snapshots[at];
            assert(models.take(at + 1).drop_last() =~= models.take(at as int));
            assert(models.take(at + 1).last() == snapshot.deep_view());
            if snapshot.belongs {
                index.insert(&snapshot.id, files_of(&snapshot.files));
            }
            at += 1;
        }
        assert(models.take(at as int) =~= models);
        index
    }

    /// Whether a file is in a snapshot.
    fn path_exists(&self, snapshot: &SnapshotId, path: &RepoPath) -> (exists_there: bool)
        ensures
            exists_there == has_file(self.deep_view().snapshots, snapshot.deep_view(), path.deep_view()),
    {
        let ghost models = self.deep_view().snapshots;
        let mut at: usize = 0;
        while at < self.snapshots.len()
            invariant
                at <= self.snapshots.len(),
                models == self.snapshots.deep_view(),
                forall|i: int| 0 <= i < at ==> !file_stands_at(models, i, snapshot.deep_view(), path.deep_view()),
            decreases self.snapshots.len() - at,
        {
            let candidate = &self.snapshots[at];
            assert(models[at as int] == candidate.deep_view());
            if candidate.id.same(snapshot) {
                let files = files_of(&candidate.files);
                if files.contains(path.as_str()) {
                    assert(file_stands_at(models, at as int, snapshot.deep_view(), path.deep_view()));
                    return true;
                }
            }
            at += 1;
        }
        false
    }

    /// The nodes that have a key in a snapshot, in order.
    fn symbol_nodes(&self, snapshot: &SnapshotId, key: &SemanticKey) -> (nodes: Vec<NodeId>)
        ensures
            nodes.deep_view() == symbol_nodes_of(
                self.deep_view().snapshots,
                snapshot.deep_view(),
                key.deep_view(),
            ),
    {
        let ghost models = self.deep_view().snapshots;
        let mut nodes: Vec<NodeId> = Vec::new();
        let mut at: usize = 0;
        assert(models.take(0) =~= Seq::empty());
        assert(nodes.deep_view() =~= Seq::empty());
        while at < self.snapshots.len()
            invariant
                at <= self.snapshots.len(),
                models == self.snapshots.deep_view(),
                nodes.deep_view() == symbol_nodes_of(
                    models.take(at as int),
                    snapshot.deep_view(),
                    key.deep_view(),
                ),
            decreases self.snapshots.len() - at,
        {
            let candidate = &self.snapshots[at];
            assert(models.take(at + 1).drop_last() =~= models.take(at as int));
            assert(models.take(at + 1).last() == candidate.deep_view());
            if candidate.id.same(snapshot) {
                let ghost before = nodes.deep_view();
                let ghost symbols = candidate.symbols.deep_view();
                let mut place: usize = 0;
                assert(symbols.take(0) =~= Seq::empty());
                assert(before + keyed_nodes(symbols.take(0), key.deep_view()) =~= before);
                while place < candidate.symbols.len()
                    invariant
                        place <= candidate.symbols.len(),
                        symbols == candidate.symbols.deep_view(),
                        nodes.deep_view() == before + keyed_nodes(symbols.take(place as int), key.deep_view()),
                    decreases candidate.symbols.len() - place,
                {
                    let symbol = &candidate.symbols[place];
                    let ghost so_far = nodes.deep_view();
                    assert(symbols.take(place + 1).drop_last() =~= symbols.take(place as int));
                    assert(symbols.take(place + 1).last() == symbol.deep_view());
                    if symbol.semantic_key.same(key) {
                        nodes.push(symbol.node_id.copied());
                        assert(nodes.deep_view() =~= so_far.push(symbol.deep_view().node_id));
                        assert(so_far.push(symbol.deep_view().node_id) =~= before + keyed_nodes(
                            symbols.take(place + 1),
                            key.deep_view(),
                        ));
                    }
                    place += 1;
                }
                assert(symbols.take(place as int) =~= symbols);
            }
            at += 1;
        }
        assert(models.take(at as int) =~= models);
        nodes
    }
}

/// A relationship of an earlier resolution that had found its target.
pub open spec fn found_before(
    previous: Option<MemoryRelationshipView>,
) -> Option<MemoryRelationshipTargetView> {
    match previous {
        Some(relationship) => if relationship.provenance.resolution != MemoryResolutionState::Unresolved {
            Some(relationship.target)
        } else {
            None
        },
        None => None,
    }
}

/// What is left of a link whose target is nowhere now: its earlier target, as a stale one, or
/// `otherwise`.
pub open spec fn stale_or(
    previous: Option<MemoryRelationshipView>,
    otherwise: LinkTargetView,
) -> LinkTargetView {
    match found_before(previous) {
        Some(target) => LinkTargetView { target, resolution: MemoryResolutionState::Stale },
        None => otherwise,
    }
}

/// Where a candidate points: into the current snapshot, else into the one that its change came
/// from, else to where it pointed before, else nowhere.
pub open spec fn local_target(
    resolver: LocalRepositoryLinkResolverView,
    candidate: LinkCandidateView,
    previous: Option<MemoryRelationshipView>,
) -> LinkTargetView {
    let repository = resolver.repository;
    let current = resolver.repository_snapshot_id;
    let origin = candidate.origin_snapshot_id;
    match candidate.reference {
        ExplicitRepositoryReferenceView::Path(path) => {
            if current is Some && has_file(resolver.snapshots, current->0, path) {
                path_target(repository, path, current, MemoryResolutionState::Resolved)
            } else if origin is Some && has_file(resolver.snapshots, origin->0, path) {
                path_target(repository, path, origin, MemoryResolutionState::Stale)
            } else {
                stale_or(
                    previous,
                    path_target(repository, path, None, MemoryResolutionState::Unresolved),
                )
            }
        },
        ExplicitRepositoryReferenceView::Symbol(key) => {
            let here = match current {
                Some(current) => symbol_nodes_of(resolver.snapshots, current, key),
                None => Seq::empty(),
            };
            if here.len() == 1 {
                node_target(repository, current->0, here[0], key, MemoryResolutionState::Resolved)
            } else if here.len() > 1 {
                symbol_target(repository, key, current)
            } else if origin is Some && symbol_nodes_of(resolver.snapshots, origin->0, key).len() == 1 {
                node_target(
                    repository,
                    origin->0,
                    symbol_nodes_of(resolver.snapshots, origin->0, key)[0],
                    key,
                    MemoryResolutionState::Stale,
                )
            } else {
                stale_or(previous, symbol_target(repository, key, None))
            }
        },
    }
}

fn stale_link(previous: Option<&MemoryRelationship>, otherwise: LinkTarget) -> (link: LinkTarget)
    ensures
        link.model() == stale_or(
            match previous {
                Some(relationship) => Some(relationship.deep_view()),
                None => None,
            },
            otherwise.model(),
        ),
{
    match previous {
        Some(relationship) => if matches!(relationship.provenance.resolution, MemoryResolutionState::Unresolved) {
            otherwise
        } else {
            LinkTarget { target: relationship.target.copied(), resolution: MemoryResolutionState::Stale }
        },
        None => otherwise,
    }
}

impl LocalRepositoryLinkResolver {
    fn target_of(
        &self,
        candidate: &LinkCandidate,
        previous: Option<&MemoryRelationship>,
    ) -> (link: LinkTarget)
        ensures
            link.model() == local_target(
                self.deep_view(),
                candidate.deep_view(),
                match previous {
                    Some(relationship) => Some(relationship.deep_view()),
                    None => None,
                },
            ),
    {
        match &candidate.reference {
            ExplicitRepositoryReference::Path(path) => {
                if let Some(current) = &self.repository_snapshot_id {
                    if self.path_exists(current, path) {
                        return path_link(
                            &self.repository,
                            path,
                            Some(current.copied()),
                            MemoryResolutionState::Resolved,
                        );
                    }
                }
                if let Some(origin) = &candidate.origin_snapshot_id {
                    if self.path_exists(origin, path) {
                        return path_link(
                            &self.repository,
                            path,
                            Some(origin.copied()),
                            MemoryResolutionState::Stale,
                        );
                    }
                }
                stale_link(
                    previous,
                    path_link(&self.repository, path, None, MemoryResolutionState::Unresolved),
                )
            },
            ExplicitRepositoryReference::Symbol(key) => {
                if let Some(current) = &self.repository_snapshot_id {
                    let here = self.symbol_nodes(current, key);
                    assert(here.deep_view().len() == here.len());
                    if here.len() == 1 {
                        return node_link(
                            &self.repository,
                            current,
                            &here[0],
                            key,
                            MemoryResolutionState::Resolved,
                        );
                    }
                    if here.len() > 1 {
                        return symbol_link(&self.repository, key, Some(current.copied()));
                    }
                }
                if let Some(origin) = &candidate.origin_snapshot_id {
                    let there = self.symbol_nodes(origin, key);
                    assert(there.deep_view().len() == there.len());
                    if there.len() == 1 {
                        return node_link(
                            &self.repository,
                            origin,
                            &there[0],
                            key,
                            MemoryResolutionState::Stale,
                        );
                    }
                }
                stale_link(previous, symbol_link(&self.repository, key, None))
            },
        }
    }

    /// The relationship that a candidate becomes, given what it was before.
    pub fn resolve_candidate(
        &self,
        revision: &MemoryRevision,
        candidate: &LinkCandidate,
        previous: Option<&MemoryRelationship>,
        indexed_at: &str,
    ) -> (relationship: MemoryRelationship)
        ensures
            relationship.deep_view() == linked(
                revision.deep_view(),
                candidate.deep_view(),
                local_target(
                    self.deep_view(),
                    candidate.deep_view(),
                    match previous {
                        Some(relationship) => Some(relationship.deep_view()),
                        None => None,
                    },
                ),
                indexed_at@,
            ),
    {
        let link = self.target_of(candidate, previous);
        link_candidate(revision, candidate, link, indexed_at)
    }

    /// The repository that links point into.
    pub fn repository(&self) -> (repository: &RepositoryRef)
        ensures
            repository.deep_view() == self.deep_view().repository,
    {
        &self.repository
    }

    /// The identity of the set of links that a resolution now would make.
    pub fn link_set_id(
        &self,
        revision: &MemoryRevision,
        entities: &Vec<MemoryEntity>,
    ) -> (id: MemoryRepositoryLinkSetId)
        ensures
            id.deep_view() == local_link_set(self.deep_view(), revision.deep_view(), entities.deep_view()),
    {
        let index = self.index();
        let origins = repository_origin_snapshots(entities);
        let availability = origins_at_hand(&origins, &index);
        let ghost files = belonging_files(self.deep_view().snapshots);
        let ghost at_hand = |origin: Seq<char>| files.contains_key(origin);
        assert(at_hand =~= belongs_now(self.deep_view().snapshots));
        link_set_id_of(
            revision,
            &self.repository,
            &self.repository_snapshot_id,
            &origins,
            &availability,
            Ghost(at_hand),
        )
    }
}

/// Whether a snapshot belongs to the repository.
pub open spec fn belongs_now(snapshots: Seq<LocalSnapshotView>) -> spec_fn(Seq<char>) -> bool {
    |origin: Seq<char>| belonging_files(snapshots).contains_key(origin)
}

/// The identity of the set of links that a resolution would make.
pub open spec fn local_link_set(
    resolver: LocalRepositoryLinkResolverView,
    revision: MemoryRevisionView,
    entities: Seq<MemoryEntityView>,
) -> Seq<char> {
    link_set_identity(
        revision,
        resolver.repository,
        resolver.repository_snapshot_id,
        in_order(all_origin_snapshots(entities).to_set()),
        belongs_now(resolver.snapshots),
    )
}

/// What is noticed before anything is resolved: that the repository graph cannot be read.
pub open spec fn availability_diagnostics(
    revision: MemoryRevisionView,
    availability: Option<Seq<char>>,
) -> Seq<MemoryDiagnosticView> {
    match availability {
        Some(code) => seq![link_diagnostic(revision, code, None, None)],
        None => Seq::empty(),
    }
}

/// What is noticed of links that were resolved before.
pub fn link_diagnostics(
    revision: &MemoryRevision,
    relationships: &Vec<MemoryRelationship>,
    availability: &Option<MemoryDiagnosticCode>,
) -> (diagnostics: Vec<MemoryDiagnostic>)
    ensures
        diagnostics.deep_view() == kept_diagnostics(
            availability_diagnostics(revision.deep_view(), availability.deep_view())
                + all_link_state_diagnostics(revision.deep_view(), relationships.deep_view()),
        ),
{
    let mut diagnostics: Vec<MemoryDiagnostic> = Vec::new();
    let ghost first = availability_diagnostics(revision.deep_view(), availability.deep_view());
    assert(diagnostics.deep_view() =~= kept_diagnostics(Seq::empty()));
    if let Some(code) = availability {
        push_diagnostic(&mut diagnostics, revision, code.copied(), None, None, Ghost(Seq::empty()));
        assert(Seq::empty().push(link_diagnostic(revision.deep_view(), code.deep_view(), None, None)) =~= first);
    }
    push_link_states(&mut diagnostics, revision, relationships, Ghost(first));
    diagnostics
}

fn push_link_states(
    diagnostics: &mut Vec<MemoryDiagnostic>,
    revision: &MemoryRevision,
    relationships: &Vec<MemoryRelationship>,
    noticed: Ghost<Seq<MemoryDiagnosticView>>,
)
    requires
        old(diagnostics).deep_view() == kept_diagnostics(noticed@),
    ensures
        final(diagnostics).deep_view() == kept_diagnostics(
            noticed@ + all_link_state_diagnostics(revision.deep_view(), relationships.deep_view()),
        ),
{
    let ghost models = relationships.deep_view();
    let mut at: usize = 0;
    assert(models.take(0) =~= Seq::empty());
    assert(noticed@ + all_link_state_diagnostics(revision.deep_view(), models.take(0)) =~= noticed@);
    while at < relationships.len()
        invariant
            at <= relationships.len(),
            models == relationships.deep_view(),
            diagnostics.deep_view() == kept_diagnostics(
                noticed@ + all_link_state_diagnostics(revision.deep_view(), models.take(at as int)),
            ),
        decreases relationships.len() - at,
    {
        let ghost so_far = noticed@ + all_link_state_diagnostics(revision.deep_view(), models.take(at as int));
        assert(models.take(at + 1).drop_last() =~= models.take(at as int));
        assert(models.take(at + 1).last() == relationships@[at as int].deep_view());
        push_link_state(diagnostics, revision, &relationships[at], Ghost(so_far));
        assert(so_far + link_state_diagnostics(revision.deep_view(), models[at as int]) =~= noticed@
            + all_link_state_diagnostics(revision.deep_view(), models.take(at + 1)));
        at += 1;
    }
    assert(models.take(at as int) =~= models);
}

/// The relationships of an earlier resolution, by identity: the last one of each.
pub open spec fn by_identity(
    relationships: Seq<MemoryRelationshipView>,
) -> Map<Seq<char>, MemoryRelationshipView>
    decreases relationships.len(),
{
    if relationships.len() == 0 {
        Map::empty()
    } else {
        by_identity(relationships.drop_last()).insert(relationships.last().id, relationships.last())
    }
}

/// What an earlier resolution says of a link. Nothing counts where there is no current snapshot.
pub open spec fn earlier_link(
    resolver: LocalRepositoryLinkResolverView,
    previous: Option<PreviousLinksView>,
    id: Seq<char>,
) -> Option<MemoryRelationshipView> {
    match previous {
        Some(previous) => if resolver.repository_snapshot_id is Some && by_identity(
            previous.relationships,
        ).contains_key(id) {
            Some(by_identity(previous.relationships)[id])
        } else {
            None
        },
        None => None,
    }
}

/// The candidates of a revision, as the local snapshots show them.
pub open spec fn local_candidates(
    resolver: LocalRepositoryLinkResolverView,
    revision: MemoryRevisionView,
    entities: Seq<MemoryEntityView>,
) -> Map<Seq<char>, LinkCandidateView> {
    collected(
        proposals(
            revision.project,
            entities,
            milestone_entities(entities),
            belonging_files(resolver.snapshots),
        ),
    )
}

/// The links of a revision into the local repository.
pub open spec fn local_links(
    resolver: LocalRepositoryLinkResolverView,
    revision: MemoryRevisionView,
    entities: Seq<MemoryEntityView>,
    previous: Option<PreviousLinksView>,
    indexed_at: Seq<char>,
) -> Seq<MemoryRelationshipView> {
    kept_candidates(local_candidates(resolver, revision, entities)).map_values(
        |candidate: LinkCandidateView|
            linked(
                revision,
                candidate,
                local_target(resolver, candidate, earlier_link(resolver, previous, candidate.id)),
                indexed_at,
            ),
    )
}

/// What a resolution hands to the store: the earlier links as they are where nothing that they
/// rest on has changed, else the links as they are now.
pub open spec fn local_link_commit(
    resolver: LocalRepositoryLinkResolverView,
    revision: MemoryRevisionView,
    entities: Seq<MemoryEntityView>,
    previous: Option<PreviousLinksView>,
    indexed_at: Seq<char>,
) -> MemoryRepositoryLinkCommitView {
    let id = local_link_set(resolver, revision, entities);
    let first = availability_diagnostics(revision, resolver.availability_diagnostic);
    if previous is Some && previous->0.link_set.id == id {
        MemoryRepositoryLinkCommitView {
            link_set: previous->0.link_set,
            relationships: previous->0.relationships,
            diagnostics: kept_diagnostics(
                first + all_link_state_diagnostics(revision, previous->0.relationships),
            ),
        }
    } else {
        let relationships = local_links(resolver, revision, entities, previous, indexed_at);
        MemoryRepositoryLinkCommitView {
            link_set: MemoryRepositoryLinkSetView {
                id,
                project: revision.project,
                memory_revision_id: revision.id,
                repository: resolver.repository,
                repository_snapshot_id: resolver.repository_snapshot_id,
                resolver: resolver_model(),
            },
            relationships,
            diagnostics: kept_diagnostics(
                first + all_origin_diagnostics(revision, entities, belonging_files(resolver.snapshots))
                    + limit_diagnostics(revision, local_candidates(resolver, revision, entities))
                    + all_link_state_diagnostics(revision, relationships),
            ),
        }
    }
}

/// Whether an entity's changes lie between two snapshots of which one has too many files.
pub open spec fn compares_too_many_files(
    entity: MemoryEntityView,
    snapshots: Map<Seq<char>, Map<Seq<char>, DigestView>>,
) -> bool {
    let origins = origin_snapshots(entity.data);
    &&& origins.len() == 2
    &&& snapshots.contains_key(origins[0])
    &&& snapshots.contains_key(origins[1])
    &&& snapshots[origins[0]].dom().len() > MAX_ORIGIN_FILES || snapshots[origins[1]].dom().len()
        > MAX_ORIGIN_FILES
}

/// Whether no entity's changes lie between snapshots of which one has too many files.
pub open spec fn origins_are_within_limits(
    resolver: LocalRepositoryLinkResolverView,
    entities: Seq<MemoryEntityView>,
) -> bool {
    forall|i: int|
        0 <= i < entities.len() ==> !compares_too_many_files(
            #[trigger] entities[i],
            belonging_files(resolver.snapshots),
        )
}

/// Whether links can be found: where they were found before, or where no origin has too many files.
pub open spec fn can_be_linked(
    resolver: LocalRepositoryLinkResolverView,
    revision: MemoryRevisionView,
    entities: Seq<MemoryEntityView>,
    previous: Option<PreviousLinksView>,
) -> bool {
    (previous is Some && previous->0.link_set.id == local_link_set(resolver, revision, entities))
        || origins_are_within_limits(resolver, entities)
}

fn within_limits(
    baseline: &Option<SnapshotId>,
    view: &Option<SnapshotId>,
    index: &SnapshotFiles,
) -> (within: bool)
    requires
        index.well_formed(),
    ensures
        within == !(baseline is Some && view is Some && index.model().contains_key(
            baseline->0.deep_view(),
        ) && index.model().contains_key(view->0.deep_view()) && (index.model()[baseline->0.deep_view()].dom().len()
            > MAX_ORIGIN_FILES || index.model()[view->0.deep_view()].dom().len() > MAX_ORIGIN_FILES)),
{
    match (baseline, view) {
        (Some(baseline), Some(view)) => match (index.get(baseline), index.get(view)) {
            (Some(left), Some(right)) => {
                left.len() <= MAX_ORIGIN_FILES && right.len() <= MAX_ORIGIN_FILES
            },
            _ => true,
        },
        _ => true,
    }
}

impl LocalRepositoryLinkResolver {
    fn check_origins(&self, entities: &Vec<MemoryEntity>, index: &SnapshotFiles) -> (within: bool)
        requires
            index.well_formed(),
            index.model() == belonging_files(self.deep_view().snapshots),
        ensures
            within == origins_are_within_limits(self.deep_view(), entities.deep_view()),
    {
        let ghost models = entities.deep_view();
        let mut at: usize = 0;
        while at < entities.len()
            invariant
                at <= entities.len(),
                models == entities.deep_view(),
                index.well_formed(),
                index.model() == belonging_files(self.deep_view().snapshots),
                forall|i: int|
                    0 <= i < at ==> !compares_too_many_files(
                        #[trigger] models[i],
                        belonging_files(self.deep_view().snapshots),
                    ),
            decreases entities.len() - at,
        {
            let entity = &entities[at];
            assert(models[at as int] == entity.deep_view());
            let within = match &entity.data {
                MemoryEntityData::TaskReference { baseline_snapshot_id, repository_snapshot_id, .. } => within_limits(
                    baseline_snapshot_id,
                    repository_snapshot_id,
                    index,
                ),
                MemoryEntityData::RunReference { baseline_snapshot_id, repository_snapshot_id, .. } => within_limits(
                    baseline_snapshot_id,
                    repository_snapshot_id,
                    index,
                ),
                _ => true,
            };
            assert(within == !compares_too_many_files(
                models[at as int],
                belonging_files(self.deep_view().snapshots),
            ));
            if !within {
                assert(compares_too_many_files(
                    entities.deep_view()[at as int],
                    belonging_files(self.deep_view().snapshots),
                ));
                return false;
            }
            at += 1;
        }
        true
    }

    /// The candidates of a revision, with what is noticed on the way.
    pub fn candidates(
        &self,
        revision: &MemoryRevision,
        entities: &Vec<MemoryEntity>,
    ) -> (result: Result<LinkCandidates, OriginFilesExceeded>)
        ensures
            result is Ok == origins_are_within_limits(self.deep_view(), entities.deep_view()),
            result matches Ok(set) ==> {
                &&& set.candidates.well_formed()
                &&& set.candidates.deep_view() == local_candidates(
                    self.deep_view(),
                    revision.deep_view(),
                    entities.deep_view(),
                )
                &&& set.diagnostics.deep_view() == kept_diagnostics(
                    all_origin_diagnostics(
                        revision.deep_view(),
                        entities.deep_view(),
                        belonging_files(self.deep_view().snapshots),
                    ),
                )
            },
    {
        let index = self.index();
        if !self.check_origins(entities, &index) {
            return Err(OriginFilesExceeded);
        }
        let mut deadline = NoDeadline::new();
        match collect_candidates(revision, entities, &index, &mut deadline) {
            Ok(set) => Ok(set),
            Err(_) => {
                deadline.never_expired();
                Err(OriginFilesExceeded)
            },
        }
    }

    /// Resolves the evidence of a revision against the local repository graph.
    pub fn resolve(
        &self,
        revision: &MemoryRevision,
        entities: &Vec<MemoryEntity>,
        previous: &Option<PreviousLinks>,
        indexed_at: &str,
    ) -> (result: Result<MemoryRepositoryLinkCommit, OriginFilesExceeded>)
        ensures
            match result {
                Ok(commit) => commit.deep_view() == local_link_commit(
                    self.deep_view(),
                    revision.deep_view(),
                    entities.deep_view(),
                    previous.deep_view(),
                    indexed_at@,
                ),
                Err(_) => true,
            },
            result is Ok == can_be_linked(
                self.deep_view(),
                revision.deep_view(),
                entities.deep_view(),
                previous.deep_view(),
            ),
    {
        let ghost resolver = self.deep_view();
        let ghost models = entities.deep_view();
        let id = self.link_set_id(revision, entities);
        let ghost first = availability_diagnostics(
            revision.deep_view(),
            self.availability_diagnostic.deep_view(),
        );
        let mut earlier: OrderedMap<MemoryRelationship> = OrderedMap::new();
        if let Some(previous) = previous {
            if previous.link_set.id.same(&id) {
                let diagnostics = link_diagnostics(
                    revision,
                    &previous.relationships,
                    &self.availability_diagnostic,
                );
                return Ok(
                    MemoryRepositoryLinkCommit {
                        link_set: previous.link_set.copied(),
                        relationships: previous.relationships.copied(),
                        diagnostics,
                    },
                );
            }
            if self.repository_snapshot_id.is_some() {
                earlier = relationships_by_identity(&previous.relationships);
            }
        }
        let set = match self.candidates(revision, entities) {
            Ok(set) => set,
            Err(error) => {
                return Err(error);
            },
        };
        let ghost candidates = set.candidates.deep_view();
        let ghost origin = all_origin_diagnostics(
            revision.deep_view(),
            models,
            belonging_files(resolver.snapshots),
        );
        let mut diagnostics = self.first_diagnostics(revision, &set.diagnostics, Ghost(origin));
        let ghost mut noticed = first + origin;
        if set.candidates.len() > MAX_REPOSITORY_LINKS {
            proof {
                reveal_strlit("link.limit");
            }
            push_diagnostic(
                &mut diagnostics,
                revision,
                diagnostic_code("link.limit"),
                None,
                None,
                Ghost(noticed),
            );
            proof {
                noticed = noticed.push(
                    link_diagnostic(revision.deep_view(), "link.limit"@, None, None),
                );
            }
        }
        assert(noticed =~= first + origin + limit_diagnostics(revision.deep_view(), candidates));
        let ordered = set.candidates.into_values();
        let relationships = self.resolve_all(
            revision,
            &ordered,
            &earlier,
            indexed_at,
            previous,
            Ghost(candidates),
        );
        push_link_states(&mut diagnostics, revision, &relationships, Ghost(noticed));
        let link_set = MemoryRepositoryLinkSet {
            id,
            project: revision.project.copied(),
            memory_revision_id: revision.id.copied(),
            repository: self.repository.copied(),
            repository_snapshot_id: self.repository_snapshot_id.copied(),
            resolver: resolver_identity(),
        };
        Ok(MemoryRepositoryLinkCommit { link_set, relationships, diagnostics })
    }

    /// The availability diagnostic in front of others, as far as they are kept.
    fn first_diagnostics(
        &self,
        revision: &MemoryRevision,
        others: &Vec<MemoryDiagnostic>,
        noticed: Ghost<Seq<MemoryDiagnosticView>>,
    ) -> (diagnostics: Vec<MemoryDiagnostic>)
        requires
            others.deep_view() == kept_diagnostics(noticed@),
        ensures
            diagnostics.deep_view() == kept_diagnostics(
                availability_diagnostics(
                    revision.deep_view(),
                    self.deep_view().availability_diagnostic,
                ) + noticed@,
            ),
    {
        let ghost first = availability_diagnostics(
            revision.deep_view(),
            self.deep_view().availability_diagnostic,
        );
        let mut diagnostics: Vec<MemoryDiagnostic> = Vec::new();
        assert(diagnostics.deep_view() =~= kept_diagnostics(Seq::empty()));
        if let Some(code) = &self.availability_diagnostic {
            push_diagnostic(&mut diagnostics, revision, code.copied(), None, None, Ghost(Seq::empty()));
            assert(Seq::empty().push(link_diagnostic(revision.deep_view(), code.deep_view(), None, None)) =~= first);
        }
        assert(diagnostics.deep_view() =~= first);
        let ghost models = others.deep_view();
        let ghost all = first + noticed@;
        let mut at: usize = 0;
        assert(models.take(0) =~= Seq::empty());
        assert(first + models.take(0) =~= first);
        while at < others.len() && diagnostics.len() < MAX_LINK_DIAGNOSTICS
            invariant
                at <= others.len(),
                models == others.deep_view(),
                models == kept_diagnostics(noticed@),
                all == first + noticed@,
                first.len() <= 1,
                diagnostics.deep_view() == first + models.take(at as int),
                diagnostics.len() == first.len() + at,
                diagnostics.len() <= MAX_LINK_DIAGNOSTICS,
            decreases others.len() - at,
        {
            let ghost before = diagnostics.deep_view();
            assert(models[at as int] == others@[at as int].deep_view());
            diagnostics.push(others[at].copied());
            assert(diagnostics.deep_view() =~= before.push(models[at as int]));
            assert(diagnostics.deep_view() =~= first + models.take(at + 1));
            at += 1;
        }
        assert(diagnostics.deep_view() =~= kept_diagnostics(all));
        diagnostics
    }

    fn resolve_all(
        &self,
        revision: &MemoryRevision,
        ordered: &Vec<LinkCandidate>,
        earlier: &OrderedMap<MemoryRelationship>,
        indexed_at: &str,
        previous: &Option<PreviousLinks>,
        candidates: Ghost<Map<Seq<char>, LinkCandidateView>>,
    ) -> (relationships: Vec<MemoryRelationship>)
        requires
            ordered.deep_view() == values_in_order(candidates@),
            earlier.well_formed(),
            earlier.deep_view() == match previous.deep_view() {
                Some(previous) => if self.deep_view().repository_snapshot_id is Some {
                    by_identity(previous.relationships)
                } else {
                    Map::empty()
                },
                None => Map::empty(),
            },
        ensures
            relationships.deep_view() == kept_candidates(candidates@).map_values(
                |candidate: LinkCandidateView|
                    linked(
                        revision.deep_view(),
                        candidate,
                        local_target(
                            self.deep_view(),
                            candidate,
                            earlier_link(self.deep_view(), previous.deep_view(), candidate.id),
                        ),
                        indexed_at@,
                    ),
            ),
    {
        let ghost resolver = self.deep_view();
        let ghost kept = kept_candidates(candidates@);
        let ghost all = kept.map_values(
            |candidate: LinkCandidateView|
                linked(
                    revision.deep_view(),
                    candidate,
                    local_target(
                        resolver,
                        candidate,
                        earlier_link(resolver, previous.deep_view(), candidate.id),
                    ),
                    indexed_at@,
                ),
        );
        let mut relationships: Vec<MemoryRelationship> = Vec::new();
        let mut at: usize = 0;
        while at < ordered.len() && at < MAX_REPOSITORY_LINKS
            invariant
                at <= ordered.len(),
                at <= MAX_REPOSITORY_LINKS,
                resolver == self.deep_view(),
                ordered.deep_view() == values_in_order(candidates@),
                kept == kept_candidates(candidates@),
                earlier.well_formed(),
                earlier.deep_view() == match previous.deep_view() {
                    Some(previous) => if resolver.repository_snapshot_id is Some {
                        by_identity(previous.relationships)
                    } else {
                        Map::empty()
                    },
                    None => Map::empty(),
                },
                all == kept.map_values(
                    |candidate: LinkCandidateView|
                        linked(
                            revision.deep_view(),
                            candidate,
                            local_target(
                                resolver,
                                candidate,
                                earlier_link(resolver, previous.deep_view(), candidate.id),
                            ),
                            indexed_at@,
                        ),
                ),
                relationships.deep_view() =~= all.take(at as int),
            decreases ordered.len() - at,
        {
            let candidate = &ordered[at];
            assert(kept[at as int] == ordered.deep_view()[at as int]);
            assert(ordered.deep_view()[at as int] == candidate.deep_view());
            let before = earlier.get(candidate.id.as_str());
            let relationship = self.resolve_candidate(revision, candidate, before, indexed_at);
            let ghost so_far = relationships.deep_view();
            relationships.push(relationship);
            assert(relationships.deep_view() =~= so_far.push(all[at as int]));
            at += 1;
        }
        assert(all.take(at as int) =~= all);
        relationships
    }
}

fn relationships_by_identity(
    relationships: &Vec<MemoryRelationship>,
) -> (map: OrderedMap<MemoryRelationship>)
    ensures
        map.well_formed(),
        map.deep_view() == by_identity(relationships.deep_view()),
{
    let ghost models = relationships.deep_view();
    let mut map: OrderedMap<MemoryRelationship> = OrderedMap::new();
    let mut at: usize = 0;
    assert(models.take(0) =~= Seq::empty());
    while at < relationships.len()
        invariant
            at <= relationships.len(),
            models == relationships.deep_view(),
            map.well_formed(),
            map.deep_view() == by_identity(models.take(at as int)),
        decreases relationships.len() - at,
    {
        let relationship = &relationships[at];
        assert(models.take(at + 1).drop_last() =~= models.take(at as int));
        assert(models.take(at + 1).last() == relationship.deep_view());
        map.insert(relationship.id.as_str().to_owned(), relationship.copied());
        at += 1;
    }
    assert(models.take(at as int) =~= models);
    map
}

/// A link is resolved exactly where what it names is in the current snapshot: its file, or the one
/// node that its symbol names. Then it points there. What pointed somewhere before is never lost: it
/// is resolved or stale.
pub proof fn resolved_links_point_at_what_is_there(
    resolver: LocalRepositoryLinkResolverView,
    candidate: LinkCandidateView,
    previous: Option<MemoryRelationshipView>,
)
    ensures
        ({
            let link = local_target(resolver, candidate, previous);
            let current = resolver.repository_snapshot_id;
            &&& (link.resolution == MemoryResolutionState::Resolved) == (current is Some
                && match candidate.reference {
                ExplicitRepositoryReferenceView::Path(path) => has_file(
                    resolver.snapshots,
                    current->0,
                    path,
                ),
                ExplicitRepositoryReferenceView::Symbol(key) => symbol_nodes_of(
                    resolver.snapshots,
                    current->0,
                    key,
                ).len() == 1,
            })
            &&& link.resolution == MemoryResolutionState::Resolved ==> match candidate.reference {
                ExplicitRepositoryReferenceView::Path(path) => link == path_target(
                    resolver.repository,
                    path,
                    current,
                    MemoryResolutionState::Resolved,
                ),
                ExplicitRepositoryReferenceView::Symbol(key) => link == node_target(
                    resolver.repository,
                    current->0,
                    symbol_nodes_of(resolver.snapshots, current->0, key)[0],
                    key,
                    MemoryResolutionState::Resolved,
                ),
            }
            &&& found_before(previous) is Some && candidate.reference is Path ==> link.resolution
                != MemoryResolutionState::Unresolved
        }),
{
}

}
