//! Requests that reach over repository structure and project memory, and their answers.
pub mod asking;
pub mod bounds;
pub mod calls;
pub mod collecting;
pub mod context;
pub mod crossing;
pub mod cutting;
pub mod fitting;
pub mod gathering;
pub mod growing;
pub mod laws;
pub mod search;
pub mod seeds;
pub mod state;
pub mod unchanged;

use vstd::prelude::*;
use crate::diagnostics::{MemoryDiagnostic, MemoryDiagnosticView};
use crate::domain::{
    FederationPageCursor, MemoryEntityId, MemoryEntityKind, MemoryQueryText, MemoryRecordId,
    MemoryRelationship, MemoryRelationshipView, MemoryRevisionId, MemorySourceCategory,
    MemoryStatusToken, ProjectRef, ProjectRefView,
};
use crate::json::{json_object, json_string, text_json, JsonObject, ToJson};
use crate::record::Record;
use crate::query::{
    MemoryContextItem, MemoryContextItemView, MemoryContextPolicy, MemoryContextPolicyView,
    MemoryFreshnessEnvelope, MemoryFreshnessEnvelopeView, MemoryQueryBudget, MemoryQueryBudgetView,
    MemoryRevisionSelector, MemoryRevisionSelectorView, MemorySearchHit, MemorySearchHitView,
    MemoryTruncation, MemoryTruncationView,
};
use crate::repository::{
    ContextItem, ContextItemView, ContextPolicy, ContextPolicyView, ContextSeed, ContextSeedView,
    ContextSnippet, ContextSnippetView, DiagnosticsEnvelope, DiagnosticsEnvelopeView,
    FreshnessEnvelope, FreshnessEnvelopeView, PageInfo, PageInfoView, RepoPath, RepositoryRef,
    RepositoryRefView, SearchHit, SearchHitView, SnapshotId, SnapshotSelector, SnapshotSelectorView,
    TaskViewEnvelope, TaskViewEnvelopeView,
};
use crate::FEDERATION_WIRE_VERSION;

verus! {

/// Which domains a request reaches over.
#[derive(Debug, Clone, Copy, PartialEq, Eq, PartialOrd, Ord, Hash, Structural)]
pub enum ContextDomain {
    Repository,
    Memory,
    All,
}

impl DeepView for ContextDomain {
    type V = ContextDomain;

    open spec fn deep_view(&self) -> ContextDomain {
        *self
    }
}

impl ContextDomain {
    /// The name in stored and transmitted records.
    pub open spec fn name(self) -> Seq<char> {
        match self {
            ContextDomain::Repository => "repository"@,
            ContextDomain::Memory => "memory"@,
            ContextDomain::All => "all"@,
        }
    }

    /// The name in stored and transmitted records.
    pub fn as_str(self) -> (name: &'static str)
        ensures
            name@ == self.name(),
    {
        match self {
            ContextDomain::Repository => "repository",
            ContextDomain::Memory => "memory",
            ContextDomain::All => "all",
        }
    }
}

impl Record for ContextDomain {
    fn copied(&self) -> (copy: Self) {
        *self
    }

    fn same(&self, other: &Self) -> (same: bool) {
        *self == *other
    }
}

impl ToJson for ContextDomain {
    open spec fn json(model: ContextDomain) -> Seq<char> {
        json_string(model.name())
    }

    fn to_json(&self) -> (text: String) {
        text_json(self.as_str())
    }
}

/// The repository state that a request reads.
#[derive(Debug, PartialEq, Eq)]
pub struct RepositoryContextTarget {
    pub repository: RepositoryRef,
    pub snapshot: SnapshotSelector,
}

/// The model of [`RepositoryContextTarget`].
pub struct RepositoryContextTargetView {
    pub repository: RepositoryRefView,
    pub snapshot: SnapshotSelectorView,
}

impl DeepView for RepositoryContextTarget {
    type V = RepositoryContextTargetView;

    open spec fn deep_view(&self) -> RepositoryContextTargetView {
        RepositoryContextTargetView {
            repository: self.repository.deep_view(),
            snapshot: self.snapshot.deep_view(),
        }
    }
}

impl Record for RepositoryContextTarget {
    fn copied(&self) -> (copy: Self) {
        RepositoryContextTarget {
            repository: self.repository.copied(),
            snapshot: self.snapshot.copied(),
        }
    }

    fn same(&self, other: &Self) -> (same: bool) {
        self.repository.same(&other.repository)
            && self.snapshot.same(&other.snapshot)
    }
}

impl Clone for RepositoryContextTarget {
    fn clone(&self) -> (copy: Self)
        ensures
            copy.deep_view() == self.deep_view(),
    {
        self.copied()
    }
}

impl RepositoryContextTargetView {
    /// The members of the JSON object.
    pub open spec fn members(self) -> Seq<(Seq<char>, Seq<char>)> {
        seq![
            ("repository"@, <RepositoryRef as ToJson>::json(self.repository)),
            ("snapshot"@, <SnapshotSelector as ToJson>::json(self.snapshot)),
        ]
    }
}

impl ToJson for RepositoryContextTarget {
    open spec fn json(model: RepositoryContextTargetView) -> Seq<char> {
        json_object(model.members())
    }

    fn to_json(&self) -> (text: String) {
        let object = JsonObject::new()
            .member("repository", self.repository.to_json())
            .member("snapshot", self.snapshot.to_json());
        assert(object.members() =~= self.deep_view().members());
        object.finish()
    }
}

/// What a request reads of which domain.
#[derive(Debug, PartialEq, Eq)]
#[allow(inconsistent_fields)]
pub enum FederatedTarget {
    Repository {
        repository: RepositoryContextTarget,
    },
    Memory {
        memory: MemoryRevisionSelector,
    },
    All {
        repository: RepositoryContextTarget,
        memory: MemoryRevisionSelector,
    },
}

/// The model of [`FederatedTarget`].
#[allow(inconsistent_fields)]
pub enum FederatedTargetView {
    Repository {
        repository: RepositoryContextTargetView,
    },
    Memory {
        memory: MemoryRevisionSelectorView,
    },
    All {
        repository: RepositoryContextTargetView,
        memory: MemoryRevisionSelectorView,
    },
}

impl DeepView for FederatedTarget {
    type V = FederatedTargetView;

    open spec fn deep_view(&self) -> FederatedTargetView {
        match self {
            FederatedTarget::Repository { repository } => FederatedTargetView::Repository {
                repository: repository.deep_view(),
            },
            FederatedTarget::Memory { memory } => FederatedTargetView::Memory {
                memory: memory.deep_view(),
            },
            FederatedTarget::All { repository, memory } => FederatedTargetView::All {
                repository: repository.deep_view(),
                memory: memory.deep_view(),
            },
        }
    }
}

impl Record for FederatedTarget {
    fn copied(&self) -> (copy: Self) {
        match self {
            FederatedTarget::Repository { repository } => FederatedTarget::Repository {
                repository: repository.copied(),
            },
            FederatedTarget::Memory { memory } => FederatedTarget::Memory {
                memory: memory.copied(),
            },
            FederatedTarget::All { repository, memory } => FederatedTarget::All {
                repository: repository.copied(),
                memory: memory.copied(),
            },
        }
    }

    fn same(&self, other: &Self) -> (same: bool) {
        match self {
            FederatedTarget::Repository { repository: left_repository } => match other {
                FederatedTarget::Repository { repository: right_repository } => {
                    left_repository.same(right_repository)
                },
                _ => false,
            },
            FederatedTarget::Memory { memory: left_memory } => match other {
                FederatedTarget::Memory { memory: right_memory } => left_memory.same(right_memory),
                _ => false,
            },
            FederatedTarget::All {
                repository: left_repository,
                memory: left_memory,
            } => match other {
                FederatedTarget::All { repository: right_repository, memory: right_memory } => {
                    left_repository.same(right_repository) && left_memory.same(right_memory)
                },
                _ => false,
            },
        }
    }
}

impl Clone for FederatedTarget {
    fn clone(&self) -> (copy: Self)
        ensures
            copy.deep_view() == self.deep_view(),
    {
        self.copied()
    }
}

impl FederatedTargetView {
    /// The members of the JSON object.
    pub open spec fn members(self) -> Seq<(Seq<char>, Seq<char>)> {
        match self {
            FederatedTargetView::Repository { repository } => seq![
                ("domain"@, json_string("repository"@)),
                ("repository"@, <RepositoryContextTarget as ToJson>::json(repository)),
            ],
            FederatedTargetView::Memory { memory } => seq![
                ("domain"@, json_string("memory"@)),
                ("memory"@, <MemoryRevisionSelector as ToJson>::json(memory)),
            ],
            FederatedTargetView::All { repository, memory } => seq![
                ("domain"@, json_string("all"@)),
                ("repository"@, <RepositoryContextTarget as ToJson>::json(repository)),
                ("memory"@, <MemoryRevisionSelector as ToJson>::json(memory)),
            ],
        }
    }
}

impl ToJson for FederatedTarget {
    open spec fn json(model: FederatedTargetView) -> Seq<char> {
        json_object(model.members())
    }

    fn to_json(&self) -> (text: String) {
        let object = match self {
            FederatedTarget::Repository { repository } => JsonObject::new()
                .member("domain", text_json("repository"))
                .member("repository", repository.to_json()),
            FederatedTarget::Memory { memory } => JsonObject::new()
                .member("domain", text_json("memory"))
                .member("memory", memory.to_json()),
            FederatedTarget::All { repository, memory } => JsonObject::new()
                .member("domain", text_json("all"))
                .member("repository", repository.to_json())
                .member("memory", memory.to_json()),
        };
        assert(object.members() =~= self.deep_view().members());
        object.finish()
    }
}

impl FederatedTargetView {
    /// Which domains the target reaches over.
    pub open spec fn domain(self) -> ContextDomain {
        match self {
            FederatedTargetView::Repository { .. } => ContextDomain::Repository,
            FederatedTargetView::Memory { .. } => ContextDomain::Memory,
            FederatedTargetView::All { .. } => ContextDomain::All,
        }
    }
}

impl FederatedTarget {
    /// Which domains the target reaches over.
    pub fn domain(&self) -> (domain: ContextDomain)
        ensures
            domain == self.deep_view().domain(),
    {
        match self {
            FederatedTarget::Repository { .. } => ContextDomain::Repository,
            FederatedTarget::Memory { .. } => ContextDomain::Memory,
            FederatedTarget::All { .. } => ContextDomain::All,
        }
    }
}

/// What a federated request reads, and at what cost.
#[derive(Debug, PartialEq, Eq)]
pub struct FederatedScope {
    pub wire_version: u32,
    pub project: ProjectRef,
    pub target: FederatedTarget,
    pub budget: MemoryQueryBudget,
}

/// The model of [`FederatedScope`].
pub struct FederatedScopeView {
    pub wire_version: u32,
    pub project: ProjectRefView,
    pub target: FederatedTargetView,
    pub budget: MemoryQueryBudgetView,
}

impl DeepView for FederatedScope {
    type V = FederatedScopeView;

    open spec fn deep_view(&self) -> FederatedScopeView {
        FederatedScopeView {
            wire_version: self.wire_version.deep_view(),
            project: self.project.deep_view(),
            target: self.target.deep_view(),
            budget: self.budget.deep_view(),
        }
    }
}

impl Record for FederatedScope {
    fn copied(&self) -> (copy: Self) {
        FederatedScope {
            wire_version: self.wire_version.copied(),
            project: self.project.copied(),
            target: self.target.copied(),
            budget: self.budget.copied(),
        }
    }

    fn same(&self, other: &Self) -> (same: bool) {
        self.wire_version.same(&other.wire_version)
            && self.project.same(&other.project)
            && self.target.same(&other.target)
            && self.budget.same(&other.budget)
    }
}

impl Clone for FederatedScope {
    fn clone(&self) -> (copy: Self)
        ensures
            copy.deep_view() == self.deep_view(),
    {
        self.copied()
    }
}

impl FederatedScopeView {
    /// The members of the JSON object.
    pub open spec fn members(self) -> Seq<(Seq<char>, Seq<char>)> {
        seq![
            ("wire_version"@, <u32 as ToJson>::json(self.wire_version)),
            ("project"@, <ProjectRef as ToJson>::json(self.project)),
            ("target"@, <FederatedTarget as ToJson>::json(self.target)),
            ("budget"@, <MemoryQueryBudget as ToJson>::json(self.budget)),
        ]
    }
}

impl ToJson for FederatedScope {
    open spec fn json(model: FederatedScopeView) -> Seq<char> {
        json_object(model.members())
    }

    fn to_json(&self) -> (text: String) {
        let object = JsonObject::new()
            .member("wire_version", self.wire_version.to_json())
            .member("project", self.project.to_json())
            .member("target", self.target.to_json())
            .member("budget", self.budget.to_json());
        assert(object.members() =~= self.deep_view().members());
        object.finish()
    }
}

impl FederatedScope {
    /// The scope in the current version.
    pub fn current(
        project: ProjectRef,
        target: FederatedTarget,
        budget: MemoryQueryBudget,
    ) -> (scope: Self)
        ensures
            scope.deep_view() == (FederatedScopeView {
                wire_version: FEDERATION_WIRE_VERSION,
                project: project.deep_view(),
                target: target.deep_view(),
                budget: budget.deep_view(),
            }),
    {
        FederatedScope { wire_version: FEDERATION_WIRE_VERSION, project, target, budget }
    }
}

/// A search over the domains.
#[derive(Debug, PartialEq, Eq)]
pub struct FederatedSearchRequest {
    pub scope: FederatedScope,
    pub text: MemoryQueryText,
    pub repository_kinds: Vec<MemoryStatusToken>,
    pub repository_paths: Vec<RepoPath>,
    pub memory_kinds: Vec<MemoryEntityKind>,
    pub memory_sources: Vec<MemorySourceCategory>,
    pub cursor: Option<FederationPageCursor>,
}

/// The model of [`FederatedSearchRequest`].
pub struct FederatedSearchRequestView {
    pub scope: FederatedScopeView,
    pub text: Seq<char>,
    pub repository_kinds: Seq<Seq<char>>,
    pub repository_paths: Seq<Seq<char>>,
    pub memory_kinds: Seq<MemoryEntityKind>,
    pub memory_sources: Seq<MemorySourceCategory>,
    pub cursor: Option<Seq<char>>,
}

impl DeepView for FederatedSearchRequest {
    type V = FederatedSearchRequestView;

    open spec fn deep_view(&self) -> FederatedSearchRequestView {
        FederatedSearchRequestView {
            scope: self.scope.deep_view(),
            text: self.text.deep_view(),
            repository_kinds: self.repository_kinds.deep_view(),
            repository_paths: self.repository_paths.deep_view(),
            memory_kinds: self.memory_kinds.deep_view(),
            memory_sources: self.memory_sources.deep_view(),
            cursor: self.cursor.deep_view(),
        }
    }
}

impl Record for FederatedSearchRequest {
    fn copied(&self) -> (copy: Self) {
        FederatedSearchRequest {
            scope: self.scope.copied(),
            text: self.text.copied(),
            repository_kinds: self.repository_kinds.copied(),
            repository_paths: self.repository_paths.copied(),
            memory_kinds: self.memory_kinds.copied(),
            memory_sources: self.memory_sources.copied(),
            cursor: self.cursor.copied(),
        }
    }

    fn same(&self, other: &Self) -> (same: bool) {
        self.scope.same(&other.scope)
            && self.text.same(&other.text)
            && self.repository_kinds.same(&other.repository_kinds)
            && self.repository_paths.same(&other.repository_paths)
            && self.memory_kinds.same(&other.memory_kinds)
            && self.memory_sources.same(&other.memory_sources)
            && self.cursor.same(&other.cursor)
    }
}

impl Clone for FederatedSearchRequest {
    fn clone(&self) -> (copy: Self)
        ensures
            copy.deep_view() == self.deep_view(),
    {
        self.copied()
    }
}

impl FederatedSearchRequestView {
    /// The members of the JSON object.
    pub open spec fn members(self) -> Seq<(Seq<char>, Seq<char>)> {
        seq![
            ("scope"@, <FederatedScope as ToJson>::json(self.scope)),
            ("text"@, <MemoryQueryText as ToJson>::json(self.text)),
            ("repository_kinds"@, <Vec<MemoryStatusToken> as ToJson>::json(self.repository_kinds)),
            ("repository_paths"@, <Vec<RepoPath> as ToJson>::json(self.repository_paths)),
            ("memory_kinds"@, <Vec<MemoryEntityKind> as ToJson>::json(self.memory_kinds)),
            ("memory_sources"@, <Vec<MemorySourceCategory> as ToJson>::json(self.memory_sources)),
            ("cursor"@, <Option<FederationPageCursor> as ToJson>::json(self.cursor)),
        ]
    }
}

impl ToJson for FederatedSearchRequest {
    open spec fn json(model: FederatedSearchRequestView) -> Seq<char> {
        json_object(model.members())
    }

    fn to_json(&self) -> (text: String) {
        let object = JsonObject::new()
            .member("scope", self.scope.to_json())
            .member("text", self.text.to_json())
            .member("repository_kinds", self.repository_kinds.to_json())
            .member("repository_paths", self.repository_paths.to_json())
            .member("memory_kinds", self.memory_kinds.to_json())
            .member("memory_sources", self.memory_sources.to_json())
            .member("cursor", self.cursor.to_json());
        assert(object.members() =~= self.deep_view().members());
        object.finish()
    }
}

/// Where federated context starts.
#[derive(Debug, PartialEq, Eq)]
#[allow(inconsistent_fields)]
pub enum FederatedContextSeed {
    Repository(ContextSeed),
    MemoryEntity(MemoryEntityId),
    Milestone(MemoryRecordId),
    Task(MemoryRecordId),
    Run(MemoryRecordId),
}

/// The model of [`FederatedContextSeed`].
#[allow(inconsistent_fields)]
pub enum FederatedContextSeedView {
    Repository(ContextSeedView),
    MemoryEntity(Seq<char>),
    Milestone(Seq<char>),
    Task(Seq<char>),
    Run(Seq<char>),
}

impl DeepView for FederatedContextSeed {
    type V = FederatedContextSeedView;

    open spec fn deep_view(&self) -> FederatedContextSeedView {
        match self {
            FederatedContextSeed::Repository(value) => {
                FederatedContextSeedView::Repository(value.deep_view())
            },
            FederatedContextSeed::MemoryEntity(value) => {
                FederatedContextSeedView::MemoryEntity(value.deep_view())
            },
            FederatedContextSeed::Milestone(value) => {
                FederatedContextSeedView::Milestone(value.deep_view())
            },
            FederatedContextSeed::Task(value) => FederatedContextSeedView::Task(value.deep_view()),
            FederatedContextSeed::Run(value) => FederatedContextSeedView::Run(value.deep_view()),
        }
    }
}

impl Record for FederatedContextSeed {
    fn copied(&self) -> (copy: Self) {
        match self {
            FederatedContextSeed::Repository(value) => {
                FederatedContextSeed::Repository(value.copied())
            },
            FederatedContextSeed::MemoryEntity(value) => {
                FederatedContextSeed::MemoryEntity(value.copied())
            },
            FederatedContextSeed::Milestone(value) => {
                FederatedContextSeed::Milestone(value.copied())
            },
            FederatedContextSeed::Task(value) => FederatedContextSeed::Task(value.copied()),
            FederatedContextSeed::Run(value) => FederatedContextSeed::Run(value.copied()),
        }
    }

    fn same(&self, other: &Self) -> (same: bool) {
        match self {
            FederatedContextSeed::Repository(left) => match other {
                FederatedContextSeed::Repository(right) => left.same(right),
                _ => false,
            },
            FederatedContextSeed::MemoryEntity(left) => match other {
                FederatedContextSeed::MemoryEntity(right) => left.same(right),
                _ => false,
            },
            FederatedContextSeed::Milestone(left) => match other {
                FederatedContextSeed::Milestone(right) => left.same(right),
                _ => false,
            },
            FederatedContextSeed::Task(left) => match other {
                FederatedContextSeed::Task(right) => left.same(right),
                _ => false,
            },
            FederatedContextSeed::Run(left) => match other {
                FederatedContextSeed::Run(right) => left.same(right),
                _ => false,
            },
        }
    }
}

impl Clone for FederatedContextSeed {
    fn clone(&self) -> (copy: Self)
        ensures
            copy.deep_view() == self.deep_view(),
    {
        self.copied()
    }
}

impl FederatedContextSeedView {
    /// The members of the JSON object.
    pub open spec fn members(self) -> Seq<(Seq<char>, Seq<char>)> {
        match self {
            FederatedContextSeedView::Repository(value) => seq![
                ("domain"@, json_string("repository"@)),
                ("seed"@, <ContextSeed as ToJson>::json(value)),
            ],
            FederatedContextSeedView::MemoryEntity(value) => seq![
                ("domain"@, json_string("memory_entity"@)),
                ("seed"@, <MemoryEntityId as ToJson>::json(value)),
            ],
            FederatedContextSeedView::Milestone(value) => seq![
                ("domain"@, json_string("milestone"@)),
                ("seed"@, <MemoryRecordId as ToJson>::json(value)),
            ],
            FederatedContextSeedView::Task(value) => seq![
                ("domain"@, json_string("task"@)),
                ("seed"@, <MemoryRecordId as ToJson>::json(value)),
            ],
            FederatedContextSeedView::Run(value) => seq![
                ("domain"@, json_string("run"@)),
                ("seed"@, <MemoryRecordId as ToJson>::json(value)),
            ],
        }
    }
}

impl ToJson for FederatedContextSeed {
    open spec fn json(model: FederatedContextSeedView) -> Seq<char> {
        json_object(model.members())
    }

    fn to_json(&self) -> (text: String) {
        let object = match self {
            FederatedContextSeed::Repository(value) => JsonObject::new()
                .member("domain", text_json("repository"))
                .member("seed", value.to_json()),
            FederatedContextSeed::MemoryEntity(value) => JsonObject::new()
                .member("domain", text_json("memory_entity"))
                .member("seed", value.to_json()),
            FederatedContextSeed::Milestone(value) => JsonObject::new()
                .member("domain", text_json("milestone"))
                .member("seed", value.to_json()),
            FederatedContextSeed::Task(value) => JsonObject::new()
                .member("domain", text_json("task"))
                .member("seed", value.to_json()),
            FederatedContextSeed::Run(value) => JsonObject::new()
                .member("domain", text_json("run"))
                .member("seed", value.to_json()),
        };
        assert(object.members() =~= self.deep_view().members());
        object.finish()
    }
}

/// A question for context over the domains.
#[derive(Debug, PartialEq, Eq)]
pub struct FederatedContextRequest {
    pub scope: FederatedScope,
    pub seeds: Vec<FederatedContextSeed>,
    pub repository_policy: ContextPolicy,
    pub memory_policy: MemoryContextPolicy,
    pub cursor: Option<FederationPageCursor>,
}

/// The model of [`FederatedContextRequest`].
pub struct FederatedContextRequestView {
    pub scope: FederatedScopeView,
    pub seeds: Seq<FederatedContextSeedView>,
    pub repository_policy: ContextPolicyView,
    pub memory_policy: MemoryContextPolicyView,
    pub cursor: Option<Seq<char>>,
}

impl DeepView for FederatedContextRequest {
    type V = FederatedContextRequestView;

    open spec fn deep_view(&self) -> FederatedContextRequestView {
        FederatedContextRequestView {
            scope: self.scope.deep_view(),
            seeds: self.seeds.deep_view(),
            repository_policy: self.repository_policy.deep_view(),
            memory_policy: self.memory_policy.deep_view(),
            cursor: self.cursor.deep_view(),
        }
    }
}

impl Record for FederatedContextRequest {
    fn copied(&self) -> (copy: Self) {
        FederatedContextRequest {
            scope: self.scope.copied(),
            seeds: self.seeds.copied(),
            repository_policy: self.repository_policy.copied(),
            memory_policy: self.memory_policy.copied(),
            cursor: self.cursor.copied(),
        }
    }

    fn same(&self, other: &Self) -> (same: bool) {
        self.scope.same(&other.scope)
            && self.seeds.same(&other.seeds)
            && self.repository_policy.same(&other.repository_policy)
            && self.memory_policy.same(&other.memory_policy)
            && self.cursor.same(&other.cursor)
    }
}

impl Clone for FederatedContextRequest {
    fn clone(&self) -> (copy: Self)
        ensures
            copy.deep_view() == self.deep_view(),
    {
        self.copied()
    }
}

impl FederatedContextRequestView {
    /// The members of the JSON object.
    pub open spec fn members(self) -> Seq<(Seq<char>, Seq<char>)> {
        seq![
            ("scope"@, <FederatedScope as ToJson>::json(self.scope)),
            ("seeds"@, <Vec<FederatedContextSeed> as ToJson>::json(self.seeds)),
            ("repository_policy"@, <ContextPolicy as ToJson>::json(self.repository_policy)),
            ("memory_policy"@, <MemoryContextPolicy as ToJson>::json(self.memory_policy)),
            ("cursor"@, <Option<FederationPageCursor> as ToJson>::json(self.cursor)),
        ]
    }
}

impl ToJson for FederatedContextRequest {
    open spec fn json(model: FederatedContextRequestView) -> Seq<char> {
        json_object(model.members())
    }

    fn to_json(&self) -> (text: String) {
        let object = JsonObject::new()
            .member("scope", self.scope.to_json())
            .member("seeds", self.seeds.to_json())
            .member("repository_policy", self.repository_policy.to_json())
            .member("memory_policy", self.memory_policy.to_json())
            .member("cursor", self.cursor.to_json());
        assert(object.members() =~= self.deep_view().members());
        object.finish()
    }
}

/// Where a federated answer continues.
#[derive(Debug, PartialEq, Eq)]
pub struct FederatedPageInfo {
    pub next_cursor: Option<FederationPageCursor>,
    pub truncation: Option<MemoryTruncation>,
}

/// The model of [`FederatedPageInfo`].
pub struct FederatedPageInfoView {
    pub next_cursor: Option<Seq<char>>,
    pub truncation: Option<MemoryTruncationView>,
}

impl DeepView for FederatedPageInfo {
    type V = FederatedPageInfoView;

    open spec fn deep_view(&self) -> FederatedPageInfoView {
        FederatedPageInfoView {
            next_cursor: self.next_cursor.deep_view(),
            truncation: self.truncation.deep_view(),
        }
    }
}

impl Record for FederatedPageInfo {
    fn copied(&self) -> (copy: Self) {
        FederatedPageInfo {
            next_cursor: self.next_cursor.copied(),
            truncation: self.truncation.copied(),
        }
    }

    fn same(&self, other: &Self) -> (same: bool) {
        self.next_cursor.same(&other.next_cursor)
            && self.truncation.same(&other.truncation)
    }
}

impl Clone for FederatedPageInfo {
    fn clone(&self) -> (copy: Self)
        ensures
            copy.deep_view() == self.deep_view(),
    {
        self.copied()
    }
}

impl FederatedPageInfoView {
    /// The members of the JSON object.
    pub open spec fn members(self) -> Seq<(Seq<char>, Seq<char>)> {
        seq![
            ("next_cursor"@, <Option<FederationPageCursor> as ToJson>::json(self.next_cursor)),
            ("truncation"@, <Option<MemoryTruncation> as ToJson>::json(self.truncation)),
        ]
    }
}

impl ToJson for FederatedPageInfo {
    open spec fn json(model: FederatedPageInfoView) -> Seq<char> {
        json_object(model.members())
    }

    fn to_json(&self) -> (text: String) {
        let object = JsonObject::new()
            .member("next_cursor", self.next_cursor.to_json())
            .member("truncation", self.truncation.to_json());
        assert(object.members() =~= self.deep_view().members());
        object.finish()
    }
}

/// The repository state that an answer rests on.
#[derive(Debug, PartialEq, Eq)]
pub struct RepositoryDomainState {
    pub repository: RepositoryRef,
    pub snapshot_id: Option<SnapshotId>,
    pub task_view: Option<TaskViewEnvelope>,
    pub freshness: FreshnessEnvelope,
    pub diagnostics: DiagnosticsEnvelope,
    pub page: PageInfo,
}

/// The model of [`RepositoryDomainState`].
pub struct RepositoryDomainStateView {
    pub repository: RepositoryRefView,
    pub snapshot_id: Option<Seq<char>>,
    pub task_view: Option<TaskViewEnvelopeView>,
    pub freshness: FreshnessEnvelopeView,
    pub diagnostics: DiagnosticsEnvelopeView,
    pub page: PageInfoView,
}

impl DeepView for RepositoryDomainState {
    type V = RepositoryDomainStateView;

    open spec fn deep_view(&self) -> RepositoryDomainStateView {
        RepositoryDomainStateView {
            repository: self.repository.deep_view(),
            snapshot_id: self.snapshot_id.deep_view(),
            task_view: self.task_view.deep_view(),
            freshness: self.freshness.deep_view(),
            diagnostics: self.diagnostics.deep_view(),
            page: self.page.deep_view(),
        }
    }
}

impl Record for RepositoryDomainState {
    fn copied(&self) -> (copy: Self) {
        RepositoryDomainState {
            repository: self.repository.copied(),
            snapshot_id: self.snapshot_id.copied(),
            task_view: self.task_view.copied(),
            freshness: self.freshness.copied(),
            diagnostics: self.diagnostics.copied(),
            page: self.page.copied(),
        }
    }

    fn same(&self, other: &Self) -> (same: bool) {
        self.repository.same(&other.repository)
            && self.snapshot_id.same(&other.snapshot_id)
            && self.task_view.same(&other.task_view)
            && self.freshness.same(&other.freshness)
            && self.diagnostics.same(&other.diagnostics)
            && self.page.same(&other.page)
    }
}

impl Clone for RepositoryDomainState {
    fn clone(&self) -> (copy: Self)
        ensures
            copy.deep_view() == self.deep_view(),
    {
        self.copied()
    }
}

impl RepositoryDomainStateView {
    /// The members of the JSON object.
    pub open spec fn members(self) -> Seq<(Seq<char>, Seq<char>)> {
        seq![
            ("repository"@, <RepositoryRef as ToJson>::json(self.repository)),
            ("snapshot_id"@, <Option<SnapshotId> as ToJson>::json(self.snapshot_id)),
            ("task_view"@, <Option<TaskViewEnvelope> as ToJson>::json(self.task_view)),
            ("freshness"@, <FreshnessEnvelope as ToJson>::json(self.freshness)),
            ("diagnostics"@, <DiagnosticsEnvelope as ToJson>::json(self.diagnostics)),
            ("page"@, <PageInfo as ToJson>::json(self.page)),
        ]
    }
}

impl ToJson for RepositoryDomainState {
    open spec fn json(model: RepositoryDomainStateView) -> Seq<char> {
        json_object(model.members())
    }

    fn to_json(&self) -> (text: String) {
        let object = JsonObject::new()
            .member("repository", self.repository.to_json())
            .member("snapshot_id", self.snapshot_id.to_json())
            .member("task_view", self.task_view.to_json())
            .member("freshness", self.freshness.to_json())
            .member("diagnostics", self.diagnostics.to_json())
            .member("page", self.page.to_json());
        assert(object.members() =~= self.deep_view().members());
        object.finish()
    }
}

/// The memory state that an answer rests on.
#[derive(Debug, PartialEq, Eq)]
pub struct MemoryDomainState {
    pub revision_id: Option<MemoryRevisionId>,
    pub freshness: MemoryFreshnessEnvelope,
    pub authorized_sources: Vec<MemorySourceCategory>,
    pub diagnostics: Vec<MemoryDiagnostic>,
    pub page: FederatedPageInfo,
}

/// The model of [`MemoryDomainState`].
pub struct MemoryDomainStateView {
    pub revision_id: Option<Seq<char>>,
    pub freshness: MemoryFreshnessEnvelopeView,
    pub authorized_sources: Seq<MemorySourceCategory>,
    pub diagnostics: Seq<MemoryDiagnosticView>,
    pub page: FederatedPageInfoView,
}

impl DeepView for MemoryDomainState {
    type V = MemoryDomainStateView;

    open spec fn deep_view(&self) -> MemoryDomainStateView {
        MemoryDomainStateView {
            revision_id: self.revision_id.deep_view(),
            freshness: self.freshness.deep_view(),
            authorized_sources: self.authorized_sources.deep_view(),
            diagnostics: self.diagnostics.deep_view(),
            page: self.page.deep_view(),
        }
    }
}

impl Record for MemoryDomainState {
    fn copied(&self) -> (copy: Self) {
        MemoryDomainState {
            revision_id: self.revision_id.copied(),
            freshness: self.freshness.copied(),
            authorized_sources: self.authorized_sources.copied(),
            diagnostics: self.diagnostics.copied(),
            page: self.page.copied(),
        }
    }

    fn same(&self, other: &Self) -> (same: bool) {
        self.revision_id.same(&other.revision_id)
            && self.freshness.same(&other.freshness)
            && self.authorized_sources.same(&other.authorized_sources)
            && self.diagnostics.same(&other.diagnostics)
            && self.page.same(&other.page)
    }
}

impl Clone for MemoryDomainState {
    fn clone(&self) -> (copy: Self)
        ensures
            copy.deep_view() == self.deep_view(),
    {
        self.copied()
    }
}

impl MemoryDomainStateView {
    /// The members of the JSON object.
    pub open spec fn members(self) -> Seq<(Seq<char>, Seq<char>)> {
        seq![
            ("revision_id"@, <Option<MemoryRevisionId> as ToJson>::json(self.revision_id)),
            ("freshness"@, <MemoryFreshnessEnvelope as ToJson>::json(self.freshness)),
            ("authorized_sources"@, <Vec<MemorySourceCategory> as ToJson>::json(self.authorized_sources)),
            ("diagnostics"@, <Vec<MemoryDiagnostic> as ToJson>::json(self.diagnostics)),
            ("page"@, <FederatedPageInfo as ToJson>::json(self.page)),
        ]
    }
}

impl ToJson for MemoryDomainState {
    open spec fn json(model: MemoryDomainStateView) -> Seq<char> {
        json_object(model.members())
    }

    fn to_json(&self) -> (text: String) {
        let object = JsonObject::new()
            .member("revision_id", self.revision_id.to_json())
            .member("freshness", self.freshness.to_json())
            .member("authorized_sources", self.authorized_sources.to_json())
            .member("diagnostics", self.diagnostics.to_json())
            .member("page", self.page.to_json());
        assert(object.members() =~= self.deep_view().members());
        object.finish()
    }
}

/// Something that a federated search found.
#[derive(Debug, PartialEq, Eq)]
#[allow(inconsistent_fields)]
pub enum FederatedSearchResult {
    Repository(SearchHit),
    Memory(MemorySearchHit),
}

/// The model of [`FederatedSearchResult`].
#[allow(inconsistent_fields)]
pub enum FederatedSearchResultView {
    Repository(SearchHitView),
    Memory(MemorySearchHitView),
}

impl DeepView for FederatedSearchResult {
    type V = FederatedSearchResultView;

    open spec fn deep_view(&self) -> FederatedSearchResultView {
        match self {
            FederatedSearchResult::Repository(value) => {
                FederatedSearchResultView::Repository(value.deep_view())
            },
            FederatedSearchResult::Memory(value) => {
                FederatedSearchResultView::Memory(value.deep_view())
            },
        }
    }
}

impl Record for FederatedSearchResult {
    fn copied(&self) -> (copy: Self) {
        match self {
            FederatedSearchResult::Repository(value) => {
                FederatedSearchResult::Repository(value.copied())
            },
            FederatedSearchResult::Memory(value) => FederatedSearchResult::Memory(value.copied()),
        }
    }

    fn same(&self, other: &Self) -> (same: bool) {
        match self {
            FederatedSearchResult::Repository(left) => match other {
                FederatedSearchResult::Repository(right) => left.same(right),
                _ => false,
            },
            FederatedSearchResult::Memory(left) => match other {
                FederatedSearchResult::Memory(right) => left.same(right),
                _ => false,
            },
        }
    }
}

impl Clone for FederatedSearchResult {
    fn clone(&self) -> (copy: Self)
        ensures
            copy.deep_view() == self.deep_view(),
    {
        self.copied()
    }
}

impl FederatedSearchResultView {
    /// The members of the JSON object.
    pub open spec fn members(self) -> Seq<(Seq<char>, Seq<char>)> {
        match self {
            FederatedSearchResultView::Repository(value) => seq![
                ("domain"@, json_string("repository"@)),
                ("result"@, <SearchHit as ToJson>::json(value)),
            ],
            FederatedSearchResultView::Memory(value) => seq![
                ("domain"@, json_string("memory"@)),
                ("result"@, <MemorySearchHit as ToJson>::json(value)),
            ],
        }
    }
}

impl ToJson for FederatedSearchResult {
    open spec fn json(model: FederatedSearchResultView) -> Seq<char> {
        json_object(model.members())
    }

    fn to_json(&self) -> (text: String) {
        let object = match self {
            FederatedSearchResult::Repository(value) => JsonObject::new()
                .member("domain", text_json("repository"))
                .member("result", value.to_json()),
            FederatedSearchResult::Memory(value) => JsonObject::new()
                .member("domain", text_json("memory"))
                .member("result", value.to_json()),
        };
        assert(object.members() =~= self.deep_view().members());
        object.finish()
    }
}

/// What a federated search found.
#[derive(Debug, PartialEq, Eq)]
pub struct FederatedSearchResponse {
    pub wire_version: u32,
    pub project: ProjectRef,
    pub requested_domain: ContextDomain,
    pub repository: Option<RepositoryDomainState>,
    pub memory: Option<MemoryDomainState>,
    pub federation_diagnostics: Vec<MemoryDiagnostic>,
    pub page: FederatedPageInfo,
    pub results: Vec<FederatedSearchResult>,
}

/// The model of [`FederatedSearchResponse`].
pub struct FederatedSearchResponseView {
    pub wire_version: u32,
    pub project: ProjectRefView,
    pub requested_domain: ContextDomain,
    pub repository: Option<RepositoryDomainStateView>,
    pub memory: Option<MemoryDomainStateView>,
    pub federation_diagnostics: Seq<MemoryDiagnosticView>,
    pub page: FederatedPageInfoView,
    pub results: Seq<FederatedSearchResultView>,
}

impl DeepView for FederatedSearchResponse {
    type V = FederatedSearchResponseView;

    open spec fn deep_view(&self) -> FederatedSearchResponseView {
        FederatedSearchResponseView {
            wire_version: self.wire_version.deep_view(),
            project: self.project.deep_view(),
            requested_domain: self.requested_domain.deep_view(),
            repository: self.repository.deep_view(),
            memory: self.memory.deep_view(),
            federation_diagnostics: self.federation_diagnostics.deep_view(),
            page: self.page.deep_view(),
            results: self.results.deep_view(),
        }
    }
}

impl Record for FederatedSearchResponse {
    fn copied(&self) -> (copy: Self) {
        FederatedSearchResponse {
            wire_version: self.wire_version.copied(),
            project: self.project.copied(),
            requested_domain: self.requested_domain.copied(),
            repository: self.repository.copied(),
            memory: self.memory.copied(),
            federation_diagnostics: self.federation_diagnostics.copied(),
            page: self.page.copied(),
            results: self.results.copied(),
        }
    }

    fn same(&self, other: &Self) -> (same: bool) {
        self.wire_version.same(&other.wire_version)
            && self.project.same(&other.project)
            && self.requested_domain.same(&other.requested_domain)
            && self.repository.same(&other.repository)
            && self.memory.same(&other.memory)
            && self.federation_diagnostics.same(&other.federation_diagnostics)
            && self.page.same(&other.page)
            && self.results.same(&other.results)
    }
}

impl Clone for FederatedSearchResponse {
    fn clone(&self) -> (copy: Self)
        ensures
            copy.deep_view() == self.deep_view(),
    {
        self.copied()
    }
}

impl FederatedSearchResponseView {
    /// The members of the JSON object.
    pub open spec fn members(self) -> Seq<(Seq<char>, Seq<char>)> {
        seq![
            ("wire_version"@, <u32 as ToJson>::json(self.wire_version)),
            ("project"@, <ProjectRef as ToJson>::json(self.project)),
            ("requested_domain"@, <ContextDomain as ToJson>::json(self.requested_domain)),
            ("repository"@, <Option<RepositoryDomainState> as ToJson>::json(self.repository)),
            ("memory"@, <Option<MemoryDomainState> as ToJson>::json(self.memory)),
            ("federation_diagnostics"@, <Vec<MemoryDiagnostic> as ToJson>::json(self.federation_diagnostics)),
            ("page"@, <FederatedPageInfo as ToJson>::json(self.page)),
            ("results"@, <Vec<FederatedSearchResult> as ToJson>::json(self.results)),
        ]
    }
}

impl ToJson for FederatedSearchResponse {
    open spec fn json(model: FederatedSearchResponseView) -> Seq<char> {
        json_object(model.members())
    }

    fn to_json(&self) -> (text: String) {
        let object = JsonObject::new()
            .member("wire_version", self.wire_version.to_json())
            .member("project", self.project.to_json())
            .member("requested_domain", self.requested_domain.to_json())
            .member("repository", self.repository.to_json())
            .member("memory", self.memory.to_json())
            .member("federation_diagnostics", self.federation_diagnostics.to_json())
            .member("page", self.page.to_json())
            .member("results", self.results.to_json());
        assert(object.members() =~= self.deep_view().members());
        object.finish()
    }
}

/// Something of a federated context.
#[derive(Debug, PartialEq, Eq)]
#[allow(inconsistent_fields)]
pub enum FederatedContextItem {
    Repository(ContextItem),
    Memory(MemoryContextItem),
}

/// The model of [`FederatedContextItem`].
#[allow(inconsistent_fields)]
pub enum FederatedContextItemView {
    Repository(ContextItemView),
    Memory(MemoryContextItemView),
}

impl DeepView for FederatedContextItem {
    type V = FederatedContextItemView;

    open spec fn deep_view(&self) -> FederatedContextItemView {
        match self {
            FederatedContextItem::Repository(value) => {
                FederatedContextItemView::Repository(value.deep_view())
            },
            FederatedContextItem::Memory(value) => {
                FederatedContextItemView::Memory(value.deep_view())
            },
        }
    }
}

impl Record for FederatedContextItem {
    fn copied(&self) -> (copy: Self) {
        match self {
            FederatedContextItem::Repository(value) => {
                FederatedContextItem::Repository(value.copied())
            },
            FederatedContextItem::Memory(value) => FederatedContextItem::Memory(value.copied()),
        }
    }

    fn same(&self, other: &Self) -> (same: bool) {
        match self {
            FederatedContextItem::Repository(left) => match other {
                FederatedContextItem::Repository(right) => left.same(right),
                _ => false,
            },
            FederatedContextItem::Memory(left) => match other {
                FederatedContextItem::Memory(right) => left.same(right),
                _ => false,
            },
        }
    }
}

impl Clone for FederatedContextItem {
    fn clone(&self) -> (copy: Self)
        ensures
            copy.deep_view() == self.deep_view(),
    {
        self.copied()
    }
}

impl FederatedContextItemView {
    /// The members of the JSON object.
    pub open spec fn members(self) -> Seq<(Seq<char>, Seq<char>)> {
        match self {
            FederatedContextItemView::Repository(value) => seq![
                ("domain"@, json_string("repository"@)),
                ("item"@, <ContextItem as ToJson>::json(value)),
            ],
            FederatedContextItemView::Memory(value) => seq![
                ("domain"@, json_string("memory"@)),
                ("item"@, <MemoryContextItem as ToJson>::json(value)),
            ],
        }
    }
}

impl ToJson for FederatedContextItem {
    open spec fn json(model: FederatedContextItemView) -> Seq<char> {
        json_object(model.members())
    }

    fn to_json(&self) -> (text: String) {
        let object = match self {
            FederatedContextItem::Repository(value) => JsonObject::new()
                .member("domain", text_json("repository"))
                .member("item", value.to_json()),
            FederatedContextItem::Memory(value) => JsonObject::new()
                .member("domain", text_json("memory"))
                .member("item", value.to_json()),
        };
        assert(object.members() =~= self.deep_view().members());
        object.finish()
    }
}

/// The context around some seeds, over the domains.
#[derive(Debug, PartialEq, Eq)]
pub struct FederatedContextResponse {
    pub wire_version: u32,
    pub project: ProjectRef,
    pub requested_domain: ContextDomain,
    pub repository: Option<RepositoryDomainState>,
    pub memory: Option<MemoryDomainState>,
    pub federation_diagnostics: Vec<MemoryDiagnostic>,
    pub page: FederatedPageInfo,
    pub items: Vec<FederatedContextItem>,
    pub memory_relationships: Vec<MemoryRelationship>,
    pub cross_domain_links: Vec<MemoryRelationship>,
    pub repository_snippets: Vec<ContextSnippet>,
}

/// The model of [`FederatedContextResponse`].
pub struct FederatedContextResponseView {
    pub wire_version: u32,
    pub project: ProjectRefView,
    pub requested_domain: ContextDomain,
    pub repository: Option<RepositoryDomainStateView>,
    pub memory: Option<MemoryDomainStateView>,
    pub federation_diagnostics: Seq<MemoryDiagnosticView>,
    pub page: FederatedPageInfoView,
    pub items: Seq<FederatedContextItemView>,
    pub memory_relationships: Seq<MemoryRelationshipView>,
    pub cross_domain_links: Seq<MemoryRelationshipView>,
    pub repository_snippets: Seq<ContextSnippetView>,
}

impl DeepView for FederatedContextResponse {
    type V = FederatedContextResponseView;

    open spec fn deep_view(&self) -> FederatedContextResponseView {
        FederatedContextResponseView {
            wire_version: self.wire_version.deep_view(),
            project: self.project.deep_view(),
            requested_domain: self.requested_domain.deep_view(),
            repository: self.repository.deep_view(),
            memory: self.memory.deep_view(),
            federation_diagnostics: self.federation_diagnostics.deep_view(),
            page: self.page.deep_view(),
            items: self.items.deep_view(),
            memory_relationships: self.memory_relationships.deep_view(),
            cross_domain_links: self.cross_domain_links.deep_view(),
            repository_snippets: self.repository_snippets.deep_view(),
        }
    }
}

impl Record for FederatedContextResponse {
    fn copied(&self) -> (copy: Self) {
        FederatedContextResponse {
            wire_version: self.wire_version.copied(),
            project: self.project.copied(),
            requested_domain: self.requested_domain.copied(),
            repository: self.repository.copied(),
            memory: self.memory.copied(),
            federation_diagnostics: self.federation_diagnostics.copied(),
            page: self.page.copied(),
            items: self.items.copied(),
            memory_relationships: self.memory_relationships.copied(),
            cross_domain_links: self.cross_domain_links.copied(),
            repository_snippets: self.repository_snippets.copied(),
        }
    }

    fn same(&self, other: &Self) -> (same: bool) {
        self.wire_version.same(&other.wire_version)
            && self.project.same(&other.project)
            && self.requested_domain.same(&other.requested_domain)
            && self.repository.same(&other.repository)
            && self.memory.same(&other.memory)
            && self.federation_diagnostics.same(&other.federation_diagnostics)
            && self.page.same(&other.page)
            && self.items.same(&other.items)
            && self.memory_relationships.same(&other.memory_relationships)
            && self.cross_domain_links.same(&other.cross_domain_links)
            && self.repository_snippets.same(&other.repository_snippets)
    }
}

impl Clone for FederatedContextResponse {
    fn clone(&self) -> (copy: Self)
        ensures
            copy.deep_view() == self.deep_view(),
    {
        self.copied()
    }
}

impl FederatedContextResponseView {
    /// The members of the JSON object.
    pub open spec fn members(self) -> Seq<(Seq<char>, Seq<char>)> {
        seq![
            ("wire_version"@, <u32 as ToJson>::json(self.wire_version)),
            ("project"@, <ProjectRef as ToJson>::json(self.project)),
            ("requested_domain"@, <ContextDomain as ToJson>::json(self.requested_domain)),
            ("repository"@, <Option<RepositoryDomainState> as ToJson>::json(self.repository)),
            ("memory"@, <Option<MemoryDomainState> as ToJson>::json(self.memory)),
            ("federation_diagnostics"@, <Vec<MemoryDiagnostic> as ToJson>::json(self.federation_diagnostics)),
            ("page"@, <FederatedPageInfo as ToJson>::json(self.page)),
            ("items"@, <Vec<FederatedContextItem> as ToJson>::json(self.items)),
            ("memory_relationships"@, <Vec<MemoryRelationship> as ToJson>::json(self.memory_relationships)),
            ("cross_domain_links"@, <Vec<MemoryRelationship> as ToJson>::json(self.cross_domain_links)),
            ("repository_snippets"@, <Vec<ContextSnippet> as ToJson>::json(self.repository_snippets)),
        ]
    }
}

impl ToJson for FederatedContextResponse {
    open spec fn json(model: FederatedContextResponseView) -> Seq<char> {
        json_object(model.members())
    }

    fn to_json(&self) -> (text: String) {
        let object = JsonObject::new()
            .member("wire_version", self.wire_version.to_json())
            .member("project", self.project.to_json())
            .member("requested_domain", self.requested_domain.to_json())
            .member("repository", self.repository.to_json())
            .member("memory", self.memory.to_json())
            .member("federation_diagnostics", self.federation_diagnostics.to_json())
            .member("page", self.page.to_json())
            .member("items", self.items.to_json())
            .member("memory_relationships", self.memory_relationships.to_json())
            .member("cross_domain_links", self.cross_domain_links.to_json())
            .member("repository_snippets", self.repository_snippets.to_json());
        assert(object.members() =~= self.deep_view().members());
        object.finish()
    }
}

}
