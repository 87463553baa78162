//! What a store of the memory does: how builds move, what a commit must be, and what is published.
use vstd::prelude::*;
use crate::domain::{
    MemoryBuild, MemoryBuildState, MemoryBuildView, MemoryCommit, MemoryCommitView, MemoryEntity,
    MemoryEntityView, MemoryPublicationVersion, MemoryPublicationVersionView, MemoryPublishRequest,
    MemoryPublishRequestView, MemoryRelationship, MemoryRelationshipView,
    MemoryRepositoryLinkCommit, MemoryRepositoryLinkCommitView, MemoryRepositoryLinkSet,
    MemoryRepositoryLinkSetView, MemoryRevision, MemoryRevisionView, ProjectId, ProjectNamespace,
    ProjectRef, ProjectRefView, PublishedMemoryRevision, PublishedMemoryRevisionView, MAX_ID_BYTES,
};
use crate::budget::{backend, backend_error};
use crate::query::{MemoryQueryError, MemoryQueryErrorView};
use crate::record::{outcome, Record};
use crate::value::is_bounded_text;

verus! {

/// The name of the file that keeps the memory.
pub const MEMORY_SIDECAR_FILE_NAME: &'static str = "project-memory.db";

/// The version of the file's schema.
pub const MEMORY_SIDECAR_SCHEMA_VERSION: u32 = 2;

/// What marks the file as one that keeps the memory.
pub const MEMORY_APPLICATION_ID: u32 = 0x4650_4d31;

/// Why a store did not do what it was asked.
#[derive(Debug, Clone, Copy, PartialEq, Eq, PartialOrd, Ord, Hash, Structural)]
pub enum MemoryStoreError {
    BuildNotFound,
    RevisionNotFound,
    InvalidTransition,
    IdentityMismatch,
    PublicationConflict,
    RequiresRebuild,
    Corrupt,
    Unavailable,
}

impl DeepView for MemoryStoreError {
    type V = MemoryStoreError;

    open spec fn deep_view(&self) -> MemoryStoreError {
        *self
    }
}

impl MemoryStoreError {
    /// A short name of the error.
    pub open spec fn name(self) -> Seq<char> {
        match self {
            MemoryStoreError::BuildNotFound => "build_not_found"@,
            MemoryStoreError::RevisionNotFound => "revision_not_found"@,
            MemoryStoreError::InvalidTransition => "invalid_transition"@,
            MemoryStoreError::IdentityMismatch => "identity_mismatch"@,
            MemoryStoreError::PublicationConflict => "publication_conflict"@,
            MemoryStoreError::RequiresRebuild => "requires_rebuild"@,
            MemoryStoreError::Corrupt => "corrupt"@,
            MemoryStoreError::Unavailable => "unavailable"@,
        }
    }

    /// A short name of the error.
    pub fn as_str(self) -> (name: &'static str)
        ensures
            name@ == self.name(),
    {
        match self {
            MemoryStoreError::BuildNotFound => "build_not_found",
            MemoryStoreError::RevisionNotFound => "revision_not_found",
            MemoryStoreError::InvalidTransition => "invalid_transition",
            MemoryStoreError::IdentityMismatch => "identity_mismatch",
            MemoryStoreError::PublicationConflict => "publication_conflict",
            MemoryStoreError::RequiresRebuild => "requires_rebuild",
            MemoryStoreError::Corrupt => "corrupt",
            MemoryStoreError::Unavailable => "unavailable",
        }
    }
}

impl Record for MemoryStoreError {
    fn copied(&self) -> (copy: Self) {
        *self
    }

    fn same(&self, other: &Self) -> (same: bool) {
        *self == *other
    }
}

impl MemoryStoreError {
    /// What is wrong, in words.
    pub open spec fn words(self) -> Seq<char> {
        match self {
            MemoryStoreError::BuildNotFound => "project-memory build was not found"@,
            MemoryStoreError::RevisionNotFound => "project-memory revision was not found"@,
            MemoryStoreError::InvalidTransition => "invalid project-memory build transition"@,
            MemoryStoreError::IdentityMismatch => "project-memory identity mismatch"@,
            MemoryStoreError::PublicationConflict =>
                "project-memory publication compare-and-set failed"@,
            MemoryStoreError::RequiresRebuild => "project-memory sidecar schema requires rebuild"@,
            MemoryStoreError::Corrupt => "project-memory sidecar contains invalid data"@,
            MemoryStoreError::Unavailable => "project-memory sidecar is unavailable"@,
        }
    }

    /// What is wrong, in words.
    pub fn message(self) -> (text: &'static str)
        ensures
            text@ == self.words(),
    {
        match self {
            MemoryStoreError::BuildNotFound => "project-memory build was not found",
            MemoryStoreError::RevisionNotFound => "project-memory revision was not found",
            MemoryStoreError::InvalidTransition => "invalid project-memory build transition",
            MemoryStoreError::IdentityMismatch => "project-memory identity mismatch",
            MemoryStoreError::PublicationConflict => {
                "project-memory publication compare-and-set failed"
            },
            MemoryStoreError::RequiresRebuild => "project-memory sidecar schema requires rebuild",
            MemoryStoreError::Corrupt => "project-memory sidecar contains invalid data",
            MemoryStoreError::Unavailable => "project-memory sidecar is unavailable",
        }
    }
}

/// The error of a query whose store failed.
pub open spec fn query_failure(error: MemoryStoreError) -> MemoryQueryErrorView {
    match error {
        MemoryStoreError::RevisionNotFound => MemoryQueryErrorView::RevisionNotFound,
        MemoryStoreError::RequiresRebuild => backend("storage.incompatible"@),
        _ => backend("storage.unavailable"@),
    }
}

/// The error of a query whose store failed.
pub fn store_error(error: MemoryStoreError) -> (result: MemoryQueryError)
    ensures
        result.deep_view() == query_failure(error),
{
    proof {
        reveal_strlit("storage.incompatible");
        reveal_strlit("storage.unavailable");
    }
    match error {
        MemoryStoreError::RevisionNotFound => MemoryQueryError::RevisionNotFound,
        MemoryStoreError::RequiresRebuild => backend_error("storage.incompatible"),
        _ => backend_error("storage.unavailable"),
    }
}

/// What has to be done with a file before it can be written.
#[derive(Debug, Clone, Copy, PartialEq, Eq, Structural)]
pub enum SchemaStep {
    /// The file is new: make the schema.
    Create,
    /// The file has an older schema: bring it up to date.
    Migrate,
    /// The file is as it should be.
    Keep,
}

/// What has to be done with a file that says this of itself. A file that is another's, or that is
/// newer, has to be made anew.
pub fn schema_step(
    application_id: u32,
    version: u32,
) -> (result: Result<SchemaStep, MemoryStoreError>)
    ensures
        result == if application_id != MEMORY_APPLICATION_ID && (version > 0 || application_id != 0) {
            Err::<SchemaStep, MemoryStoreError>(MemoryStoreError::RequiresRebuild)
        } else if version > MEMORY_SIDECAR_SCHEMA_VERSION {
            Err(MemoryStoreError::RequiresRebuild)
        } else if version == MEMORY_SIDECAR_SCHEMA_VERSION {
            Ok(SchemaStep::Keep)
        } else if version == 0 {
            Ok(SchemaStep::Create)
        } else {
            Ok(SchemaStep::Migrate)
        },
{
    if application_id != MEMORY_APPLICATION_ID && (version > 0 || application_id != 0) {
        return Err(MemoryStoreError::RequiresRebuild);
    }
    if version > MEMORY_SIDECAR_SCHEMA_VERSION {
        return Err(MemoryStoreError::RequiresRebuild);
    }
    if version == MEMORY_SIDECAR_SCHEMA_VERSION {
        return Ok(SchemaStep::Keep);
    }
    if version == 0 {
        Ok(SchemaStep::Create)
    } else {
        Ok(SchemaStep::Migrate)
    }
}

/// Whether a file can be read as it is.
#[derive(Debug, Clone, Copy, PartialEq, Eq, Structural)]
pub enum QueryReadiness {
    Ready,
    NeedsMigration { found_schema_version: u32 },
    RequiresRebuild,
}

/// Whether a file that says this of itself can be read as it is. Reading never changes it.
pub fn query_readiness(application_id: u32, version: u32) -> (readiness: QueryReadiness)
    ensures
        readiness == if application_id != MEMORY_APPLICATION_ID || version
            > MEMORY_SIDECAR_SCHEMA_VERSION {
            QueryReadiness::RequiresRebuild
        } else if version < MEMORY_SIDECAR_SCHEMA_VERSION {
            QueryReadiness::NeedsMigration { found_schema_version: version }
        } else {
            QueryReadiness::Ready
        },
{
    if application_id != MEMORY_APPLICATION_ID || version > MEMORY_SIDECAR_SCHEMA_VERSION {
        return QueryReadiness::RequiresRebuild;
    }
    if version < MEMORY_SIDECAR_SCHEMA_VERSION {
        return QueryReadiness::NeedsMigration { found_schema_version: version };
    }
    QueryReadiness::Ready
}

/// The state of a build that a stored word names.
pub fn parse_build_state(value: &str) -> (result: Result<MemoryBuildState, MemoryStoreError>)
    ensures
        match result {
            Ok(state) => value@ == state.name(),
            Err(error) => error == MemoryStoreError::Corrupt && forall|state: MemoryBuildState| value@
                != #[trigger] state.name(),
        },
{
    let word = value.to_owned();
    if word == "building".to_owned() {
        Ok(MemoryBuildState::Building)
    } else if word == "complete".to_owned() {
        Ok(MemoryBuildState::Complete)
    } else if word == "published".to_owned() {
        Ok(MemoryBuildState::Published)
    } else if word == "failed".to_owned() {
        Ok(MemoryBuildState::Failed)
    } else if word == "superseded".to_owned() {
        Ok(MemoryBuildState::Superseded)
    } else {
        Err(MemoryStoreError::Corrupt)
    }
}

/// The project that two stored words name.
pub fn project_ref(
    namespace: &str,
    project_id: &str,
) -> (result: Result<ProjectRef, MemoryStoreError>)
    ensures
        match result {
            Ok(project) => project.deep_view() == (ProjectRefView {
                namespace: namespace@,
                project_id: project_id@,
            }),
            Err(error) => error == MemoryStoreError::Unavailable,
        },
        result is Ok == (is_bounded_text(namespace@, MAX_ID_BYTES as nat, false) && is_bounded_text(
            project_id@,
            MAX_ID_BYTES as nat,
            false,
        )),
{
    match (ProjectNamespace::new(namespace), ProjectId::new(project_id)) {
        (Ok(namespace), Ok(project_id)) => Ok(ProjectRef { namespace, project_id }),
        _ => Err(MemoryStoreError::Unavailable),
    }
}

/// Whether two revisions were made from the same: only who completed them may differ.
pub open spec fn same_revision(left: MemoryRevisionView, right: MemoryRevisionView) -> bool {
    &&& left.project == right.project
    &&& left.source_set_digest == right.source_set_digest
    &&& left.policy_digest == right.policy_digest
    &&& left.memory_model_version == right.memory_model_version
    &&& left.extractor_set_digest == right.extractor_set_digest
}

/// Whether every entity belongs to a revision.
pub open spec fn entities_belong(
    entities: Seq<MemoryEntityView>,
    revision: MemoryRevisionView,
) -> bool {
    forall|i: int|
        0 <= i < entities.len() ==> (#[trigger] entities[i]).project == revision.project
            && entities[i].memory_revision_id == revision.id
}

/// Whether every relationship belongs to a revision.
pub open spec fn relationships_belong(
    relationships: Seq<MemoryRelationshipView>,
    revision: MemoryRevisionView,
) -> bool {
    forall|i: int|
        0 <= i < relationships.len() ==> (#[trigger] relationships[i]).project == revision.project
            && relationships[i].memory_revision_id == revision.id
}

/// Whether a build may be completed by a commit, and whether the commit's revision is new. A
/// revision that is already there has to be the same.
pub open spec fn completion(
    build: Option<MemoryBuildView>,
    existing: Option<MemoryRevisionView>,
    commit: MemoryCommitView,
) -> Result<bool, MemoryStoreError> {
    match build {
        None => Err(MemoryStoreError::BuildNotFound),
        Some(build) => if build.state != MemoryBuildState::Building || build.project
            != commit.revision.project || build.prospective_revision_id != commit.revision.id {
            Err(MemoryStoreError::IdentityMismatch)
        } else {
            match existing {
                Some(existing) => if same_revision(existing, commit.revision) {
                    Ok(false)
                } else {
                    Err(MemoryStoreError::IdentityMismatch)
                },
                None => if entities_belong(commit.entities, commit.revision) && relationships_belong(
                    commit.relationships,
                    commit.revision,
                ) {
                    Ok(true)
                } else {
                    Err(MemoryStoreError::IdentityMismatch)
                },
            }
        },
    }
}

fn all_entities_belong(entities: &Vec<MemoryEntity>, revision: &MemoryRevision) -> (belong: bool)
    ensures
        belong == entities_belong(entities.deep_view(), revision.deep_view()),
{
    let ghost models = entities.deep_view();
    let mut at: usize = 0;
    while at < entities.len()
        invariant
            at <= entities.len(),
            models == entities.deep_view(),
            entities_belong(models.take(at as int), revision.deep_view()),
        decreases entities.len() - at,
    {
        assert(models[at as int] == entities@[at as int].deep_view());
        if !entities[at].project.same(&revision.project) || !entities[at].memory_revision_id.same(
            &revision.id,
        ) {
            assert(!entities_belong(models, revision.deep_view()));
            return false;
        }
        proof {
            let next = models.take(at + 1);
            assert forall|i: int| 0 <= i < next.len() implies (#[trigger] next[i]).project
                == revision.deep_view().project && next[i].memory_revision_id == revision.deep_view().id by {
                if i < at {
                    assert(next[i] == models.take(at as int)[i]);
                }
            }
        }
        at += 1;
    }
    assert(models.take(at as int) =~= models);
    true
}

fn all_relationships_belong(
    relationships: &Vec<MemoryRelationship>,
    revision: &MemoryRevision,
) -> (belong: bool)
    ensures
        belong == relationships_belong(relationships.deep_view(), revision.deep_view()),
{
    let ghost models = relationships.deep_view();
    let mut at: usize = 0;
    while at < relationships.len()
        invariant
            at <= relationships.len(),
            models == relationships.deep_view(),
            relationships_belong(models.take(at as int), revision.deep_view()),
        decreases relationships.len() - at,
    {
        assert(models[at as int] == relationships@[at as int].deep_view());
        if !relationships[at].project.same(&revision.project) || !relationships[at].memory_revision_id.same(
            &revision.id,
        ) {
            assert(!relationships_belong(models, revision.deep_view()));
            return false;
        }
        proof {
            let next = models.take(at + 1);
            assert forall|i: int| 0 <= i < next.len() implies (#[trigger] next[i]).project
                == revision.deep_view().project && next[i].memory_revision_id == revision.deep_view().id by {
                if i < at {
                    assert(next[i] == models.take(at as int)[i]);
                }
            }
        }
        at += 1;
    }
    assert(models.take(at as int) =~= models);
    true
}

/// What becomes of a run whose store cannot be opened.
#[derive(Debug, Clone, Copy, PartialEq, Eq, Structural)]
pub enum StoreRecovery {
    /// The store is removed and opened anew.
    Replace,
    /// The run fails.
    Fail,
}

/// What becomes of a run whose store cannot be opened: a run that reads everything anew replaces a store
/// that has to be rebuilt.
pub fn store_recovery(error: MemoryStoreError, full: bool) -> (recovery: StoreRecovery)
    ensures
        recovery == if full && error == MemoryStoreError::RequiresRebuild {
            StoreRecovery::Replace
        } else {
            StoreRecovery::Fail
        },
{
    match error {
        MemoryStoreError::RequiresRebuild => if full {
            StoreRecovery::Replace
        } else {
            StoreRecovery::Fail
        },
        _ => StoreRecovery::Fail,
    }
}

/// Refuses to begin a build that is not being built.
pub fn check_start(build: &MemoryBuild) -> (result: Result<(), MemoryStoreError>)
    ensures
        result is Ok == (build.deep_view().state == MemoryBuildState::Building),
        result matches Err(error) ==> error == MemoryStoreError::InvalidTransition,
{
    if build.state == MemoryBuildState::Building {
        Ok(())
    } else {
        Err(MemoryStoreError::InvalidTransition)
    }
}

/// Decides whether a build may be completed by a commit, and whether the commit's revision is new.
pub fn decide_completion(
    build: Option<&MemoryBuild>,
    existing: Option<&MemoryRevision>,
    commit: &MemoryCommit,
) -> (result: Result<bool, MemoryStoreError>)
    ensures
        result == completion(build.deep_view(), existing.deep_view(), commit.deep_view()),
{
    let build = match build {
        Some(build) => build,
        None => {
            return Err(MemoryStoreError::BuildNotFound);
        },
    };
    if build.state != MemoryBuildState::Building || !build.project.same(&commit.revision.project)
        || !build.prospective_revision_id.same(&commit.revision.id) {
        return Err(MemoryStoreError::IdentityMismatch);
    }
    match existing {
        Some(existing) => {
            if existing.project.same(&commit.revision.project) && existing.source_set_digest.same(
                &commit.revision.source_set_digest,
            ) && existing.policy_digest.same(&commit.revision.policy_digest)
                && existing.memory_model_version == commit.revision.memory_model_version
                && existing.extractor_set_digest.same(&commit.revision.extractor_set_digest) {
                Ok(false)
            } else {
                Err(MemoryStoreError::IdentityMismatch)
            }
        },
        None => {
            if all_entities_belong(&commit.entities, &commit.revision) && all_relationships_belong(
                &commit.relationships,
                &commit.revision,
            ) {
                Ok(true)
            } else {
                Err(MemoryStoreError::IdentityMismatch)
            }
        },
    }
}

/// Whether two links say the same: only when they were resolved may differ.
pub open spec fn same_link(left: MemoryRelationshipView, right: MemoryRelationshipView) -> bool {
    MemoryRelationshipView {
        provenance: crate::domain::MemoryProvenanceView {
            timestamps: right.provenance.timestamps,
            ..left.provenance
        },
        ..left
    } == right
}

/// Whether two lists of links say the same.
pub open spec fn same_links(
    left: Seq<MemoryRelationshipView>,
    right: Seq<MemoryRelationshipView>,
) -> bool {
    &&& left.len() == right.len()
    &&& forall|i: int| 0 <= i < left.len() ==> same_link(#[trigger] left[i], right[i])
}

/// Whether a set of links may be stored with a revision, and whether it is new. A set that is already
/// there has to say the same.
pub open spec fn link_completion(
    revision: MemoryRevisionView,
    commit: MemoryRepositoryLinkCommitView,
    existing: Option<(MemoryRepositoryLinkSetView, Seq<MemoryRelationshipView>)>,
) -> Result<bool, MemoryStoreError> {
    if commit.link_set.project != revision.project || commit.link_set.memory_revision_id != revision.id
        || !relationships_belong(commit.relationships, revision) {
        Err(MemoryStoreError::IdentityMismatch)
    } else {
        match existing {
            None => Ok(true),
            Some((set, links)) => if set == commit.link_set && same_links(links, commit.relationships) {
                Ok(false)
            } else {
                Err(MemoryStoreError::IdentityMismatch)
            },
        }
    }
}

fn links_agree(left: &MemoryRelationship, right: &MemoryRelationship) -> (same: bool)
    ensures
        same == same_link(left.deep_view(), right.deep_view()),
{
    left.project.same(&right.project) && left.memory_revision_id.same(&right.memory_revision_id)
        && left.id.same(&right.id) && left.kind == right.kind && left.source.same(&right.source)
        && left.target.same(&right.target) && left.provenance.source_category
        == right.provenance.source_category && left.provenance.source_locator.same(
        &right.provenance.source_locator,
    ) && left.provenance.source_fingerprint.same(&right.provenance.source_fingerprint)
        && left.provenance.extractor.same(&right.provenance.extractor) && left.provenance.evidence.same(
        &right.provenance.evidence,
    ) && left.provenance.resolution == right.provenance.resolution && left.provenance.confidence
        == right.provenance.confidence
}

fn all_links_agree(left: &Vec<MemoryRelationship>, right: &Vec<MemoryRelationship>) -> (same: bool)
    ensures
        same == same_links(left.deep_view(), right.deep_view()),
{
    if left.len() != right.len() {
        return false;
    }
    let ghost lefts = left.deep_view();
    let ghost rights = right.deep_view();
    let mut at: usize = 0;
    while at < left.len()
        invariant
            at <= left.len(),
            left.len() == right.len(),
            lefts == left.deep_view(),
            rights == right.deep_view(),
            forall|i: int| 0 <= i < at ==> same_link(#[trigger] lefts[i], rights[i]),
        decreases left.len() - at,
    {
        assert(lefts[at as int] == left@[at as int].deep_view());
        assert(rights[at as int] == right@[at as int].deep_view());
        if !links_agree(&left[at], &right[at]) {
            return false;
        }
        at += 1;
    }
    true
}

/// Decides whether a set of links may be stored with a revision, and whether it is new.
pub fn decide_links(
    revision: &MemoryRevision,
    commit: &MemoryRepositoryLinkCommit,
    existing: Option<(&MemoryRepositoryLinkSet, &Vec<MemoryRelationship>)>,
) -> (result: Result<bool, MemoryStoreError>)
    ensures
        result == link_completion(
            revision.deep_view(),
            commit.deep_view(),
            existing.deep_view(),
        ),
{
    if !commit.link_set.project.same(&revision.project) || !commit.link_set.memory_revision_id.same(
        &revision.id,
    ) || !all_relationships_belong(&commit.relationships, revision) {
        return Err(MemoryStoreError::IdentityMismatch);
    }
    match existing {
        None => Ok(true),
        Some((set, links)) => {
            if set.same(&commit.link_set) && all_links_agree(links, &commit.relationships) {
                Ok(false)
            } else {
                Err(MemoryStoreError::IdentityMismatch)
            }
        },
    }
}

/// What publishing a build comes to.
pub enum PublicationView {
    /// The view already shows the build's revision: the build is superseded, and the view stays.
    Kept { view: PublishedMemoryRevisionView },
    /// The view shows the build's revision from now on.
    Replaced { view: PublishedMemoryRevisionView },
}

/// What publishing a build comes to.
pub enum Publication {
    /// The view already shows the build's revision: the build is superseded, and the view stays.
    Kept { view: PublishedMemoryRevision },
    /// The view shows the build's revision from now on.
    Replaced { view: PublishedMemoryRevision },
}

impl DeepView for Publication {
    type V = PublicationView;

    open spec fn deep_view(&self) -> PublicationView {
        match self {
            Publication::Kept { view } => PublicationView::Kept { view: view.deep_view() },
            Publication::Replaced { view } => PublicationView::Replaced { view: view.deep_view() },
        }
    }
}

/// Which publication a view shows.
pub open spec fn version_of(view: Option<PublishedMemoryRevisionView>) -> Option<
    MemoryPublicationVersionView,
> {
    match view {
        Some(view) => Some(
            MemoryPublicationVersionView {
                revision_id: view.revision_id,
                generation: view.generation,
            },
        ),
        None => None,
    }
}

/// The greatest generation that can be stored.
pub const MAX_GENERATION: u64 = 0x7fff_ffff_ffff_ffff;

/// What publishing a build comes to: a complete build of the project with its revision replaces
/// exactly the publication that was expected.
pub open spec fn publication(
    request: MemoryPublishRequestView,
    build: Option<MemoryBuildView>,
    revision: Option<MemoryRevisionView>,
    current: Option<PublishedMemoryRevisionView>,
) -> Result<PublicationView, MemoryStoreError> {
    match build {
        None => Err(MemoryStoreError::BuildNotFound),
        Some(build) => if build.project != request.project || build.state != MemoryBuildState::Complete {
            Err(MemoryStoreError::InvalidTransition)
        } else {
            match revision {
                None => Err(MemoryStoreError::RevisionNotFound),
                Some(revision) => if request.expected != version_of(current) {
                    Err(MemoryStoreError::PublicationConflict)
                } else if current is Some && current->0.revision_id == revision.id {
                    Ok(PublicationView::Kept { view: current->0 })
                } else if current is Some && current->0.generation >= MAX_GENERATION {
                    Err(MemoryStoreError::Corrupt)
                } else {
                    Ok(
                        PublicationView::Replaced {
                            view: PublishedMemoryRevisionView {
                                project: request.project,
                                view_name: request.view_name,
                                revision_id: revision.id,
                                build_id: build.id,
                                generation: match current {
                                    Some(view) => (view.generation + 1) as u64,
                                    None => 1,
                                },
                            },
                        },
                    )
                },
            }
        },
    }
}

/// Publishing never takes a view back: its generation stays or grows by one, and grows exactly when
/// the view comes to show another revision.
pub proof fn publishing_goes_forward(
    request: MemoryPublishRequestView,
    build: Option<MemoryBuildView>,
    revision: Option<MemoryRevisionView>,
    current: Option<PublishedMemoryRevisionView>,
)
    ensures
        match publication(request, build, revision, current) {
            Ok(PublicationView::Kept { view }) => current == Some(view),
            Ok(PublicationView::Replaced { view }) => match current {
                Some(before) => view.generation == before.generation + 1 && view.revision_id
                    != before.revision_id,
                None => view.generation == 1,
            },
            Err(_) => true,
        },
        publication(request, build, revision, current) is Ok ==> request.expected == version_of(current),
{
}

fn version_same(
    expected: &Option<MemoryPublicationVersion>,
    current: Option<&PublishedMemoryRevision>,
) -> (same: bool)
    ensures
        same == (expected.deep_view() == version_of(current.deep_view())),
{
    match (expected, current) {
        (None, None) => true,
        (Some(expected), Some(current)) => expected.revision_id.same(&current.revision_id)
            && expected.generation == current.generation,
        _ => false,
    }
}

/// Decides what publishing a build comes to.
pub fn decide_publication(
    request: &MemoryPublishRequest,
    build: Option<&MemoryBuild>,
    revision: Option<&MemoryRevision>,
    current: Option<&PublishedMemoryRevision>,
) -> (result: Result<Publication, MemoryStoreError>)
    ensures
        outcome(result) == publication(
            request.deep_view(),
            build.deep_view(),
            revision.deep_view(),
            current.deep_view(),
        ),
{
    let build = match build {
        Some(build) => build,
        None => {
            return Err(MemoryStoreError::BuildNotFound);
        },
    };
    if !build.project.same(&request.project) || build.state != MemoryBuildState::Complete {
        return Err(MemoryStoreError::InvalidTransition);
    }
    let revision = match revision {
        Some(revision) => revision,
        None => {
            return Err(MemoryStoreError::RevisionNotFound);
        },
    };
    if !version_same(&request.expected, current) {
        return Err(MemoryStoreError::PublicationConflict);
    }
    let generation = match current {
        Some(current) => {
            if current.revision_id.same(&revision.id) {
                return Ok(Publication::Kept { view: current.copied() });
            }
            if current.generation >= MAX_GENERATION {
                return Err(MemoryStoreError::Corrupt);
            }
            current.generation + 1
        },
        None => 1,
    };
    Ok(
        Publication::Replaced {
            view: PublishedMemoryRevision {
                project: request.project.copied(),
                view_name: request.view_name.copied(),
                revision_id: revision.id.copied(),
                build_id: build.id.copied(),
                generation,
            },
        },
    )
}

/// What may happen to a build by itself.
#[derive(Debug, Clone, Copy, PartialEq, Eq, Structural)]
pub enum BuildTransition {
    Fail,
    Supersede,
}

/// The state that a build moves to, where it may move so.
pub open spec fn moved(
    state: MemoryBuildState,
    transition: BuildTransition,
) -> Option<MemoryBuildState> {
    match transition {
        BuildTransition::Fail => if state == MemoryBuildState::Building {
            Some(MemoryBuildState::Failed)
        } else {
            None
        },
        BuildTransition::Supersede => if state == MemoryBuildState::Building || state
            == MemoryBuildState::Complete {
            Some(MemoryBuildState::Superseded)
        } else {
            None
        },
    }
}

/// The state that a build moves to. A build that is over, and one that is published, does not move by
/// itself.
pub fn move_build(state: MemoryBuildState, transition: BuildTransition) -> (result: Result<
    MemoryBuildState,
    MemoryStoreError,
>)
    ensures
        match moved(state, transition) {
            Some(next) => result == Ok::<_, MemoryStoreError>(next),
            None => result == Err::<MemoryBuildState, _>(MemoryStoreError::InvalidTransition),
        },
{
    match transition {
        BuildTransition::Fail => match state {
            MemoryBuildState::Building => Ok(MemoryBuildState::Failed),
            _ => Err(MemoryStoreError::InvalidTransition),
        },
        BuildTransition::Supersede => match state {
            MemoryBuildState::Building => Ok(MemoryBuildState::Superseded),
            MemoryBuildState::Complete => Ok(MemoryBuildState::Superseded),
            _ => Err(MemoryStoreError::InvalidTransition),
        },
    }
}

}
