//! The sources of a project at hand: what they are, and what may be read of them.
use vstd::prelude::*;
use crate::budget::{backend, backend_error};
use crate::deadline::{begins, is_up, Deadline, TimeLimit};
use crate::digest::{sha256_of, Digest, DigestView};
use crate::documents::{ArchiveSourceDocumentView, RuntimeSourceDocumentView};
use crate::domain::{
    AuthorizedSourceDescriptor, AuthorizedSourceDescriptorView, AuthorizedSourceManifest,
    AuthorizedSourceManifestView, MemoryEvidenceLocator, MemoryEvidenceLocatorView,
    MemoryExtractorIdentity, MemorySourceCategory, MemorySourceLocator, MemorySourceLocatorView,
    ProjectRef, ProjectRefView,
};
use crate::extractors::{built_in, built_in_extractor_set_digest, identities};
use crate::json::ToJson;
use crate::policy::{default_policy, MemoryContentAccess, MemoryPolicy, MemoryPolicyView};
use crate::ports::{
    MemoryContent, MemorySource, MemorySourceContent, MemorySourceContentView, MemorySourceError,
    SourceDocument, SourceDocumentView, SourceRead, SourceReadView,
};
use crate::query::{
    MemoryContentRequest, MemoryContentRequestView, MemoryContentResponse,
    MemoryContentResponseView, MemoryQueryError, MemoryQueryErrorView, MemoryTruncationReason,
};
use crate::record::{outcome, Record};
use crate::repository::RepoPath;
use crate::sort::{sort, sorted};
use crate::source::{
    archive_source, bytes_digest, bytes_fingerprint, discover_sources, document_bytes,
    fingerprint_of, found_sources, readable_text, record_bytes, runtime_source, spec_fingerprint,
    structure_fingerprint, tracked_source, EventRow, EventRowView, SourceInventory,
    SourceInventoryView, SourceMaterial, SourceMaterialView, TrackedFileView, MAX_SOURCES,
    MAX_SPEC_BYTES,
};
use crate::text::utf8_text;
use crate::workspace::{current_workspace, is_current, toml_text, WorkspaceError};

verus! {

/// Why a tracked file was not read.
#[derive(Debug, Clone, Copy, PartialEq, Eq, Structural)]
pub enum SpecReadFailure {
    /// The time was up.
    Expired,
    /// It is no regular file, or too long.
    Unbounded,
    /// It could not be read.
    Unavailable,
}

impl DeepView for SpecReadFailure {
    type V = SpecReadFailure;

    open spec fn deep_view(&self) -> SpecReadFailure {
        *self
    }
}

/// A tracked file that was read, in how much time, and what was read.
pub struct FileRead {
    pub path: Seq<char>,
    pub max_duration_ms: u64,
    pub reply: Result<Seq<u8>, SpecReadFailure>,
}

/// The files of a project.
pub trait SpecFiles {
    /// The files that were read so far.
    open spec fn reads(&self) -> Seq<FileRead> {
        Seq::empty()
    }

    /// The searches for sources so far.
    open spec fn searches(&self) -> Seq<SourceSearch> {
        Seq::empty()
    }

    /// Reads a tracked file in so many milliseconds at most.
    fn read_spec(&mut self, path: &RepoPath, max_duration_ms: u64) -> (result: Result<
        Vec<u8>,
        SpecReadFailure,
    >)
        ensures
            final(self).reads() == old(self).reads().push(
                FileRead { path: path.deep_view(), max_duration_ms, reply: outcome(result) },
            ),
            final(self).searches() == old(self).searches(),
    ;

    /// Finds the sources of a project as they are now, as far as a policy allows them; the specifications
    /// among them lie in a directory.
    fn find_sources(&mut self, project: &ProjectRef, directory: &RepoPath, policy: &MemoryPolicy) -> (result:
        Result<Vec<SourceMaterial>, MemorySourceError>)
        ensures
            final(self).reads() == old(self).reads(),
            final(self).searches() == old(self).searches().push(
                SourceSearch {
                    project: project.deep_view(),
                    directory: directory.deep_view(),
                    policy: policy.deep_view(),
                    reply: outcome(result),
                },
            ),
    ;
}

/// A search for sources: what was searched for, and what was found.
pub struct SourceSearch {
    pub project: ProjectRefView,
    pub directory: Seq<char>,
    pub policy: MemoryPolicyView,
    pub reply: Result<Seq<SourceMaterialView>, MemorySourceError>,
}

/// What is known of the sources of a project.
pub struct KnownSources {
    pub project: ProjectRefView,
    pub directory: Seq<char>,
    pub policy: MemoryPolicyView,
    pub materials: Seq<SourceMaterialView>,
    pub manifest: AuthorizedSourceManifestView,
}

/// The descriptors of some sources.
pub open spec fn descriptors(
    materials: Seq<SourceMaterialView>,
) -> Seq<AuthorizedSourceDescriptorView> {
    materials.map_values(|material: SourceMaterialView| material.descriptor)
}

/// The manifest of some sources, but for the digest of their set.
pub open spec fn bare_manifest(
    project: ProjectRefView,
    policy: MemoryPolicyView,
    materials: Seq<SourceMaterialView>,
    source_set_digest: DigestView,
) -> AuthorizedSourceManifestView {
    AuthorizedSourceManifestView {
        project,
        policy_digest: sha256_of(<MemoryPolicy as ToJson>::json(policy)),
        source_set_digest,
        extractor_set_digest: sha256_of(
            <Vec<MemoryExtractorIdentity> as ToJson>::json(identities(built_in())),
        ),
        sources: descriptors(materials),
    }
}

/// The digest of nothing yet.
pub open spec fn blank_digest() -> DigestView {
    DigestView { algorithm: "sha256"@, value: "00"@ }
}

/// What is known of sources that were found: they stand in the order of their descriptors, and the
/// manifest lists them.
pub open spec fn known_sources(
    project: ProjectRefView,
    directory: Seq<char>,
    policy: MemoryPolicyView,
    found: Seq<SourceMaterialView>,
) -> Result<KnownSources, MemorySourceError> {
    if found.len() > MAX_SOURCES {
        Err(MemorySourceError::TooManySources)
    } else {
        let materials = sorted::<SourceMaterial>(found);
        let bare = bare_manifest(project, policy, materials, blank_digest());
        if !bare.owns_its_sources() {
            Err(MemorySourceError::ForeignSource)
        } else {
            Ok(
                KnownSources {
                    project,
                    directory,
                    policy,
                    materials,
                    manifest: bare_manifest(
                        project,
                        policy,
                        materials,
                        sha256_of(bare.source_set_text()),
                    ),
                },
            )
        }
    }
}

/// The manifest of sources that were found stands for a revision.
pub proof fn known_sources_have_a_revision(
    project: ProjectRefView,
    directory: Seq<char>,
    policy: MemoryPolicyView,
    found: Seq<SourceMaterialView>,
)
    ensures
        known_sources(project, directory, policy, found) matches Ok(known) ==> known.manifest.error() is None
            && known.manifest.sources == descriptors(known.materials),
{
    if let Ok(known) = known_sources(project, directory, policy, found) {
        let bare = bare_manifest(project, policy, known.materials, blank_digest());
        assert(known.manifest.source_set_text() == bare.source_set_text());
    }
}

/// The sources of a project, with its files.
pub struct LocalMemorySource<F> {
    files: F,
    project: ProjectRef,
    directory: RepoPath,
    policy: MemoryPolicy,
    materials: Vec<SourceMaterial>,
    manifest: AuthorizedSourceManifest,
    manifests: Ghost<Seq<Result<AuthorizedSourceManifestView, MemorySourceError>>>,
    reads: Ghost<Seq<(AuthorizedSourceDescriptorView, Result<SourceReadView, MemorySourceError>)>>,
    checks: Ghost<Seq<(AuthorizedSourceManifestView, Result<(), MemorySourceError>)>>,
    requests: Ghost<Seq<(MemoryContentRequestView, u64)>>,
    replies: Ghost<Seq<Result<MemoryContentResponseView, MemoryQueryErrorView>>>,
}

/// Puts sources that were found in order and lists them.
fn list_sources(
    project: &ProjectRef,
    directory: &RepoPath,
    policy: &MemoryPolicy,
    found: Vec<SourceMaterial>,
) -> (result: Result<(Vec<SourceMaterial>, AuthorizedSourceManifest), MemorySourceError>)
    ensures
        match result {
            Ok((materials, manifest)) => known_sources(
                project.deep_view(),
                directory.deep_view(),
                policy.deep_view(),
                found.deep_view(),
            ) == Ok::<_, MemorySourceError>(
                KnownSources {
                    project: project.deep_view(),
                    directory: directory.deep_view(),
                    policy: policy.deep_view(),
                    materials: materials.deep_view(),
                    manifest: manifest.deep_view(),
                },
            ),
            Err(error) => known_sources(
                project.deep_view(),
                directory.deep_view(),
                policy.deep_view(),
                found.deep_view(),
            ) == Err::<KnownSources, _>(error),
        },
{
    assert(found.deep_view().len() == found.len());
    if found.len() > MAX_SOURCES {
        return Err(MemorySourceError::TooManySources);
    }
    let materials = sort(found);
    let ghost models = materials.deep_view();
    let mut sources: Vec<AuthorizedSourceDescriptor> = Vec::new();
    let mut at: usize = 0;
    while at < materials.len()
        invariant
            at <= materials.len(),
            models == materials.deep_view(),
            sources.deep_view() =~= descriptors(models).take(at as int),
        decreases materials.len() - at,
    {
        let ghost before = sources.deep_view();
        assert(models[at as int] == materials@[at as int].deep_view());
        let descriptor = materials[at].descriptor.copied();
        sources.push(descriptor);
        assert(sources.deep_view() =~= before.push(descriptor.deep_view()));
        at += 1;
    }
    assert(sources.deep_view() =~= descriptors(models));
    proof {
        reveal_strlit("sha256");
        reveal_strlit("00");
    }
    let mut manifest = AuthorizedSourceManifest {
        project: project.copied(),
        policy_digest: policy.digest(),
        source_set_digest: Digest::new("sha256", "00").unwrap(),
        extractor_set_digest: built_in_extractor_set_digest(),
        sources,
    };
    assert(manifest.deep_view() == bare_manifest(
        project.deep_view(),
        policy.deep_view(),
        models,
        blank_digest(),
    ));
    match manifest.computed_source_set_digest() {
        Ok(digest) => {
            manifest.source_set_digest = digest;
            Ok((materials, manifest))
        },
        Err(_) => Err(MemorySourceError::ForeignSource),
    }
}

/// The source with a descriptor.
pub open spec fn described(
    materials: Seq<SourceMaterialView>,
    descriptor: AuthorizedSourceDescriptorView,
) -> Option<SourceMaterialView>
    decreases materials.len(),
{
    if materials.len() == 0 {
        None
    } else if materials[0].descriptor == descriptor {
        Some(materials[0])
    } else {
        described(materials.skip(1), descriptor)
    }
}

/// What is read of a source: a tracked file as the file says, any other source as its record says,
/// and only what has the source's fingerprint.
pub open spec fn verified_read(
    material: Option<SourceMaterialView>,
    file: Result<Seq<u8>, SpecReadFailure>,
) -> Result<SourceReadView, MemorySourceError> {
    match material {
        None => Err(MemorySourceError::NotDiscovered),
        Some(material) => match material.document {
            SourceDocumentView::Absent => match (material.descriptor.locator, file) {
                (MemorySourceLocatorView::TrackedFile { path: _ }, Ok(bytes)) => if bytes.len()
                    > MAX_SPEC_BYTES {
                    Err(MemorySourceError::Unbounded)
                } else {
                    match fingerprint_of(material.descriptor.category, bytes) {
                        Err(error) => Err(error),
                        Ok(fingerprint) => if fingerprint != material.descriptor.fingerprint {
                            Err(MemorySourceError::SpecificationChanged)
                        } else {
                            Ok(
                                SourceReadView {
                                    content: MemorySourceContentView { bytes },
                                    document: material.document,
                                },
                            )
                        },
                    }
                },
                (MemorySourceLocatorView::TrackedFile { path: _ }, Err(SpecReadFailure::Unbounded)) =>
                    Err(MemorySourceError::Unbounded),
                _ => Err(MemorySourceError::Unavailable),
            },
            document => {
                let bytes = record_bytes(document);
                if bytes_fingerprint(bytes) != material.descriptor.fingerprint {
                    Err(MemorySourceError::RecordChanged)
                } else {
                    Ok(
                        SourceReadView {
                            content: MemorySourceContentView { bytes },
                            document,
                        },
                    )
                }
            },
        },
    }
}

/// Whether a source is a tracked file.
pub open spec fn is_tracked(material: SourceMaterialView) -> bool {
    material.document is Absent && material.descriptor.locator is TrackedFile
}

/// Whether looking for sources came to this: the files were searched once, and what was found there, or
/// why nothing was, decides.
pub open spec fn discovered<F: SpecFiles>(
    project: ProjectRefView,
    directory: Seq<char>,
    policy: MemoryPolicyView,
    files: F,
    after: F,
    result: Result<LocalMemorySource<F>, MemorySourceError>,
) -> bool {
    let reply = after.searches().last().reply;
    &&& after.searches() == files.searches().push(SourceSearch { project, directory, policy, reply })
    &&& after.reads() == files.reads()
    &&& match reply {
        Err(error) => result is Err && result->Err_0 == error,
        Ok(found) => match known_sources(project, directory, policy, found) {
            Err(error) => result is Err && result->Err_0 == error,
            Ok(known) => result is Ok && result->Ok_0.known() == known && result->Ok_0.files() == after
                && result->Ok_0.has_not_been_asked(),
        },
    }
}

/// Whether looking for the sources of a workspace came to this: where the workspace is not known, no file
/// is searched.
pub open spec fn current_discovered<F: SpecFiles>(
    workspace: Result<(ProjectRef, RepoPath), WorkspaceError>,
    files: F,
    result: Result<LocalMemorySource<F>, WorkspaceError>,
) -> bool {
    match workspace {
        Err(error) => result is Err && result->Err_0 == error,
        Ok((project, directory)) => exists|after: F, found: Result<LocalMemorySource<F>, MemorySourceError>|
         #[trigger]
            discovered(
                project.deep_view(),
                directory.deep_view(),
                default_policy(),
                files,
                after,
                found,
            ) && match found {
                Ok(source) => result is Ok && result->Ok_0 == source,
                Err(error) => result is Err && result->Err_0 == WorkspaceError::Sources(error),
            },
    }
}

impl<F: SpecFiles> LocalMemorySource<F> {
    /// What is known of the sources.
    pub closed spec fn known(self) -> KnownSources {
        KnownSources {
            project: self.project.deep_view(),
            directory: self.directory.deep_view(),
            policy: self.policy.deep_view(),
            materials: self.materials.deep_view(),
            manifest: self.manifest.deep_view(),
        }
    }

    /// The files.
    pub closed spec fn files(self) -> F {
        self.files
    }

    /// The sources of a project, as they were found among its files.
    pub fn new(
        project: ProjectRef,
        directory: RepoPath,
        policy: MemoryPolicy,
        files: F,
        found: Vec<SourceMaterial>,
    ) -> (result: Result<Self, MemorySourceError>)
        ensures
            match known_sources(
                project.deep_view(),
                directory.deep_view(),
                policy.deep_view(),
                found.deep_view(),
            ) {
                Ok(known) => result is Ok && result->Ok_0.known() == known && result->Ok_0.files()
                    == files && result->Ok_0.has_not_been_asked(),
                Err(error) => result is Err && result->Err_0 == error,
            },
    {
        match list_sources(&project, &directory, &policy, found) {
            Err(error) => Err(error),
            Ok((materials, manifest)) => Ok(
                LocalMemorySource {
                    files,
                    project,
                    directory,
                    policy,
                    materials,
                    manifest,
                    manifests: Ghost(Seq::empty()),
                    reads: Ghost(Seq::empty()),
                    checks: Ghost(Seq::empty()),
                    requests: Ghost(Seq::empty()),
                    replies: Ghost(Seq::empty()),
                },
            ),
        }
    }

    /// Whether nothing was asked of the sources yet.
    pub closed spec fn has_not_been_asked(self) -> bool {
        self.manifests@.len() == 0 && self.reads@.len() == 0 && self.checks@.len() == 0
            && self.requests@.len() == 0 && self.replies@.len() == 0
    }

    /// Finds the sources of a project among its files; its specifications lie in a directory.
    pub fn discover(project: ProjectRef, directory: RepoPath, policy: MemoryPolicy, files: F) -> (result:
        Result<Self, MemorySourceError>)
        ensures
            exists|after: F| #[trigger]
                discovered(
                    project.deep_view(),
                    directory.deep_view(),
                    policy.deep_view(),
                    files,
                    after,
                    result,
                ),
    {
        let ghost before = files;
        let ghost asked = (project.deep_view(), directory.deep_view(), policy.deep_view());
        let mut files = files;
        let found = files.find_sources(&project, &directory, &policy);
        let ghost after = files;
        let result = match found {
            Err(error) => Err(error),
            Ok(found) => Self::new(project, directory, policy, files, found),
        };
        assert(discovered(asked.0, asked.1, asked.2, before, after, result));
        result
    }

    /// Finds the sources of the current workspace among its files: of the project that is registered under
    /// an id, where its metadata says the same, with the specifications in the directory that its
    /// configuration names, and as far as the usual policy allows them.
    pub fn discover_current(
        pointer_id: &str,
        metadata_id: &str,
        configuration: &str,
        files: F,
    ) -> (result: Result<Self, WorkspaceError>)
        ensures
            exists|workspace: Result<(ProjectRef, RepoPath), WorkspaceError>| #[trigger]
                is_current(
                    pointer_id@,
                    metadata_id@,
                    toml_text(configuration@, "spec"@, "directory"@),
                    workspace,
                ) && current_discovered(workspace, files, result),
    {
        let workspace = current_workspace(pointer_id, metadata_id, configuration);
        let ghost known = workspace;
        let result = Self::discover_in(workspace, files);
        assert(current_discovered(known, files, result));
        result
    }

    /// Finds the sources of a workspace among its files, once the workspace is known, as far as the usual
    /// policy allows them.
    pub fn discover_in(workspace: Result<(ProjectRef, RepoPath), WorkspaceError>, files: F) -> (result:
        Result<Self, WorkspaceError>)
        ensures
            current_discovered(workspace, files, result),
    {
        match workspace {
            Err(error) => Err(error),
            Ok((project, directory)) => {
                match Self::discover(project, directory, MemoryPolicy::default(), files) {
                    Ok(source) => Ok(source),
                    Err(error) => Err(WorkspaceError::Sources(error)),
                }
            },
        }
    }

    /// The project.
    pub fn project(&self) -> (project: &ProjectRef)
        ensures
            project.deep_view() == self.known().project,
    {
        &self.project
    }

    /// All sources.
    pub fn authorized(&self) -> (manifest: &AuthorizedSourceManifest)
        ensures
            manifest.deep_view() == self.known().manifest,
    {
        &self.manifest
    }

    fn find_described(&self, descriptor: &AuthorizedSourceDescriptor) -> (place: Option<usize>)
        ensures
            match place {
                Some(place) => place < self.materials.len() && described(
                    self.known().materials,
                    descriptor.deep_view(),
                ) == Some(self.materials@[place as int].deep_view()),
                None => described(self.known().materials, descriptor.deep_view()) is None,
            },
    {
        let ghost models = self.materials.deep_view();
        let mut at: usize = 0;
        assert(models.skip(0) =~= models);
        while at < self.materials.len()
            invariant
                at <= self.materials.len(),
                models == self.materials.deep_view(),
                described(models, descriptor.deep_view()) == described(
                    models.skip(at as int),
                    descriptor.deep_view(),
                ),
            decreases self.materials.len() - at,
        {
            assert(models[at as int] == self.materials@[at as int].deep_view());
            assert(models.skip(at as int)[0] == models[at as int]);
            assert(models.skip(at as int).skip(1) =~= models.skip(at + 1));
            if self.materials[at].descriptor.same(descriptor) {
                return Some(at);
            }
            at += 1;
        }
        None
    }
}

/// The read of a source for which no file has to be read.
pub open spec fn no_file() -> Result<Seq<u8>, SpecReadFailure> {
    Err(SpecReadFailure::Unavailable)
}

/// What a file read answered, where one was made.
pub open spec fn file_reply<F: SpecFiles>(before: F, after: F) -> Result<Seq<u8>, SpecReadFailure> {
    if after.reads().len() > before.reads().len() {
        after.reads().last().reply
    } else {
        no_file()
    }
}

/// Whether exactly the file of a source was read in between, once and in so many milliseconds; no
/// file where the source is no tracked file, or where there is no source.
pub open spec fn file_was_read<F: SpecFiles>(
    before: F,
    after: F,
    material: Option<SourceMaterialView>,
    max_duration_ms: u64,
) -> bool {
    &&& after.searches() == before.searches()
    &&& if material is Some && is_tracked(material->0) {
        let read = after.reads().last();
        &&& after.reads() == before.reads().push(read)
        &&& read.path == material->0.descriptor.locator->path
        &&& read.max_duration_ms == max_duration_ms
    } else {
        after.reads() == before.reads()
    }
}

/// Whether a read in between could take so many milliseconds at most.
pub open spec fn read_within<F: SpecFiles>(before: F, after: F, limit_ms: u64) -> bool {
    after.reads().len() > before.reads().len() ==> after.reads().last().max_duration_ms <= limit_ms
}

impl<F: SpecFiles> LocalMemorySource<F> {
    /// Reads a source as it was found, and finds out whether it still is what it was.
    fn read_material(&mut self, place: usize) -> (result: Result<SourceRead, MemorySourceError>)
        requires
            place < old(self).materials.len(),
        ensures
            final(self).known() == old(self).known(),
            final(self).same_logs(*old(self)),
            file_was_read(
                old(self).files,
                final(self).files,
                Some(old(self).materials@[place as int].deep_view()),
                u64::MAX,
            ),
            outcome(result) == verified_read(
                Some(old(self).materials@[place as int].deep_view()),
                file_reply(old(self).files, final(self).files),
            ),
    {
        let material = &self.materials[place];
        match &material.document {
            SourceDocument::Absent => match &material.descriptor.locator {
                MemorySourceLocator::TrackedFile { path } => {
                    match self.files.read_spec(path, u64::MAX) {
                        Ok(bytes) => {
                            assert(bytes.deep_view() =~= bytes@);
                            if bytes.len() as u64 > MAX_SPEC_BYTES {
                                return Err(MemorySourceError::Unbounded);
                            }
                            match spec_fingerprint(material.descriptor.category, bytes.as_slice()) {
                                Err(error) => Err(error),
                                Ok(fingerprint) => {
                                    if !fingerprint.same(&material.descriptor.fingerprint) {
                                        return Err(MemorySourceError::SpecificationChanged);
                                    }
                                    Ok(
                                        SourceRead {
                                            content: MemorySourceContent { bytes },
                                            document: SourceDocument::Absent,
                                        },
                                    )
                                },
                            }
                        },
                        Err(SpecReadFailure::Unbounded) => Err(MemorySourceError::Unbounded),
                        Err(_) => Err(MemorySourceError::Unavailable),
                    }
                },
                _ => Err(MemorySourceError::Unavailable),
            },
            document => {
                let bytes = document_bytes(document);
                assert(bytes.deep_view() =~= bytes@);
                if !bytes_digest(&bytes).same(&material.descriptor.fingerprint) {
                    return Err(MemorySourceError::RecordChanged);
                }
                Ok(
                    SourceRead {
                        content: MemorySourceContent { bytes },
                        document: document.copied(),
                    },
                )
            },
        }
    }

    /// Whether both were asked the same.
    pub closed spec fn same_logs(self, other: Self) -> bool {
        &&& self.manifests@ == other.manifests@
        &&& self.reads@ == other.reads@
        &&& self.checks@ == other.checks@
        &&& self.requests@ == other.requests@
        &&& self.replies@ == other.replies@
    }
}

/// What comparing a manifest with the sources as they are now comes to.
pub open spec fn revalidated(
    known: KnownSources,
    manifest: AuthorizedSourceManifestView,
    found: Result<Seq<SourceMaterialView>, MemorySourceError>,
) -> Result<(), MemorySourceError> {
    match found {
        Err(error) => Err(error),
        Ok(found) => match known_sources(known.project, known.directory, known.policy, found) {
            Err(error) => Err(error),
            Ok(current) => if current.manifest == manifest {
                Ok(())
            } else {
                Err(MemorySourceError::SourcesChanged)
            },
        },
    }
}

impl<F: SpecFiles> MemorySource for LocalMemorySource<F> {
    closed spec fn manifests(
        &self,
    ) -> Seq<Result<AuthorizedSourceManifestView, MemorySourceError>> {
        self.manifests@
    }

    closed spec fn reads(&self) -> Seq<
        (AuthorizedSourceDescriptorView, Result<SourceReadView, MemorySourceError>),
    > {
        self.reads@
    }

    closed spec fn checks(
        &self,
    ) -> Seq<(AuthorizedSourceManifestView, Result<(), MemorySourceError>)> {
        self.checks@
    }

    fn manifest(&mut self) -> (result: Result<AuthorizedSourceManifest, MemorySourceError>)
        ensures
            final(self).known() == old(self).known(),
            final(self).files() == old(self).files(),
            outcome(result) == Ok::<_, MemorySourceError>(old(self).known().manifest),
    {
        let manifest = self.manifest.copied();
        self.manifests = Ghost(self.manifests@.push(Ok(manifest.deep_view())));
        Ok(manifest)
    }

    fn read_verified(&mut self, source: &AuthorizedSourceDescriptor) -> (result: Result<
        SourceRead,
        MemorySourceError,
    >)
        ensures
            final(self).known() == old(self).known(),
            file_was_read(
                old(self).files(),
                final(self).files(),
                described(old(self).known().materials, source.deep_view()),
                u64::MAX,
            ),
            outcome(result) == verified_read(
                described(old(self).known().materials, source.deep_view()),
                file_reply(old(self).files(), final(self).files()),
            ),
    {
        let result = match self.find_described(source) {
            None => Err(MemorySourceError::NotDiscovered),
            Some(place) => self.read_material(place),
        };
        self.reads = Ghost(self.reads@.push((source.deep_view(), outcome(result))));
        result
    }

    fn revalidate(&mut self, manifest: &AuthorizedSourceManifest) -> (result: Result<
        (),
        MemorySourceError,
    >)
        ensures
            final(self).known() == old(self).known(),
            final(self).files().reads() == old(self).files().reads(),
            final(self).files().searches() == old(self).files().searches().push(
                SourceSearch {
                    project: old(self).known().project,
                    directory: old(self).known().directory,
                    policy: old(self).known().policy,
                    reply: final(self).files().searches().last().reply,
                },
            ),
            result == revalidated(
                old(self).known(),
                manifest.deep_view(),
                final(self).files().searches().last().reply,
            ),
    {
        let found = self.files.find_sources(&self.project, &self.directory, &self.policy);
        let ghost answer = outcome(found);
        assert(self.files.searches().last().reply == answer);
        let result = match found {
            Err(error) => Err(error),
            Ok(found) => match list_sources(&self.project, &self.directory, &self.policy, found) {
                Err(error) => Err(error),
                Ok((_, current)) => {
                    if current.same(manifest) {
                        Ok(())
                    } else {
                        Err(MemorySourceError::SourcesChanged)
                    }
                },
            },
        };
        self.checks = Ghost(self.checks@.push((manifest.deep_view(), result)));
        result
    }
}

/// The error of a read that took too long.
pub open spec fn too_late() -> MemoryQueryErrorView {
    MemoryQueryErrorView::BudgetExceeded(MemoryTruncationReason::Duration)
}

/// Refuses to go on once the time is up.
pub fn ensure_content_read_deadline<D: Deadline>(deadline: &mut D) -> (result: Result<
    (),
    MemoryQueryError,
>)
    ensures
        final(deadline).answers().len() == old(deadline).answers().len() + 1,
        final(deadline).answers() == old(deadline).answers().push(final(deadline).answers().last()),
        result is Err == is_up(final(deadline).answers().last()),
        old(deadline).limit_ms() == 0 ==> result is Err,
        final(deadline).limit_ms() == old(deadline).limit_ms(),
        result matches Err(error) ==> error.deep_view() == too_late(),
{
    if deadline.expired() {
        Err(MemoryQueryError::BudgetExceeded(MemoryTruncationReason::Duration))
    } else {
        Ok(())
    }
}

/// Whether this is the source that a request names.
pub open spec fn is_requested(
    material: SourceMaterialView,
    request: MemoryContentRequestView,
) -> bool {
    &&& material.descriptor.category == request.source_category
    &&& material.descriptor.locator == request.locator
    &&& material.descriptor.fingerprint == request.expected_fingerprint
}

/// The source that a request names.
pub open spec fn requested(
    materials: Seq<SourceMaterialView>,
    request: MemoryContentRequestView,
) -> Option<SourceMaterialView>
    decreases materials.len(),
{
    if materials.len() == 0 {
        None
    } else if is_requested(materials[0], request) {
        Some(materials[0])
    } else {
        requested(materials.skip(1), request)
    }
}

/// Whether a policy lets content of a category out, given the evidence that is asked for: never
/// where only identities and numbers may be known, and only a marked place where only structure or
/// curated sections may be read.
pub open spec fn lets_out(
    policy: MemoryPolicyView,
    category: MemorySourceCategory,
    evidence: Option<MemoryEvidenceLocatorView>,
) -> bool {
    match policy.category(category) {
        None => false,
        Some(source) => source.enabled && match source.content_access {
            MemoryContentAccess::StructureOnly | MemoryContentAccess::CuratedSections => evidence is Some
                && evidence->0 is Span,
            MemoryContentAccess::RawBody => true,
            MemoryContentAccess::IdentityAndCountsOnly => false,
        },
    }
}

/// The source that a request may read, or why it may not.
pub open spec fn permitted(known: KnownSources, request: MemoryContentRequestView) -> Result<
    SourceMaterialView,
    MemoryQueryErrorView,
> {
    if request.project != known.project {
        Err(MemoryQueryErrorView::SourceNotAuthorized)
    } else if known.manifest.error() is Some || request.revision_id != known.manifest.revision() {
        Err(MemoryQueryErrorView::ContentChanged)
    } else if !lets_out(known.policy, request.source_category, request.evidence) {
        Err(MemoryQueryErrorView::SourceNotAuthorized)
    } else {
        match requested(known.materials, request) {
            Some(material) => Ok(material),
            None => Err(MemoryQueryErrorView::ContentChanged),
        }
    }
}

/// The content of a source that still is what it was. Whether the time is up is asked once more.
pub open spec fn verified_content(
    material: SourceMaterialView,
    file: Result<Seq<u8>, SpecReadFailure>,
    late: bool,
) -> Result<Seq<u8>, MemoryQueryErrorView> {
    match material.document {
        SourceDocumentView::Absent => match (material.descriptor.locator, file) {
            (MemorySourceLocatorView::TrackedFile { path: _ }, Ok(bytes)) => if bytes.len()
                > MAX_SPEC_BYTES {
                Err(MemoryQueryErrorView::ContentChanged)
            } else {
                match fingerprint_of(material.descriptor.category, bytes) {
                    Err(_) => Err(MemoryQueryErrorView::ContentChanged),
                    Ok(fingerprint) => if late {
                        Err(too_late())
                    } else if fingerprint != material.descriptor.fingerprint {
                        Err(MemoryQueryErrorView::ContentChanged)
                    } else {
                        Ok(bytes)
                    },
                }
            },
            (MemorySourceLocatorView::TrackedFile { path: _ }, Err(SpecReadFailure::Expired)) => Err(
                too_late(),
            ),
            _ => Err(MemoryQueryErrorView::ContentChanged),
        },
        document => if bytes_fingerprint(record_bytes(document)) != material.descriptor.fingerprint {
            Err(MemoryQueryErrorView::ContentChanged)
        } else if late {
            Err(too_late())
        } else {
            Ok(record_bytes(document))
        },
    }
}

/// The last character boundary that is not behind a place.
pub open spec fn boundary_at_most(bytes: Seq<u8>, place: int) -> int
    decreases place,
{
    if place <= 0 {
        0
    } else if vstd::utf8::is_char_boundary(bytes, place) {
        place
    } else {
        boundary_at_most(bytes, place - 1)
    }
}

/// The part of a content that a request asks for.
pub open spec fn evidence_bytes(
    evidence: Option<MemoryEvidenceLocatorView>,
    bytes: Seq<u8>,
) -> Option<Seq<u8>> {
    match evidence {
        Some(MemoryEvidenceLocatorView::Span(span)) => if span.start.byte_offset <= span.end.byte_offset
            <= bytes.len() {
            Some(bytes.subrange(span.start.byte_offset as int, span.end.byte_offset as int))
        } else {
            None
        },
        _ => Some(bytes),
    }
}

/// What is answered of a content: the part that was asked for, cut where it is too long, and never
/// inside a character.
pub open spec fn cut_content(
    request: MemoryContentRequestView,
    fingerprint: DigestView,
    bytes: Seq<u8>,
) -> Result<MemoryContentResponseView, MemoryQueryErrorView> {
    match evidence_bytes(request.evidence, bytes) {
        None => Err(MemoryQueryErrorView::ContentChanged),
        Some(part) => if !vstd::utf8::valid_utf8(part) {
            Err(backend("content.nonutf8"@))
        } else {
            let length = boundary_at_most(
                part,
                if part.len() <= request.max_bytes {
                    part.len() as int
                } else {
                    request.max_bytes as int
                },
            );
            Ok(
                MemoryContentResponseView {
                    verified_fingerprint: fingerprint,
                    bytes: part.take(length),
                    truncated: length < part.len(),
                },
            )
        },
    }
}

/// The source that is read for a request: none where the time is up before, or the request may not
/// read it.
pub open spec fn content_source(
    known: KnownSources,
    request: MemoryContentRequestView,
    answers: Seq<u64>,
    at: int,
) -> Option<SourceMaterialView> {
    if is_up(answers[at]) {
        None
    } else {
        match permitted(known, request) {
            Err(_) => None,
            Ok(material) => if is_up(answers[at + 1]) {
                None
            } else {
                Some(material)
            },
        }
    }
}

/// The question that is asked once a source is read, the first of them being `at`: one more is asked
/// for the time that is left to read a file.
pub open spec fn asked_after_reading(material: SourceMaterialView, at: int) -> int {
    if is_tracked(material) {
        at + 1
    } else {
        at
    }
}

/// What a request is answered, given the file that was read where one had to be, and the times that
/// were left.
pub open spec fn content_answer(
    known: KnownSources,
    request: MemoryContentRequestView,
    file: Result<Seq<u8>, SpecReadFailure>,
    answers: Seq<u64>,
    at: int,
) -> Result<MemoryContentResponseView, MemoryQueryErrorView> {
    if is_up(answers[at]) {
        Err(too_late())
    } else {
        match permitted(known, request) {
            Err(error) => Err(error),
            Ok(material) => if is_up(answers[at + 1]) {
                Err(too_late())
            } else {
                let read = asked_after_reading(material, at + 2);
                match verified_content(material, file, is_up(answers[read])) {
                    Err(error) => Err(error),
                    Ok(bytes) => if is_up(answers[read + 1]) {
                        Err(too_late())
                    } else {
                        match cut_content(request, material.descriptor.fingerprint, bytes) {
                            Err(error) => Err(error),
                            Ok(response) => if is_up(answers[read + 2]) {
                                Err(too_late())
                            } else {
                                Ok(response)
                            },
                        }
                    },
                }
            },
        }
    }
}

proof fn boundary_is_one(bytes: Seq<u8>, place: int)
    requires
        vstd::utf8::valid_utf8(bytes),
        0 <= place <= bytes.len(),
    ensures
        0 <= boundary_at_most(bytes, place) <= place,
        vstd::utf8::is_char_boundary(bytes, boundary_at_most(bytes, place)),
        vstd::utf8::is_char_boundary(bytes, place) ==> boundary_at_most(bytes, place) == place,
    decreases place,
{
    vstd::utf8::is_char_boundary_start_end_of_seq(bytes);
    if place > 0 && !vstd::utf8::is_char_boundary(bytes, place) {
        boundary_is_one(bytes, place - 1);
    }
}

/// What is answered is the beginning of the part that was asked for, no longer than it may be, made
/// of whole characters, and marked as cut exactly where something is missing. Nothing is cut from a
/// part that is short enough.
pub proof fn answers_are_whole_characters(
    request: MemoryContentRequestView,
    fingerprint: DigestView,
    bytes: Seq<u8>,
)
    ensures
        cut_content(request, fingerprint, bytes) matches Ok(response) ==> {
            let part = evidence_bytes(request.evidence, bytes)->0;
            &&& response.bytes.len() <= request.max_bytes
            &&& response.bytes.len() <= part.len()
            &&& response.bytes == part.take(response.bytes.len() as int)
            &&& vstd::utf8::valid_utf8(response.bytes)
            &&& response.truncated == (response.bytes != part)
            &&& response.truncated == (part.len() > request.max_bytes)
        },
{
    if let Ok(response) = cut_content(request, fingerprint, bytes) {
        let part = evidence_bytes(request.evidence, bytes)->0;
        let place = if part.len() <= request.max_bytes {
            part.len() as int
        } else {
            request.max_bytes as int
        };
        boundary_is_one(part, place);
        vstd::utf8::is_char_boundary_start_end_of_seq(part);
        vstd::utf8::valid_utf8_split(part, response.bytes.len() as int);
        assert(part.subrange(0, response.bytes.len() as int) =~= response.bytes);
        if response.bytes.len() == part.len() {
            assert(response.bytes =~= part);
        }
    }
}

/// Nothing of a category that the policy does not let out is ever answered, and nothing of another
/// project or another revision.
pub proof fn only_authorized_content_is_answered(
    known: KnownSources,
    request: MemoryContentRequestView,
    file: Result<Seq<u8>, SpecReadFailure>,
    answers: Seq<u64>,
    at: int,
)
    ensures
        content_answer(known, request, file, answers, at) is Ok ==> request.project == known.project
            && request.revision_id == known.manifest.revision() && lets_out(
            known.policy,
            request.source_category,
            request.evidence,
        ) && requested(known.materials, request) is Some && content_answer(
            known,
            request,
            file,
            answers,
            at,
        )->Ok_0.verified_fingerprint == request.expected_fingerprint,
{
    requested_is_requested(known.materials, request);
}

proof fn requested_is_requested(
    materials: Seq<SourceMaterialView>,
    request: MemoryContentRequestView,
)
    ensures
        requested(materials, request) matches Some(material) ==> is_requested(material, request),
    decreases materials.len(),
{
    if materials.len() > 0 && !is_requested(materials[0], request) {
        requested_is_requested(materials.skip(1), request);
    }
}

/// The part of a content that a request asks for, cut where it is too long.
pub fn cut_response(
    request: &MemoryContentRequest,
    fingerprint: &Digest,
    bytes: &Vec<u8>,
) -> (result: Result<MemoryContentResponse, MemoryQueryError>)
    ensures
        outcome(result) == cut_content(request.deep_view(), fingerprint.deep_view(), bytes@),
{
    let (start, end): (usize, usize) = match &request.evidence {
        Some(MemoryEvidenceLocator::Span(span)) => {
            if span.start.byte_offset > span.end.byte_offset || span.end.byte_offset > bytes.len() as u64 {
                return Err(MemoryQueryError::ContentChanged);
            }
            (span.start.byte_offset as usize, span.end.byte_offset as usize)
        },
        _ => (0, bytes.len()),
    };
    let mut part: Vec<u8> = Vec::new();
    let mut at: usize = start;
    while at < end
        invariant
            start <= at <= end <= bytes.len(),
            part@ == bytes@.subrange(start as int, at as int),
        decreases end - at,
    {
        part.push(bytes[at]);
        assert(part@ =~= bytes@.subrange(start as int, at + 1));
        at += 1;
    }
    assert(bytes@.subrange(0, bytes@.len() as int) =~= bytes@);
    assert(evidence_bytes(request.deep_view().evidence, bytes@) == Some(part@));
    let text = match utf8_text(part.as_slice()) {
        Some(text) => text,
        None => {
            proof {
                reveal_strlit("content.nonutf8");
            }
            return Err(backend_error("content.nonutf8"));
        },
    };
    let max_bytes = request.max_bytes.get();
    let mut length: usize = if part.len() as u64 <= max_bytes {
        part.len()
    } else {
        max_bytes as usize
    };
    let ghost wanted = length as int;
    proof {
        vstd::utf8::decode_utf8_encode_utf8(part@);
        boundary_is_one(part@, wanted);
    }
    while length > 0 && !text.as_str().is_char_boundary(length)
        invariant
            length <= wanted <= part.len(),
            vstd::utf8::valid_utf8(part@),
            text@ == vstd::utf8::decode_utf8(part@),
            vstd::utf8::encode_utf8(text@) == part@,
            boundary_at_most(part@, wanted) == boundary_at_most(part@, length as int),
        decreases length,
    {
        length -= 1;
    }
    assert(length == boundary_at_most(part@, wanted));
    let truncated = length < part.len();
    let ghost whole = part@;
    part.truncate(length);
    assert(part@ =~= whole.take(length as int));
    let response = MemoryContentResponse {
        verified_fingerprint: fingerprint.copied(),
        bytes: part,
        truncated,
    };
    assert(response.deep_view().bytes =~= whole.take(length as int));
    Ok(response)
}

impl<F: SpecFiles> LocalMemorySource<F> {
    fn find_requested(&self, request: &MemoryContentRequest) -> (place: Option<usize>)
        ensures
            match place {
                Some(place) => place < self.materials.len() && requested(
                    self.known().materials,
                    request.deep_view(),
                ) == Some(self.materials@[place as int].deep_view()),
                None => requested(self.known().materials, request.deep_view()) is None,
            },
    {
        let ghost models = self.materials.deep_view();
        let mut at: usize = 0;
        assert(models.skip(0) =~= models);
        while at < self.materials.len()
            invariant
                at <= self.materials.len(),
                models == self.materials.deep_view(),
                requested(models, request.deep_view()) == requested(
                    models.skip(at as int),
                    request.deep_view(),
                ),
            decreases self.materials.len() - at,
        {
            assert(models[at as int] == self.materials@[at as int].deep_view());
            assert(models.skip(at as int)[0] == models[at as int]);
            assert(models.skip(at as int).skip(1) =~= models.skip(at + 1));
            let descriptor = &self.materials[at].descriptor;
            if descriptor.category == request.source_category && descriptor.locator.same(
                &request.locator,
            ) && descriptor.fingerprint.same(&request.expected_fingerprint) {
                return Some(at);
            }
            at += 1;
        }
        None
    }

    /// The place of the source that a request may read, or why it may not.
    fn permit(&self, request: &MemoryContentRequest) -> (result: Result<usize, MemoryQueryError>)
        ensures
            match result {
                Ok(place) => place < self.materials.len() && permitted(
                    self.known(),
                    request.deep_view(),
                ) == Ok::<_, MemoryQueryErrorView>(self.materials@[place as int].deep_view()),
                Err(error) => permitted(self.known(), request.deep_view()) == Err::<
                    SourceMaterialView,
                    _,
                >(error.deep_view()),
            },
    {
        if !request.project.same(&self.project) {
            return Err(MemoryQueryError::SourceNotAuthorized);
        }
        match self.manifest.revision_id() {
            Ok(revision_id) => {
                if !request.revision_id.same(&revision_id) {
                    return Err(MemoryQueryError::ContentChanged);
                }
            },
            Err(_) => {
                return Err(MemoryQueryError::ContentChanged);
            },
        }
        let allowed = match self.policy.category(request.source_category) {
            None => false,
            Some(policy) => policy.enabled && match policy.content_access {
                MemoryContentAccess::StructureOnly | MemoryContentAccess::CuratedSections => matches!(
                    &request.evidence,
                    Some(MemoryEvidenceLocator::Span(_))
                ),
                MemoryContentAccess::RawBody => true,
                MemoryContentAccess::IdentityAndCountsOnly => false,
            },
        };
        assert(allowed == lets_out(
            self.known().policy,
            request.source_category,
            request.deep_view().evidence,
        ));
        if !allowed {
            return Err(MemoryQueryError::SourceNotAuthorized);
        }
        match self.find_requested(request) {
            Some(place) => Ok(place),
            None => Err(MemoryQueryError::ContentChanged),
        }
    }

    /// Reads the content of a source that still is what it was.
    fn read_verified_content<D: Deadline>(
        &mut self,
        place: usize,
        deadline: &mut D,
    ) -> (result: Result<Vec<u8>, MemoryQueryError>)
        requires
            place < old(self).materials.len(),
        ensures
            final(self).known() == old(self).known(),
            final(self).materials == old(self).materials,
            final(self).same_logs(*old(self)),
            file_was_read(
                old(self).files,
                final(self).files,
                Some(old(self).materials@[place as int].deep_view()),
                final(deadline).answers()[old(deadline).answers().len() as int],
            ),
            read_within(old(self).files, final(self).files, old(deadline).limit_ms()),
            begins(old(deadline).answers(), final(deadline).answers()),
            final(deadline).limit_ms() == old(deadline).limit_ms(),
            forall|answers: Seq<u64>|
                #![trigger begins(final(deadline).answers(), answers)]
                begins(final(deadline).answers(), answers) ==> verified_content(
                    old(self).materials@[place as int].deep_view(),
                    file_reply(old(self).files, final(self).files),
                    is_up(
                        answers[asked_after_reading(
                            old(self).materials@[place as int].deep_view(),
                            old(deadline).answers().len() as int,
                        )],
                    ),
                ) == match result {
                    Ok(bytes) => Ok(bytes@),
                    Err(error) => Err(error.deep_view()),
                },
            result is Ok ==> final(deadline).answers().len() == asked_after_reading(
                old(self).materials@[place as int].deep_view(),
                old(deadline).answers().len() as int,
            ) + 1,
    {
        let ghost before = deadline.answers();
        let material = &self.materials[place];
        match &material.document {
            SourceDocument::Absent => match &material.descriptor.locator {
                MemorySourceLocator::TrackedFile { path } => {
                    let remaining_ms = deadline.remaining_ms();
                    let reply = self.files.read_spec(path, remaining_ms);
                    match reply {
                        Ok(bytes) => {
                            assert(bytes.deep_view() =~= bytes@);
                            if bytes.len() as u64 > MAX_SPEC_BYTES {
                                return Err(MemoryQueryError::ContentChanged);
                            }
                            match spec_fingerprint(material.descriptor.category, bytes.as_slice()) {
                                Err(_) => Err(MemoryQueryError::ContentChanged),
                                Ok(fingerprint) => {
                                    let late = ensure_content_read_deadline(deadline);
                                    assert(is_up(deadline.answers()[before.len() as int + 1]) == late is Err);
                                    assert(deadline.answers()[before.len() as int] == remaining_ms);
                                    match late {
                                        Err(error) => Err(error),
                                        Ok(_) => {
                                            if !fingerprint.same(&material.descriptor.fingerprint) {
                                                return Err(MemoryQueryError::ContentChanged);
                                            }
                                            Ok(bytes)
                                        },
                                    }
                                },
                            }
                        },
                        Err(SpecReadFailure::Expired) => Err(
                            MemoryQueryError::BudgetExceeded(MemoryTruncationReason::Duration),
                        ),
                        Err(_) => Err(MemoryQueryError::ContentChanged),
                    }
                },
                _ => Err(MemoryQueryError::ContentChanged),
            },
            document => {
                let bytes = document_bytes(document);
                if !bytes_digest(&bytes).same(&material.descriptor.fingerprint) {
                    return Err(MemoryQueryError::ContentChanged);
                }
                let late = ensure_content_read_deadline(deadline);
                assert(is_up(deadline.answers()[before.len() as int]) == late is Err);
                match late {
                    Err(error) => Err(error),
                    Ok(_) => Ok(bytes),
                }
            },
        }
    }

    /// Reads what a request asks for, unless the time is up before.
    pub fn content_within<D: Deadline>(
        &mut self,
        request: &MemoryContentRequest,
        deadline: &mut D,
    ) -> (result: Result<MemoryContentResponse, MemoryQueryError>)
        ensures
            final(self).known() == old(self).known(),
            final(self).same_logs(*old(self)),
            begins(old(deadline).answers(), final(deadline).answers()),
            file_was_read(
                old(self).files(),
                final(self).files(),
                content_source(
                    old(self).known(),
                    request.deep_view(),
                    final(deadline).answers(),
                    old(deadline).answers().len() as int,
                ),
                final(deadline).answers()[old(deadline).answers().len() as int + 2],
            ),
            read_within(old(self).files(), final(self).files(), old(deadline).limit_ms()),
            forall|answers: Seq<u64>|
                begins(final(deadline).answers(), answers) ==> #[trigger] content_answer(
                    old(self).known(),
                    request.deep_view(),
                    file_reply(old(self).files(), final(self).files()),
                    answers,
                    old(deadline).answers().len() as int,
                ) == outcome(result),
    {
        let ghost at = deadline.answers().len() as int;
        let late = ensure_content_read_deadline(deadline);
        let ghost first = deadline.answers();
        assert(is_up(first[at]) == late is Err);
        match late {
            Ok(_) => {},
            Err(error) => {
                return Err(error);
            },
        }
        let place = match self.permit(request) {
            Ok(place) => place,
            Err(error) => {
                return Err(error);
            },
        };
        let late = ensure_content_read_deadline(deadline);
        let ghost second = deadline.answers();
        assert(second[at] == first[at]);
        assert(is_up(second[at + 1]) == late is Err);
        match late {
            Ok(_) => {},
            Err(error) => {
                return Err(error);
            },
        }
        let ghost read = asked_after_reading(self.materials@[place as int].deep_view(), at + 2);
        let content = self.read_verified_content(place, deadline);
        let ghost third = deadline.answers();
        assert(third[at] == second[at]);
        assert(third[at + 1] == second[at + 1]);
        let bytes = match content {
            Ok(bytes) => bytes,
            Err(error) => {
                assert forall|answers: Seq<u64>| begins(third, answers) implies answers[at] == third[at]
                    && #[trigger] answers[at + 1] == third[at + 1] by {}
                return Err(error);
            },
        };
        let late = ensure_content_read_deadline(deadline);
        let ghost fourth = deadline.answers();
        proof {
            assert(fourth[at] == third[at]);
            assert(fourth[at + 1] == third[at + 1]);
            assert(fourth[at + 2] == third[at + 2]);
            assert(is_up(fourth[read + 1]) == late is Err);
            assert(begins(third, fourth));
            later_begins(third, fourth);
        }
        match late {
            Ok(_) => {},
            Err(error) => {
                return Err(error);
            },
        }
        let response = match cut_response(request, &self.materials[place].descriptor.fingerprint, &bytes) {
            Ok(response) => response,
            Err(error) => {
                return Err(error);
            },
        };
        let late = ensure_content_read_deadline(deadline);
        let ghost fifth = deadline.answers();
        proof {
            assert(fifth[at] == fourth[at]);
            assert(fifth[at + 1] == fourth[at + 1]);
            assert(fifth[at + 2] == fourth[at + 2]);
            assert(fifth[read + 1] == fourth[read + 1]);
            assert(is_up(fifth[read + 2]) == late is Err);
            assert(begins(fourth, fifth));
            later_begins(third, fifth);
        }
        match late {
            Ok(_) => Ok(response),
            Err(error) => Err(error),
        }
    }
}

/// What begins with more begins with less.
proof fn later_begins(first: Seq<u64>, second: Seq<u64>)
    requires
        begins(first, second),
    ensures
        forall|all: Seq<u64>| #[trigger] begins(second, all) ==> begins(first, all),
{
    assert forall|all: Seq<u64>| #[trigger] begins(second, all) implies begins(first, all) by {
        assert forall|i: int| 0 <= i < first.len() implies #[trigger] all[i] == first[i] by {
            assert(all[i] == second[i]);
        }
    }
}

impl<F: SpecFiles> MemoryContent for LocalMemorySource<F> {
    closed spec fn requests(&self) -> Seq<(MemoryContentRequestView, u64)> {
        self.requests@
    }

    closed spec fn replies(&self) -> Seq<Result<MemoryContentResponseView, MemoryQueryErrorView>> {
        self.replies@
    }

    fn content_with_deadline(
        &mut self,
        request: MemoryContentRequest,
        max_duration_ms: u64,
    ) -> (result: Result<MemoryContentResponse, MemoryQueryError>)
        ensures
            final(self).known() == old(self).known(),
            exists|answers: Seq<u64>| #[trigger]
                content_answer(
                    old(self).known(),
                    request.deep_view(),
                    file_reply(old(self).files(), final(self).files()),
                    answers,
                    0,
                ) == outcome(result) && file_was_read(
                    old(self).files(),
                    final(self).files(),
                    content_source(old(self).known(), request.deep_view(), answers, 0),
                    answers[2],
                ),
            read_within(old(self).files(), final(self).files(), max_duration_ms),
    {
        let ghost before = *self;
        let mut deadline = TimeLimit::after_ms(max_duration_ms);
        let result = self.content_within(&request, &mut deadline);
        proof {
            assert(begins(deadline.answers(), deadline.answers()));
            assert(content_answer(
                before.known(),
                request.deep_view(),
                file_reply(before.files(), self.files()),
                deadline.answers(),
                0,
            ) == outcome(result));
        }
        self.requests = Ghost(self.requests@.push((request.deep_view(), max_duration_ms)));
        self.replies = Ghost(self.replies@.push(outcome(result)));
        result
    }
}

/// A source that did not change since it was found can be read: the record of an archive or of the
/// runtime always, and a tracked specification where its file still has the same bytes.
pub proof fn what_was_found_can_be_read(
    project: ProjectRefView,
    archive: ArchiveSourceDocumentView,
    runtime: RuntimeSourceDocumentView,
    path: Seq<char>,
    bytes: Seq<u8>,
    file_bytes: u64,
    file: Result<Seq<u8>, SpecReadFailure>,
)
    ensures
        verified_read(Some(archive_source(project, archive, file_bytes)), file) == Ok::<
            _,
            MemorySourceError,
        >(
            SourceReadView {
                content: MemorySourceContentView {
                    bytes: record_bytes(SourceDocumentView::Archive(archive)),
                },
                document: SourceDocumentView::Archive(archive),
            },
        ),
        verified_read(Some(runtime_source(project, runtime)), file) == Ok::<_, MemorySourceError>(
            SourceReadView {
                content: MemorySourceContentView {
                    bytes: record_bytes(SourceDocumentView::Runtime(runtime)),
                },
                document: SourceDocumentView::Runtime(runtime),
            },
        ),
        vstd::utf8::valid_utf8(bytes) && bytes.len() <= MAX_SPEC_BYTES ==> verified_read(
            Some(
                tracked_source(
                    project,
                    MemorySourceCategory::SpecificationStructure,
                    path,
                    structure_fingerprint(readable_text(bytes)),
                    file_bytes,
                ),
            ),
            Ok(bytes),
        ) == Ok::<_, MemorySourceError>(
            SourceReadView {
                content: MemorySourceContentView { bytes },
                document: SourceDocumentView::Absent,
            },
        ),
{
}

/// The files of a project that are all at hand.
pub struct KeptFiles {
    inventory: SourceInventory,
    events: Vec<EventRow>,
    reads: Ghost<Seq<FileRead>>,
    searches: Ghost<Seq<SourceSearch>>,
}

/// The bytes of the file with a path.
pub open spec fn file_at(files: Seq<TrackedFileView>, path: Seq<char>) -> Option<Seq<u8>>
    decreases files.len(),
{
    if files.len() == 0 {
        None
    } else if files[0].path == path {
        Some(files[0].bytes)
    } else {
        file_at(files.skip(1), path)
    }
}

impl KeptFiles {
    /// What the project has.
    pub closed spec fn holds(self) -> SourceInventoryView {
        self.inventory.deep_view()
    }

    /// The events of the project's runtime.
    pub closed spec fn happened(self) -> Seq<EventRowView> {
        self.events.deep_view()
    }

    /// The files of a project; all specifications among them lie in its directory.
    pub fn new(inventory: SourceInventory, events: Vec<EventRow>) -> (files: Self)
        ensures
            files.holds() == inventory.deep_view(),
            files.happened() == events.deep_view(),
            files.reads().len() == 0,
            files.searches().len() == 0,
    {
        KeptFiles {
            inventory,
            events,
            reads: Ghost(Seq::empty()),
            searches: Ghost(Seq::empty()),
        }
    }

    fn find_file(&self, path: &RepoPath) -> (bytes: Option<Vec<u8>>)
        ensures
            match bytes {
                Some(bytes) => file_at(self.holds().files, path.deep_view()) == Some(bytes@),
                None => file_at(self.holds().files, path.deep_view()) is None,
            },
    {
        let files = &self.inventory.files;
        let ghost models = files.deep_view();
        let mut at: usize = 0;
        assert(models.skip(0) =~= models);
        while at < files.len()
            invariant
                at <= files.len(),
                models == files.deep_view(),
                models == self.holds().files,
                file_at(models, path.deep_view()) == file_at(models.skip(at as int), path.deep_view()),
            decreases files.len() - at,
        {
            assert(models[at as int] == files@[at as int].deep_view());
            assert(models.skip(at as int)[0] == models[at as int]);
            assert(models.skip(at as int).skip(1) =~= models.skip(at + 1));
            if files[at].path.same(path) {
                let bytes = files[at].bytes.copied();
                assert(bytes.deep_view() =~= bytes@);
                return Some(bytes);
            }
            at += 1;
        }
        None
    }
}

impl SpecFiles for KeptFiles {
    closed spec fn reads(&self) -> Seq<FileRead> {
        self.reads@
    }

    closed spec fn searches(&self) -> Seq<SourceSearch> {
        self.searches@
    }

    fn read_spec(&mut self, path: &RepoPath, max_duration_ms: u64) -> (result: Result<
        Vec<u8>,
        SpecReadFailure,
    >)
        ensures
            final(self).holds() == old(self).holds(),
            outcome(result) == match file_at(old(self).holds().files, path.deep_view()) {
                Some(bytes) => Ok(bytes),
                None => Err(SpecReadFailure::Unavailable),
            },
    {
        let result = match self.find_file(path) {
            Some(bytes) => {
                assert(bytes.deep_view() =~= bytes@);
                Ok(bytes)
            },
            None => Err(SpecReadFailure::Unavailable),
        };
        self.reads = Ghost(
            self.reads@.push(
                FileRead { path: path.deep_view(), max_duration_ms, reply: outcome(result) },
            ),
        );
        result
    }

    fn find_sources(&mut self, project: &ProjectRef, directory: &RepoPath, policy: &MemoryPolicy) -> (result:
        Result<Vec<SourceMaterial>, MemorySourceError>)
        ensures
            final(self).holds() == old(self).holds(),
            final(self).happened() == old(self).happened(),
            outcome(result) == found_sources(
                project.deep_view(),
                policy.deep_view(),
                old(self).holds(),
                old(self).happened(),
            ),
    {
        let result = discover_sources(project, policy, &self.inventory, &self.events);
        self.searches = Ghost(
            self.searches@.push(
                SourceSearch {
                    project: project.deep_view(),
                    directory: directory.deep_view(),
                    policy: policy.deep_view(),
                    reply: outcome(result),
                },
            ),
        );
        result
    }
}

}
