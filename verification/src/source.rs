//! Where a project's memory comes from: which sources there are, and what they are known by.
use vstd::prelude::*;
use crate::digest::{sha256_of, Digest, DigestView};
use crate::documents::{
    moved_titles_are_told_apart, parse_spec_memory, parsed, ArchiveSourceDocument,
    ArchiveSourceDocumentView, RuntimeCheckDocument, RuntimeCheckDocumentView, RuntimeRunDocument,
    RuntimeRunDocumentView, RuntimeSourceDocument, RuntimeSourceDocumentView, RuntimeTaskDocument,
    RuntimeTaskDocumentView, SpecOutcomeDocument, SpecOutcomeDocumentView, SpecStructureDocument,
};
use crate::domain::{
    AuthorizedSourceDescriptor, AuthorizedSourceDescriptorView, MemoryRecordId,
    MemorySourceCategory, MemorySourceLocator, MemorySourceLocatorView, MemoryStatusToken,
    ProjectRef,
    ProjectRefView, MAX_ID_BYTES,
};
use crate::json::{byte_len, only_text, read_only_text, ToJson};
use crate::members::{find_text, object_members, read_members, text_member};
use crate::order::{in_order, listed, sorted_distinct, OrderedMap};
use crate::policy::{MemoryPolicy, MemoryPolicyView};
use crate::ports::{MemorySourceError, SourceDocument, SourceDocumentView};
use crate::record::{outcome, Record};
use crate::repository::{is_repo_path, RepoPath, SnapshotId, MAX_IDENTITY_BYTES};
use crate::sort::{text_key, SortKey, Sortable};
use crate::text::{
    contains_text, joined, occurs_in, signed_decimal, signed_decimal_of, starts_with, trim, trimmed,
    utf8_text,
};
use crate::value::is_bounded_text;

verus! {

/// The most bytes that a tracked specification may have.
pub const MAX_SPEC_BYTES: u64 = 4_194_304;

/// The most bytes that the manifest of an archive may have.
pub const MAX_ARCHIVE_MANIFEST_BYTES: u64 = 1_048_576;

/// The most sources that a project may have.
pub const MAX_SOURCES: usize = 100_000;

/// The most records of each kind that the runtime may have.
pub const MAX_RUNTIME_RECORDS: usize = 100_000;

/// The most bytes that the runtime's records may have.
pub const MAX_RUNTIME_SOURCE_BYTES: u64 = 16_777_216;

/// The most bytes that the list of tracked files may have.
pub const MAX_GIT_LIST_BYTES: usize = 67_108_864;

/// The most bytes of an event that are looked at.
pub const MAX_EVENT_BYTES: u64 = 65_536;

/// A task, as the manifest of an archive tells it.
#[derive(Debug, PartialEq, Eq)]
pub struct RawArchiveTask {
    pub id: String,
    pub milestone_id: Option<String>,
}

/// The model of [`RawArchiveTask`].
pub struct RawArchiveTaskView {
    pub id: Seq<char>,
    pub milestone_id: Option<Seq<char>>,
}

impl DeepView for RawArchiveTask {
    type V = RawArchiveTaskView;

    open spec fn deep_view(&self) -> RawArchiveTaskView {
        RawArchiveTaskView {
            id: self.id.deep_view(),
            milestone_id: self.milestone_id.deep_view(),
        }
    }
}

impl Record for RawArchiveTask {
    fn copied(&self) -> (copy: Self) {
        RawArchiveTask {
            id: self.id.copied(),
            milestone_id: self.milestone_id.copied(),
        }
    }

    fn same(&self, other: &Self) -> (same: bool) {
        self.id.same(&other.id)
            && self.milestone_id.same(&other.milestone_id)
    }
}

impl Clone for RawArchiveTask {
    fn clone(&self) -> (copy: Self)
        ensures
            copy.deep_view() == self.deep_view(),
    {
        self.copied()
    }
}

/// The manifest of an archive, as it stands there.
#[derive(Debug, PartialEq, Eq)]
pub struct RawArchiveManifest {
    pub spec_path: String,
    pub archived_at: String,
    pub tasks: Vec<RawArchiveTask>,
}

/// The model of [`RawArchiveManifest`].
pub struct RawArchiveManifestView {
    pub spec_path: Seq<char>,
    pub archived_at: Seq<char>,
    pub tasks: Seq<RawArchiveTaskView>,
}

impl DeepView for RawArchiveManifest {
    type V = RawArchiveManifestView;

    open spec fn deep_view(&self) -> RawArchiveManifestView {
        RawArchiveManifestView {
            spec_path: self.spec_path.deep_view(),
            archived_at: self.archived_at.deep_view(),
            tasks: self.tasks.deep_view(),
        }
    }
}

impl Record for RawArchiveManifest {
    fn copied(&self) -> (copy: Self) {
        RawArchiveManifest {
            spec_path: self.spec_path.copied(),
            archived_at: self.archived_at.copied(),
            tasks: self.tasks.copied(),
        }
    }

    fn same(&self, other: &Self) -> (same: bool) {
        self.spec_path.same(&other.spec_path)
            && self.archived_at.same(&other.archived_at)
            && self.tasks.same(&other.tasks)
    }
}

impl Clone for RawArchiveManifest {
    fn clone(&self) -> (copy: Self)
        ensures
            copy.deep_view() == self.deep_view(),
    {
        self.copied()
    }
}

/// What was recorded when a specification was archived.
#[derive(Debug, PartialEq, Eq)]
pub struct ArchiveProof {
    /// The specification.
    pub spec_path: String,
    /// The specification that the manifest of the archive names, where it can be read.
    pub manifest_spec_path: Option<String>,
    /// The copy of the specification in the archive, where it can be read.
    pub spec_copy: Option<String>,
    /// The outcome that was recorded.
    pub recorded_outcome: String,
}

/// The model of [`ArchiveProof`].
pub struct ArchiveProofView {
    pub spec_path: Seq<char>,
    pub manifest_spec_path: Option<Seq<char>>,
    pub spec_copy: Option<Seq<char>>,
    pub recorded_outcome: Seq<char>,
}

impl DeepView for ArchiveProof {
    type V = ArchiveProofView;

    open spec fn deep_view(&self) -> ArchiveProofView {
        ArchiveProofView {
            spec_path: self.spec_path.deep_view(),
            manifest_spec_path: self.manifest_spec_path.deep_view(),
            spec_copy: self.spec_copy.deep_view(),
            recorded_outcome: self.recorded_outcome.deep_view(),
        }
    }
}

impl Record for ArchiveProof {
    fn copied(&self) -> (copy: Self) {
        ArchiveProof {
            spec_path: self.spec_path.copied(),
            manifest_spec_path: self.manifest_spec_path.copied(),
            spec_copy: self.spec_copy.copied(),
            recorded_outcome: self.recorded_outcome.copied(),
        }
    }

    fn same(&self, other: &Self) -> (same: bool) {
        self.spec_path.same(&other.spec_path)
            && self.manifest_spec_path.same(&other.manifest_spec_path)
            && self.spec_copy.same(&other.spec_copy)
            && self.recorded_outcome.same(&other.recorded_outcome)
    }
}

impl Clone for ArchiveProof {
    fn clone(&self) -> (copy: Self)
        ensures
            copy.deep_view() == self.deep_view(),
    {
        self.copied()
    }
}

/// A task of the runtime.
#[derive(Debug, PartialEq, Eq)]
pub struct TaskRow {
    pub id: String,
    pub milestone_id: Option<String>,
    pub status: String,
    pub baseline_snapshot_id: Option<String>,
    pub repository_snapshot_id: Option<String>,
}

/// The model of [`TaskRow`].
pub struct TaskRowView {
    pub id: Seq<char>,
    pub milestone_id: Option<Seq<char>>,
    pub status: Seq<char>,
    pub baseline_snapshot_id: Option<Seq<char>>,
    pub repository_snapshot_id: Option<Seq<char>>,
}

impl DeepView for TaskRow {
    type V = TaskRowView;

    open spec fn deep_view(&self) -> TaskRowView {
        TaskRowView {
            id: self.id.deep_view(),
            milestone_id: self.milestone_id.deep_view(),
            status: self.status.deep_view(),
            baseline_snapshot_id: self.baseline_snapshot_id.deep_view(),
            repository_snapshot_id: self.repository_snapshot_id.deep_view(),
        }
    }
}

impl Record for TaskRow {
    fn copied(&self) -> (copy: Self) {
        TaskRow {
            id: self.id.copied(),
            milestone_id: self.milestone_id.copied(),
            status: self.status.copied(),
            baseline_snapshot_id: self.baseline_snapshot_id.copied(),
            repository_snapshot_id: self.repository_snapshot_id.copied(),
        }
    }

    fn same(&self, other: &Self) -> (same: bool) {
        self.id.same(&other.id)
            && self.milestone_id.same(&other.milestone_id)
            && self.status.same(&other.status)
            && self.baseline_snapshot_id.same(&other.baseline_snapshot_id)
            && self.repository_snapshot_id.same(&other.repository_snapshot_id)
    }
}

impl Clone for TaskRow {
    fn clone(&self) -> (copy: Self)
        ensures
            copy.deep_view() == self.deep_view(),
    {
        self.copied()
    }
}

/// A run of the runtime.
#[derive(Debug, PartialEq, Eq)]
pub struct RunRow {
    pub id: String,
    pub task_id: String,
    pub status: String,
    pub baseline_snapshot_id: Option<String>,
    pub repository_snapshot_id: Option<String>,
}

/// The model of [`RunRow`].
pub struct RunRowView {
    pub id: Seq<char>,
    pub task_id: Seq<char>,
    pub status: Seq<char>,
    pub baseline_snapshot_id: Option<Seq<char>>,
    pub repository_snapshot_id: Option<Seq<char>>,
}

impl DeepView for RunRow {
    type V = RunRowView;

    open spec fn deep_view(&self) -> RunRowView {
        RunRowView {
            id: self.id.deep_view(),
            task_id: self.task_id.deep_view(),
            status: self.status.deep_view(),
            baseline_snapshot_id: self.baseline_snapshot_id.deep_view(),
            repository_snapshot_id: self.repository_snapshot_id.deep_view(),
        }
    }
}

impl Record for RunRow {
    fn copied(&self) -> (copy: Self) {
        RunRow {
            id: self.id.copied(),
            task_id: self.task_id.copied(),
            status: self.status.copied(),
            baseline_snapshot_id: self.baseline_snapshot_id.copied(),
            repository_snapshot_id: self.repository_snapshot_id.copied(),
        }
    }

    fn same(&self, other: &Self) -> (same: bool) {
        self.id.same(&other.id)
            && self.task_id.same(&other.task_id)
            && self.status.same(&other.status)
            && self.baseline_snapshot_id.same(&other.baseline_snapshot_id)
            && self.repository_snapshot_id.same(&other.repository_snapshot_id)
    }
}

impl Clone for RunRow {
    fn clone(&self) -> (copy: Self)
        ensures
            copy.deep_view() == self.deep_view(),
    {
        self.copied()
    }
}

/// An archive, as it stands there.
#[derive(Debug, PartialEq, Eq)]
pub struct ArchiveRow {
    pub archive_id: String,
    pub manifest: RawArchiveManifest,
    /// How many tasks it holds.
    pub task_count: u64,
    /// How many runs it holds.
    pub run_count: u64,
    /// How many bytes its manifest has.
    pub file_bytes: u64,
}

/// The model of [`ArchiveRow`].
pub struct ArchiveRowView {
    pub archive_id: Seq<char>,
    pub manifest: RawArchiveManifestView,
    pub task_count: u64,
    pub run_count: u64,
    pub file_bytes: u64,
}

impl DeepView for ArchiveRow {
    type V = ArchiveRowView;

    open spec fn deep_view(&self) -> ArchiveRowView {
        ArchiveRowView {
            archive_id: self.archive_id.deep_view(),
            manifest: self.manifest.deep_view(),
            task_count: self.task_count.deep_view(),
            run_count: self.run_count.deep_view(),
            file_bytes: self.file_bytes.deep_view(),
        }
    }
}

impl Record for ArchiveRow {
    fn copied(&self) -> (copy: Self) {
        ArchiveRow {
            archive_id: self.archive_id.copied(),
            manifest: self.manifest.copied(),
            task_count: self.task_count.copied(),
            run_count: self.run_count.copied(),
            file_bytes: self.file_bytes.copied(),
        }
    }

    fn same(&self, other: &Self) -> (same: bool) {
        self.archive_id.same(&other.archive_id)
            && self.manifest.same(&other.manifest)
            && self.task_count.same(&other.task_count)
            && self.run_count.same(&other.run_count)
            && self.file_bytes.same(&other.file_bytes)
    }
}

impl Clone for ArchiveRow {
    fn clone(&self) -> (copy: Self)
        ensures
            copy.deep_view() == self.deep_view(),
    {
        self.copied()
    }
}

/// A tracked file, as it is now.
#[derive(Debug, PartialEq, Eq)]
pub struct TrackedFile {
    pub path: RepoPath,
    pub bytes: Vec<u8>,
}

/// The model of [`TrackedFile`].
pub struct TrackedFileView {
    pub path: Seq<char>,
    pub bytes: Seq<u8>,
}

impl DeepView for TrackedFile {
    type V = TrackedFileView;

    open spec fn deep_view(&self) -> TrackedFileView {
        TrackedFileView {
            path: self.path.deep_view(),
            bytes: self.bytes.deep_view(),
        }
    }
}

impl Record for TrackedFile {
    fn copied(&self) -> (copy: Self) {
        TrackedFile {
            path: self.path.copied(),
            bytes: self.bytes.copied(),
        }
    }

    fn same(&self, other: &Self) -> (same: bool) {
        self.path.same(&other.path)
            && self.bytes.same(&other.bytes)
    }
}

impl Clone for TrackedFile {
    fn clone(&self) -> (copy: Self)
        ensures
            copy.deep_view() == self.deep_view(),
    {
        self.copied()
    }
}

/// What a project has that may be a source.
#[derive(Debug, PartialEq, Eq)]
pub struct SourceInventory {
    pub files: Vec<TrackedFile>,
    pub proofs: Vec<ArchiveProof>,
    pub archives: Vec<ArchiveRow>,
    pub tasks: Vec<TaskRow>,
    pub runs: Vec<RunRow>,
}

/// The model of [`SourceInventory`].
pub struct SourceInventoryView {
    pub files: Seq<TrackedFileView>,
    pub proofs: Seq<ArchiveProofView>,
    pub archives: Seq<ArchiveRowView>,
    pub tasks: Seq<TaskRowView>,
    pub runs: Seq<RunRowView>,
}

impl DeepView for SourceInventory {
    type V = SourceInventoryView;

    open spec fn deep_view(&self) -> SourceInventoryView {
        SourceInventoryView {
            files: self.files.deep_view(),
            proofs: self.proofs.deep_view(),
            archives: self.archives.deep_view(),
            tasks: self.tasks.deep_view(),
            runs: self.runs.deep_view(),
        }
    }
}

impl Record for SourceInventory {
    fn copied(&self) -> (copy: Self) {
        SourceInventory {
            files: self.files.copied(),
            proofs: self.proofs.copied(),
            archives: self.archives.copied(),
            tasks: self.tasks.copied(),
            runs: self.runs.copied(),
        }
    }

    fn same(&self, other: &Self) -> (same: bool) {
        self.files.same(&other.files)
            && self.proofs.same(&other.proofs)
            && self.archives.same(&other.archives)
            && self.tasks.same(&other.tasks)
            && self.runs.same(&other.runs)
    }
}

impl Clone for SourceInventory {
    fn clone(&self) -> (copy: Self)
        ensures
            copy.deep_view() == self.deep_view(),
    {
        self.copied()
    }
}

/// An event of the runtime.
#[derive(Debug, PartialEq, Eq)]
pub struct EventRow {
    pub id: i64,
    pub run_id: Option<String>,
    pub event_type: String,
    /// What the event says, as JSON.
    pub payload: String,
}

/// The model of [`EventRow`].
pub struct EventRowView {
    pub id: i64,
    pub run_id: Option<Seq<char>>,
    pub event_type: Seq<char>,
    pub payload: Seq<char>,
}

impl DeepView for EventRow {
    type V = EventRowView;

    open spec fn deep_view(&self) -> EventRowView {
        EventRowView {
            id: self.id,
            run_id: self.run_id.deep_view(),
            event_type: self.event_type@,
            payload: self.payload@,
        }
    }
}

/// An event of the runtime, with what is read of its payload.
#[derive(Debug, PartialEq, Eq)]
pub struct ReadEvent {
    pub id: i64,
    pub run_id: Option<String>,
    pub event_type: String,
    /// How many bytes the event's payload has.
    pub payload_bytes: u64,
    /// The task that the payload names, where it can be read and names one.
    pub payload_task_id: Option<String>,
}

/// The model of [`ReadEvent`].
pub struct ReadEventView {
    pub id: i64,
    pub run_id: Option<Seq<char>>,
    pub event_type: Seq<char>,
    pub payload_bytes: u64,
    pub payload_task_id: Option<Seq<char>>,
}

impl DeepView for ReadEvent {
    type V = ReadEventView;

    open spec fn deep_view(&self) -> ReadEventView {
        ReadEventView {
            id: self.id,
            run_id: self.run_id.deep_view(),
            event_type: self.event_type@,
            payload_bytes: self.payload_bytes,
            payload_task_id: self.payload_task_id.deep_view(),
        }
    }
}

/// The task that a payload names: the only item of an array, or the member of an object, where it stands
/// once.
pub open spec fn named_task(payload: Seq<char>) -> Option<Seq<char>> {
    let bytes = vstd::utf8::encode_utf8(payload);
    match only_text(bytes) {
        Some(text) => text,
        None => match object_members(bytes) {
            Some(members) => text_member(members, "task_id"@),
            None => None,
        },
    }
}

/// What is read of an event. A payload that is too large is not looked into.
pub open spec fn read_of(event: EventRowView) -> ReadEventView {
    ReadEventView {
        id: event.id,
        run_id: event.run_id,
        event_type: event.event_type,
        payload_bytes: byte_len(event.payload) as u64,
        payload_task_id: if byte_len(event.payload) > MAX_EVENT_BYTES {
            None
        } else {
            named_task(event.payload)
        },
    }
}

/// What is read of some events.
pub open spec fn reads_of(events: Seq<EventRowView>) -> Seq<ReadEventView> {
    events.map_values(|event: EventRowView| read_of(event))
}

/// Reads an event: its task, where its payload names one.
pub fn read_event(event: &EventRow) -> (read: ReadEvent)
    ensures
        read.deep_view() == read_of(event.deep_view()),
{
    let bytes = event.payload.as_str().as_bytes();
    let payload_bytes = bytes.len() as u64;
    let payload_task_id = if payload_bytes > MAX_EVENT_BYTES {
        None
    } else {
        match read_only_text(bytes) {
            Some(text) => text,
            None => match read_members(bytes) {
                Some(members) => find_text(&members, "task_id"),
                None => None,
            },
        }
    };
    ReadEvent {
        id: event.id,
        run_id: event.run_id.copied(),
        event_type: event.event_type.copied(),
        payload_bytes,
        payload_task_id,
    }
}

/// Reads some events.
pub fn read_events(events: &Vec<EventRow>) -> (read: Vec<ReadEvent>)
    ensures
        read.deep_view() == reads_of(events.deep_view()),
{
    let ghost models = events.deep_view();
    let mut read: Vec<ReadEvent> = Vec::new();
    let mut at: usize = 0;
    while at < events.len()
        invariant
            at <= events.len(),
            models == events.deep_view(),
            read.deep_view() =~= reads_of(models).take(at as int),
        decreases events.len() - at,
    {
        let ghost before = read.deep_view();
        assert(models[at as int] == events@[at as int].deep_view());
        let event = read_event(&events[at]);
        read.push(event);
        assert(read.deep_view() =~= before.push(event.deep_view()));
        at += 1;
    }
    assert(read.deep_view() =~= reads_of(models));
    read
}

/// A source that was found, and the record that stands for it where it is no tracked file.
#[derive(Debug, PartialEq, Eq)]
pub struct SourceMaterial {
    pub descriptor: AuthorizedSourceDescriptor,
    pub document: SourceDocument,
}

/// The model of [`SourceMaterial`].
pub struct SourceMaterialView {
    pub descriptor: AuthorizedSourceDescriptorView,
    pub document: SourceDocumentView,
}

impl DeepView for SourceMaterial {
    type V = SourceMaterialView;

    open spec fn deep_view(&self) -> SourceMaterialView {
        SourceMaterialView {
            descriptor: self.descriptor.deep_view(),
            document: self.document.deep_view(),
        }
    }
}

impl Record for SourceMaterial {
    fn copied(&self) -> (copy: Self) {
        SourceMaterial {
            descriptor: self.descriptor.copied(),
            document: self.document.copied(),
        }
    }

    fn same(&self, other: &Self) -> (same: bool) {
        self.descriptor.same(&other.descriptor)
            && self.document.same(&other.document)
    }
}

impl Clone for SourceMaterial {
    fn clone(&self) -> (copy: Self)
        ensures
            copy.deep_view() == self.deep_view(),
    {
        self.copied()
    }
}

/// The bytes of a text.
pub(crate) fn bytes_of(text: &str) -> (bytes: Vec<u8>)
    ensures
        bytes@ == vstd::utf8::encode_utf8(text@),
{
    let slice = text.as_bytes();
    let mut bytes: Vec<u8> = Vec::new();
    let mut at: usize = 0;
    while at < slice.len()
        invariant
            at <= slice.len(),
            bytes@ == slice@.take(at as int),
        decreases slice.len() - at,
    {
        bytes.push(slice[at]);
        assert(bytes@ =~= slice@.take(at + 1));
        at += 1;
    }
    assert(bytes@ =~= slice@);
    bytes
}

/// The digest of some bytes: that of the JSON array of their numbers.
pub open spec fn bytes_fingerprint(bytes: Seq<u8>) -> DigestView {
    sha256_of(<Vec<u8> as ToJson>::json(bytes))
}

/// The digest of some bytes.
pub fn bytes_digest(bytes: &Vec<u8>) -> (digest: Digest)
    ensures
        digest.deep_view() == bytes_fingerprint(bytes@),
{
    assert(bytes.deep_view() =~= bytes@);
    let json = bytes.to_json();
    Digest::of_text(json.as_str())
}

/// The fingerprint of a specification's structure.
pub open spec fn structure_fingerprint(text: Seq<char>) -> DigestView {
    sha256_of(<SpecStructureDocument as ToJson>::json(parsed(text).structure))
}

/// The fingerprint of an outcome.
pub open spec fn outcome_fingerprint(outcome: SpecOutcomeDocumentView) -> DigestView {
    sha256_of(<SpecOutcomeDocument as ToJson>::json(outcome))
}

fn outcome_digest(outcome: &SpecOutcomeDocument) -> (digest: Digest)
    ensures
        digest.deep_view() == outcome_fingerprint(outcome.deep_view()),
{
    let json = outcome.to_json();
    Digest::of_text(json.as_str())
}

/// What a specification is known by, as a source of a category.
pub open spec fn fingerprint_of(category: MemorySourceCategory, bytes: Seq<u8>) -> Result<
    DigestView,
    MemorySourceError,
> {
    if !vstd::utf8::valid_utf8(bytes) {
        Err(MemorySourceError::NotUtf8)
    } else {
        let text = vstd::utf8::decode_utf8(bytes);
        match category {
            MemorySourceCategory::SpecificationStructure => Ok(structure_fingerprint(text)),
            MemorySourceCategory::ApprovedOutcome => match parsed(text).outcome {
                Some(outcome) => Ok(outcome_fingerprint(outcome)),
                None => Err(MemorySourceError::OutcomeMissing),
            },
            _ => Err(MemorySourceError::UnsupportedCategory),
        }
    }
}

/// The fingerprint of a specification's structure binds the place of its title, not only the text: two
/// specifications with one title at different places have the digests of two different texts.
pub proof fn fingerprints_bind_the_place_of_the_title(first: Seq<u8>, second: Seq<u8>)
    requires
        vstd::utf8::valid_utf8(first),
        vstd::utf8::valid_utf8(second),
        ({
            let one = parsed(vstd::utf8::decode_utf8(first)).structure;
            let other = parsed(vstd::utf8::decode_utf8(second)).structure;
            &&& one.title == other.title
            &&& one.title_span is Some
            &&& other.title_span is Some
            &&& one.title_span->0.start.byte_offset != other.title_span->0.start.byte_offset
        }),
    ensures
        ({
            let category = MemorySourceCategory::SpecificationStructure;
            let one = <SpecStructureDocument as ToJson>::json(
                parsed(vstd::utf8::decode_utf8(first)).structure,
            );
            let other = <SpecStructureDocument as ToJson>::json(
                parsed(vstd::utf8::decode_utf8(second)).structure,
            );
            &&& one != other
            &&& fingerprint_of(category, first) == Ok::<_, MemorySourceError>(sha256_of(one))
            &&& fingerprint_of(category, second) == Ok::<_, MemorySourceError>(sha256_of(other))
        }),
{
    moved_titles_are_told_apart(
        parsed(vstd::utf8::decode_utf8(first)).structure,
        parsed(vstd::utf8::decode_utf8(second)).structure,
    );
}

/// What a specification is known by, as a source of a category.
pub fn spec_fingerprint(category: MemorySourceCategory, bytes: &[u8]) -> (result: Result<
    Digest,
    MemorySourceError,
>)
    ensures
        outcome(result) == fingerprint_of(category, bytes@),
{
    let text = match utf8_text(bytes) {
        Some(text) => text,
        None => {
            return Err(MemorySourceError::NotUtf8);
        },
    };
    let parsed = parse_spec_memory(text.as_str());
    match category {
        MemorySourceCategory::SpecificationStructure => {
            let json = parsed.structure.to_json();
            Ok(Digest::of_text(json.as_str()))
        },
        MemorySourceCategory::ApprovedOutcome => match &parsed.outcome {
            Some(outcome) => Ok(outcome_digest(outcome)),
            None => Err(MemorySourceError::OutcomeMissing),
        },
        _ => Err(MemorySourceError::UnsupportedCategory),
    }
}

/// The text of a file, or no text where it is not UTF-8.
pub open spec fn readable_text(bytes: Seq<u8>) -> Seq<char> {
    if vstd::utf8::valid_utf8(bytes) {
        vstd::utf8::decode_utf8(bytes)
    } else {
        ""@
    }
}

/// A tracked file as a source.
pub open spec fn tracked_source(
    project: ProjectRefView,
    category: MemorySourceCategory,
    path: Seq<char>,
    fingerprint: DigestView,
    byte_len: u64,
) -> SourceMaterialView {
    SourceMaterialView {
        descriptor: AuthorizedSourceDescriptorView {
            project,
            category,
            locator: MemorySourceLocatorView::TrackedFile { path },
            fingerprint,
            byte_len,
        },
        document: SourceDocumentView::Absent,
    }
}

/// The sources that a tracked specification is: its structure, and its outcome where that was
/// approved, each where the policy allows it.
pub open spec fn spec_sources(
    project: ProjectRefView,
    policy: MemoryPolicyView,
    path: Seq<char>,
    bytes: Seq<u8>,
    file_bytes: u64,
    approved: Seq<DigestView>,
) -> Seq<SourceMaterialView> {
    let text = readable_text(bytes);
    let structure = if policy.authorizes(MemorySourceCategory::SpecificationStructure) {
        seq![
            tracked_source(
                project,
                MemorySourceCategory::SpecificationStructure,
                path,
                structure_fingerprint(text),
                file_bytes,
            ),
        ]
    } else {
        Seq::empty()
    };
    match parsed(text).outcome {
        Some(outcome) => if policy.authorizes(MemorySourceCategory::ApprovedOutcome)
            && approved.contains(outcome_fingerprint(outcome)) {
            structure.push(
                tracked_source(
                    project,
                    MemorySourceCategory::ApprovedOutcome,
                    path,
                    outcome_fingerprint(outcome),
                    byte_len(outcome.text) as u64,
                ),
            )
        } else {
            structure
        },
        None => structure,
    }
}

fn contains_digest(digests: &Vec<Digest>, digest: &Digest) -> (found: bool)
    ensures
        found == digests.deep_view().contains(digest.deep_view()),
{
    let ghost models = digests.deep_view();
    let mut at: usize = 0;
    while at < digests.len()
        invariant
            at <= digests.len(),
            models == digests.deep_view(),
            forall|i: int| 0 <= i < at ==> #[trigger] models[i] != digest.deep_view(),
        decreases digests.len() - at,
    {
        assert(models[at as int] == digests@[at as int].deep_view());
        if digests[at].same(digest) {
            return true;
        }
        at += 1;
    }
    false
}

fn tracked_material(
    project: &ProjectRef,
    category: MemorySourceCategory,
    path: &RepoPath,
    fingerprint: Digest,
    byte_len: u64,
) -> (material: SourceMaterial)
    ensures
        material.deep_view() == tracked_source(
            project.deep_view(),
            category,
            path.deep_view(),
            fingerprint.deep_view(),
            byte_len,
        ),
{
    SourceMaterial {
        descriptor: AuthorizedSourceDescriptor {
            project: project.copied(),
            category,
            locator: MemorySourceLocator::TrackedFile { path: path.copied() },
            fingerprint,
            byte_len,
        },
        document: SourceDocument::Absent,
    }
}

/// The sources that a tracked specification is.
pub fn spec_materials(
    project: &ProjectRef,
    policy: &MemoryPolicy,
    path: &RepoPath,
    bytes: &[u8],
    file_bytes: u64,
    approved: &Vec<Digest>,
) -> (materials: Vec<SourceMaterial>)
    ensures
        materials.deep_view() == spec_sources(
            project.deep_view(),
            policy.deep_view(),
            path.deep_view(),
            bytes@,
            file_bytes,
            approved.deep_view(),
        ),
{
    let text = match utf8_text(bytes) {
        Some(text) => text,
        None => "".to_owned(),
    };
    assert(text@ == readable_text(bytes@));
    let parsed = parse_spec_memory(text.as_str());
    let mut materials: Vec<SourceMaterial> = Vec::new();
    let ghost mut models: Seq<SourceMaterialView> = Seq::empty();
    assert(materials.deep_view() =~= models);
    if policy.is_authorized(MemorySourceCategory::SpecificationStructure) {
        let json = parsed.structure.to_json();
        let material = tracked_material(
            project,
            MemorySourceCategory::SpecificationStructure,
            path,
            Digest::of_text(json.as_str()),
            file_bytes,
        );
        proof {
            models = seq![material.deep_view()];
        }
        materials.push(material);
        assert(materials.deep_view() =~= models);
    }
    if policy.is_authorized(MemorySourceCategory::ApprovedOutcome) {
        if let Some(outcome) = &parsed.outcome {
            let fingerprint = outcome_digest(outcome);
            if contains_digest(approved, &fingerprint) {
                let material = tracked_material(
                    project,
                    MemorySourceCategory::ApprovedOutcome,
                    path,
                    fingerprint,
                    outcome.text.as_str().as_bytes().len() as u64,
                );
                proof {
                    models = models.push(material.deep_view());
                }
                materials.push(material);
                assert(materials.deep_view() =~= models);
            }
        }
    }
    materials
}

/// Where the next entry of a list ends.
pub open spec fn entry_end(bytes: Seq<u8>, from: int) -> int
    decreases bytes.len() - from,
{
    if from < 0 || from >= bytes.len() || bytes[from] == 0 {
        from
    } else {
        entry_end(bytes, from + 1)
    }
}

proof fn entry_end_is_behind(bytes: Seq<u8>, from: int)
    requires
        0 <= from <= bytes.len(),
    ensures
        from <= entry_end(bytes, from) <= bytes.len(),
    decreases bytes.len() - from,
{
    if from < bytes.len() && bytes[from] != 0 {
        entry_end_is_behind(bytes, from + 1);
    }
}

/// The paths of specifications in a list of files that ends each entry with a zero. A file that is no
/// Markdown is passed over.
pub open spec fn listed_paths(
    bytes: Seq<u8>,
    from: int,
) -> Result<Seq<Seq<char>>, MemorySourceError>
    decreases bytes.len() - from,
    when 0 <= from <= bytes.len()
    via listed_paths_go_on
{
    if from >= bytes.len() {
        Ok(Seq::empty())
    } else {
        let end = entry_end(bytes, from);
        let entry = bytes.subrange(from, end);
        let text = vstd::utf8::decode_utf8(entry);
        let rest = listed_paths(bytes, if end < bytes.len() { end + 1 } else { end });
        if entry.len() == 0 {
            rest
        } else if !vstd::utf8::valid_utf8(entry) {
            Err(MemorySourceError::PathNotUtf8)
        } else if !is_markdown(text) {
            rest
        } else if !is_repo_path(text) {
            Err(MemorySourceError::InvalidPath)
        } else {
            match rest {
                Err(error) => Err(error),
                Ok(paths) => Ok(seq![text] + paths),
            }
        }
    }
}

#[via_fn]
proof fn listed_paths_go_on(bytes: Seq<u8>, from: int) {
    if from < bytes.len() {
        entry_end_is_behind(bytes, from);
        if bytes[from] != 0 {
            entry_end_is_behind(bytes, from + 1);
        }
    }
}

/// Whether a path names a Markdown file.
pub open spec fn is_markdown(path: Seq<char>) -> bool {
    path.len() >= 3 && path.skip(path.len() - 3) == ".md"@
}

fn names_markdown(path: &str) -> (markdown: bool)
    ensures
        markdown == is_markdown(path@),
{
    let chars = crate::text::chars_of(path);
    let len = chars.len();
    proof {
        reveal_strlit(".md");
    }
    if len < 3 {
        return false;
    }
    let markdown = chars[len - 3] == '.' && chars[len - 2] == 'm' && chars[len - 1] == 'd';
    proof {
        let end = path@.skip(path@.len() - 3);
        if markdown {
            assert(end =~= ".md"@);
        } else {
            assert(end[0] == path@[len - 3]);
            assert(end[1] == path@[len - 2]);
            assert(end[2] == path@[len - 1]);
            assert(end != ".md"@);
        }
    }
    markdown
}

/// The paths of specifications in a list of files that ends each entry with a zero.
pub fn tracked_paths(listing: &[u8]) -> (result: Result<Vec<RepoPath>, MemorySourceError>)
    ensures
        outcome(result) == if listing@.len() > MAX_GIT_LIST_BYTES {
            Err(MemorySourceError::ListingTooLarge)
        } else {
            listed_paths(listing@, 0)
        },
{
    if listing.len() > MAX_GIT_LIST_BYTES {
        return Err(MemorySourceError::ListingTooLarge);
    }
    let mut paths: Vec<RepoPath> = Vec::new();
    let mut from: usize = 0;
    assert(paths.deep_view() =~= Seq::empty());
    proof {
        match listed_paths(listing@, 0) {
            Ok(rest) => assert(Seq::<Seq<char>>::empty() + rest =~= rest),
            Err(_) => {},
        }
    }
    while from < listing.len()
        invariant
            from <= listing.len() <= MAX_GIT_LIST_BYTES,
            listed_paths(listing@, 0) == match listed_paths(listing@, from as int) {
                Ok(rest) => Ok(paths.deep_view() + rest),
                Err(error) => Err(error),
            },
        decreases listing.len() - from,
    {
        let mut end: usize = from;
        let mut entry: Vec<u8> = Vec::new();
        while end < listing.len() && listing[end] != 0
            invariant
                from <= end <= listing.len(),
                entry@ == listing@.subrange(from as int, end as int),
                entry_end(listing@, from as int) == entry_end(listing@, end as int),
            decreases listing.len() - end,
        {
            entry.push(listing[end]);
            assert(entry@ =~= listing@.subrange(from as int, end + 1));
            end += 1;
        }
        assert(entry_end(listing@, from as int) == end);
        let next: usize = if end < listing.len() {
            end + 1
        } else {
            end
        };
        let ghost before = paths.deep_view();
        let ghost rest = listed_paths(listing@, next as int);
        assert(next > from);
        if entry.len() > 0 {
            match utf8_text(entry.as_slice()) {
                None => {
                    return Err(MemorySourceError::PathNotUtf8);
                },
                Some(text) => {
                    if names_markdown(text.as_str()) {
                        match RepoPath::new(text.as_str()) {
                            Err(_) => {
                                return Err(MemorySourceError::InvalidPath);
                            },
                            Ok(path) => {
                                let ghost named = path.deep_view();
                                paths.push(path);
                                assert(paths.deep_view() =~= before.push(named));
                                proof {
                                    match rest {
                                        Ok(others) => assert(before + (seq![named] + others)
                                            =~= before.push(named) + others),
                                        Err(_) => {},
                                    }
                                }
                            },
                        }
                    }
                },
            }
        }
        from = next;
    }
    assert(paths.deep_view() + Seq::empty() =~= paths.deep_view());
    Ok(paths)
}

/// Whether two outcomes say the same, wherever they stand.
pub open spec fn says_the_same(
    left: SpecOutcomeDocumentView,
    right: SpecOutcomeDocumentView,
) -> bool {
    &&& left.text == right.text
    &&& left.sections.len() == right.sections.len()
    &&& forall|i: int|
        0 <= i < left.sections.len() ==> (#[trigger] left.sections[i]).kind == right.sections[i].kind
            && left.sections[i].text == right.sections[i].text
}

fn outcomes_agree(left: &SpecOutcomeDocument, right: &SpecOutcomeDocument) -> (same: bool)
    ensures
        same == says_the_same(left.deep_view(), right.deep_view()),
{
    let ghost lefts = left.deep_view().sections;
    let ghost rights = right.deep_view().sections;
    if !left.text.same(&right.text) || left.sections.len() != right.sections.len() {
        return false;
    }
    let mut at: usize = 0;
    while at < left.sections.len()
        invariant
            at <= left.sections.len(),
            left.sections.len() == right.sections.len(),
            lefts == left.deep_view().sections,
            rights == right.deep_view().sections,
            left.text.deep_view() == right.text.deep_view(),
            forall|i: int|
                0 <= i < at ==> (#[trigger] lefts[i]).kind == rights[i].kind && lefts[i].text
                    == rights[i].text,
        decreases left.sections.len() - at,
    {
        assert(lefts[at as int] == left.sections@[at as int].deep_view());
        assert(rights[at as int] == right.sections@[at as int].deep_view());
        if left.sections[at].kind != right.sections[at].kind || !left.sections[at].text.same(
            &right.sections[at].text,
        ) {
            return false;
        }
        at += 1;
    }
    true
}

/// A recorded outcome with its heading.
pub open spec fn with_heading(recorded: Seq<char>) -> Seq<char> {
    if "## Outcome"@.is_prefix_of(trimmed(recorded)) {
        trimmed(recorded)
    } else {
        "## Outcome\n\n"@ + trimmed(recorded)
    }
}

/// The specification and the fingerprint of the outcome that an archive proves to be approved: the
/// copy in the archive says what was recorded, and the manifest names the same specification.
pub open spec fn proven(archive: ArchiveProofView) -> Option<(Seq<char>, DigestView)> {
    if is_repo_path(archive.spec_path) && archive.manifest_spec_path == Some(archive.spec_path)
        && archive.spec_copy is Some {
        match (
            parsed(archive.spec_copy->0).outcome,
            parsed(with_heading(archive.recorded_outcome)).outcome,
        ) {
            (Some(outcome), Some(recorded)) => if says_the_same(outcome, recorded) {
                Some((archive.spec_path, outcome_fingerprint(outcome)))
            } else {
                None
            },
            _ => None,
        }
    } else {
        None
    }
}

/// The specification and the fingerprint of the outcome that an archive proves to be approved.
pub fn proven_outcome(archive: &ArchiveProof) -> (result: Option<(RepoPath, Digest)>)
    ensures
        match result {
            Some((path, digest)) => proven(archive.deep_view()) == Some(
                (path.deep_view(), digest.deep_view()),
            ),
            None => proven(archive.deep_view()) is None,
        },
{
    let path = match RepoPath::new(archive.spec_path.as_str()) {
        Ok(path) => path,
        Err(_) => {
            return None;
        },
    };
    match &archive.manifest_spec_path {
        Some(named) => {
            if !named.same(&archive.spec_path) {
                return None;
            }
        },
        None => {
            return None;
        },
    }
    let copy = match &archive.spec_copy {
        Some(copy) => copy,
        None => {
            return None;
        },
    };
    let outcome = match parse_spec_memory(copy.as_str()).outcome {
        Some(outcome) => outcome,
        None => {
            return None;
        },
    };
    let recorded = trim(archive.recorded_outcome.as_str());
    let recorded = if starts_with(recorded.as_str(), "## Outcome") {
        recorded
    } else {
        joined("## Outcome\n\n", recorded.as_str())
    };
    match parse_spec_memory(recorded.as_str()).outcome {
        Some(recorded) => {
            if outcomes_agree(&outcome, &recorded) {
                Some((path, outcome_digest(&outcome)))
            } else {
                None
            }
        },
        None => None,
    }
}

/// The fingerprints of the outcomes that archives prove to be approved, for each specification.
pub open spec fn approved_outcomes(
    archives: Seq<ArchiveProofView>,
) -> Map<Seq<char>, Seq<DigestView>>
    decreases archives.len(),
{
    if archives.len() == 0 {
        Map::empty()
    } else {
        let before = approved_outcomes(archives.drop_last());
        match proven(archives.last()) {
            Some((path, digest)) => before.insert(path, listed(before, path).push(digest)),
            None => before,
        }
    }
}

/// The fingerprints of the outcomes that archives prove to be approved, for each specification.
pub fn approved_outcome_fingerprints(archives: &Vec<ArchiveProof>) -> (result: Result<
    OrderedMap<Vec<Digest>>,
    MemorySourceError,
>)
    ensures
        match result {
            Ok(approved) => archives.len() <= MAX_SOURCES && approved.well_formed()
                && approved.deep_view() == approved_outcomes(archives.deep_view()),
            Err(error) => archives.len() > MAX_SOURCES && error == MemorySourceError::TooManyProofs,
        },
{
    if archives.len() > MAX_SOURCES {
        return Err(MemorySourceError::TooManyProofs);
    }
    let ghost models = archives.deep_view();
    let mut approved: OrderedMap<Vec<Digest>> = OrderedMap::new();
    let mut at: usize = 0;
    assert(models.take(0) =~= Seq::empty());
    while at < archives.len()
        invariant
            at <= archives.len(),
            models == archives.deep_view(),
            approved.well_formed(),
            approved.deep_view() == approved_outcomes(models.take(at as int)),
        decreases archives.len() - at,
    {
        assert(models[at as int] == archives@[at as int].deep_view());
        assert(models.take(at + 1).last() == models[at as int]);
        assert(models.take(at + 1).drop_last() =~= models.take(at as int));
        if let Some((path, digest)) = proven_outcome(&archives[at]) {
            approved.push(path.as_str().to_owned(), digest);
        }
        at += 1;
    }
    assert(models.take(at as int) =~= models);
    Ok(approved)
}

/// The tasks of an archive.
pub open spec fn archived_tasks(tasks: Seq<RawArchiveTaskView>) -> Seq<Seq<char>> {
    tasks.map_values(|task: RawArchiveTaskView| task.id)
}

/// The milestones of an archive's tasks.
pub open spec fn archived_milestones(tasks: Seq<RawArchiveTaskView>) -> Seq<Seq<char>>
    decreases tasks.len(),
{
    if tasks.len() == 0 {
        Seq::empty()
    } else {
        match tasks.last().milestone_id {
            Some(milestone) => archived_milestones(tasks.drop_last()).push(milestone),
            None => archived_milestones(tasks.drop_last()),
        }
    }
}

/// The record that stands for an archive: its names and numbers, and nothing of what it says.
pub open spec fn archive_record(
    archive_id: Seq<char>,
    manifest: RawArchiveManifestView,
    task_count: u64,
    run_count: u64,
) -> Result<ArchiveSourceDocumentView, MemorySourceError> {
    if !is_bounded_text(archive_id, MAX_ID_BYTES as nat, false) {
        Err(MemorySourceError::InvalidValue)
    } else if !is_repo_path(manifest.spec_path) {
        Err(MemorySourceError::InvalidPath)
    } else if task_count > MAX_RUNTIME_RECORDS {
        Err(MemorySourceError::TooManyTasks)
    } else if run_count > MAX_RUNTIME_RECORDS {
        Err(MemorySourceError::TooManyRuns)
    } else {
        Ok(
            ArchiveSourceDocumentView {
                archive_id,
                spec_path: manifest.spec_path,
                archived_at: manifest.archived_at,
                task_count,
                run_count,
                task_ids: in_order(archived_tasks(manifest.tasks).to_set()),
                milestone_ids: in_order(archived_milestones(manifest.tasks).to_set()),
            },
        )
    }
}

fn archive_document(
    archive_id: &str,
    manifest: &RawArchiveManifest,
    task_count: u64,
    run_count: u64,
) -> (result: Result<ArchiveSourceDocument, MemorySourceError>)
    ensures
        outcome(result) == archive_record(archive_id@, manifest.deep_view(), task_count, run_count),
{
    if MemoryRecordId::new(archive_id).is_err() {
        return Err(MemorySourceError::InvalidValue);
    }
    let spec_path = match RepoPath::new(manifest.spec_path.as_str()) {
        Ok(path) => path,
        Err(_) => {
            return Err(MemorySourceError::InvalidPath);
        },
    };
    if task_count > MAX_RUNTIME_RECORDS as u64 {
        return Err(MemorySourceError::TooManyTasks);
    }
    if run_count > MAX_RUNTIME_RECORDS as u64 {
        return Err(MemorySourceError::TooManyRuns);
    }
    let ghost models = manifest.deep_view().tasks;
    let mut task_ids: Vec<String> = Vec::new();
    let mut milestone_ids: Vec<String> = Vec::new();
    let mut at: usize = 0;
    assert(models.take(0) =~= Seq::empty());
    assert(task_ids.deep_view() =~= archived_tasks(models.take(0)));
    assert(milestone_ids.deep_view() =~= archived_milestones(models.take(0)));
    while at < manifest.tasks.len()
        invariant
            at <= manifest.tasks.len(),
            models == manifest.deep_view().tasks,
            task_ids.deep_view() == archived_tasks(models.take(at as int)),
            milestone_ids.deep_view() == archived_milestones(models.take(at as int)),
        decreases manifest.tasks.len() - at,
    {
        let task = &manifest.tasks[at];
        let ghost tasks = task_ids.deep_view();
        let ghost milestones = milestone_ids.deep_view();
        assert(models[at as int] == manifest.tasks@[at as int].deep_view());
        assert(models.take(at + 1).last() == models[at as int]);
        assert(models.take(at + 1).drop_last() =~= models.take(at as int));
        task_ids.push(task.id.copied());
        assert(task_ids.deep_view() =~= tasks.push(task.id.deep_view()));
        assert(archived_tasks(models.take(at + 1)) =~= tasks.push(models[at as int].id));
        if let Some(milestone) = &task.milestone_id {
            milestone_ids.push(milestone.copied());
            assert(milestone_ids.deep_view() =~= milestones.push(milestone.deep_view()));
        }
        at += 1;
    }
    assert(models.take(at as int) =~= models);
    Ok(
        ArchiveSourceDocument {
            archive_id: archive_id.to_owned(),
            spec_path,
            archived_at: manifest.archived_at.copied(),
            task_count,
            run_count,
            task_ids: sorted_distinct(&task_ids),
            milestone_ids: sorted_distinct(&milestone_ids),
        },
    )
}

/// The bytes that stand for a source that is no tracked file.
pub open spec fn record_bytes(document: SourceDocumentView) -> Seq<u8> {
    match document {
        SourceDocumentView::Absent => Seq::empty(),
        SourceDocumentView::Archive(document) => vstd::utf8::encode_utf8(
            <ArchiveSourceDocument as ToJson>::json(document),
        ),
        SourceDocumentView::Runtime(document) => vstd::utf8::encode_utf8(
            <RuntimeSourceDocument as ToJson>::json(document),
        ),
    }
}

/// The bytes that stand for a source that is no tracked file.
pub fn document_bytes(document: &SourceDocument) -> (bytes: Vec<u8>)
    ensures
        bytes@ == record_bytes(document.deep_view()),
{
    match document {
        SourceDocument::Absent => Vec::new(),
        SourceDocument::Archive(document) => {
            let json = document.to_json();
            bytes_of(json.as_str())
        },
        SourceDocument::Runtime(document) => {
            let json = document.to_json();
            bytes_of(json.as_str())
        },
    }
}

/// An archive as a source.
pub open spec fn archive_source(
    project: ProjectRefView,
    document: ArchiveSourceDocumentView,
    file_bytes: u64,
) -> SourceMaterialView {
    SourceMaterialView {
        descriptor: AuthorizedSourceDescriptorView {
            project,
            category: MemorySourceCategory::ArchiveManifest,
            locator: MemorySourceLocatorView::ArchiveManifest { archive_id: document.archive_id },
            fingerprint: bytes_fingerprint(record_bytes(SourceDocumentView::Archive(document))),
            byte_len: file_bytes,
        },
        document: SourceDocumentView::Archive(document),
    }
}

/// An archive as a source.
pub fn archive_material(
    project: &ProjectRef,
    archive_id: &str,
    manifest: &RawArchiveManifest,
    task_count: u64,
    run_count: u64,
    file_bytes: u64,
) -> (result: Result<SourceMaterial, MemorySourceError>)
    ensures
        outcome(result) == match archive_record(
            archive_id@,
            manifest.deep_view(),
            task_count,
            run_count,
        ) {
            Ok(document) => Ok(archive_source(project.deep_view(), document, file_bytes)),
            Err(error) => Err(error),
        },
{
    let document = match archive_document(archive_id, manifest, task_count, run_count) {
        Ok(document) => document,
        Err(error) => {
            return Err(error);
        },
    };
    let archive_id = MemoryRecordId::new(archive_id).unwrap();
    let document = SourceDocument::Archive(document);
    let bytes = document_bytes(&document);
    Ok(
        SourceMaterial {
            descriptor: AuthorizedSourceDescriptor {
                project: project.copied(),
                category: MemorySourceCategory::ArchiveManifest,
                locator: MemorySourceLocator::ArchiveManifest { archive_id },
                fingerprint: bytes_digest(&bytes),
                byte_len: file_bytes,
            },
            document,
        },
    )
}

/// A snapshot that a record names.
pub open spec fn named_snapshot(
    text: Option<Seq<char>>,
) -> Result<Option<Seq<char>>, MemorySourceError> {
    match text {
        None => Ok(None),
        Some(text) => if is_bounded_text(text, MAX_IDENTITY_BYTES as nat, false) {
            Ok(Some(text))
        } else {
            Err(MemorySourceError::InvalidValue)
        },
    }
}

fn snapshot_named(text: &Option<String>) -> (result: Result<Option<SnapshotId>, MemorySourceError>)
    ensures
        outcome(result) == named_snapshot(text.deep_view()),
{
    match text {
        None => Ok(None),
        Some(text) => match SnapshotId::new(text.as_str()) {
            Ok(snapshot) => Ok(Some(snapshot)),
            Err(_) => Err(MemorySourceError::InvalidValue),
        },
    }
}

/// The record of a task.
pub open spec fn task_record(
    row: TaskRowView,
) -> Result<RuntimeTaskDocumentView, MemorySourceError> {
    match (named_snapshot(row.baseline_snapshot_id), named_snapshot(row.repository_snapshot_id)) {
        (Ok(baseline_snapshot_id), Ok(repository_snapshot_id)) => Ok(
            RuntimeTaskDocumentView {
                id: row.id,
                milestone_id: row.milestone_id,
                status: row.status,
                baseline_snapshot_id,
                repository_snapshot_id,
            },
        ),
        _ => Err(MemorySourceError::InvalidValue),
    }
}

fn task_document(row: &TaskRow) -> (result: Result<RuntimeTaskDocument, MemorySourceError>)
    ensures
        outcome(result) == task_record(row.deep_view()),
{
    match (snapshot_named(&row.baseline_snapshot_id), snapshot_named(&row.repository_snapshot_id)) {
        (Ok(baseline_snapshot_id), Ok(repository_snapshot_id)) => Ok(
            RuntimeTaskDocument {
                id: row.id.copied(),
                milestone_id: row.milestone_id.copied(),
                status: row.status.copied(),
                baseline_snapshot_id,
                repository_snapshot_id,
            },
        ),
        _ => Err(MemorySourceError::InvalidValue),
    }
}

/// The records of some tasks.
pub open spec fn task_records(rows: Seq<TaskRowView>) -> Result<
    Seq<RuntimeTaskDocumentView>,
    MemorySourceError,
>
    decreases rows.len(),
{
    if rows.len() == 0 {
        Ok(Seq::empty())
    } else {
        match (task_records(rows.drop_last()), task_record(rows.last())) {
            (Err(error), _) => Err(error),
            (Ok(_), Err(error)) => Err(error),
            (Ok(tasks), Ok(task)) => if tasks.len() >= MAX_RUNTIME_RECORDS {
                Err(MemorySourceError::TooManyTasks)
            } else {
                Ok(tasks.push(task))
            },
        }
    }
}

proof fn refused_tasks_stay_refused(rows: Seq<TaskRowView>, at: int)
    requires
        0 <= at <= rows.len(),
        task_records(rows.take(at)) is Err,
    ensures
        task_records(rows) == task_records(rows.take(at)),
    decreases rows.len(),
{
    if at == rows.len() {
        assert(rows.take(at) =~= rows);
    } else {
        assert(rows.drop_last().take(at) =~= rows.take(at));
        refused_tasks_stay_refused(rows.drop_last(), at);
    }
}

fn task_documents(
    rows: &Vec<TaskRow>,
) -> (result: Result<Vec<RuntimeTaskDocument>, MemorySourceError>)
    ensures
        outcome(result) == task_records(rows.deep_view()),
{
    let ghost models = rows.deep_view();
    let mut tasks: Vec<RuntimeTaskDocument> = Vec::new();
    let mut at: usize = 0;
    assert(models.take(0) =~= Seq::empty());
    assert(tasks.deep_view() =~= Seq::empty());
    while at < rows.len()
        invariant
            at <= rows.len(),
            models == rows.deep_view(),
            task_records(models.take(at as int)) == Ok::<_, MemorySourceError>(tasks.deep_view()),
        decreases rows.len() - at,
    {
        let ghost before = tasks.deep_view();
        assert(models[at as int] == rows@[at as int].deep_view());
        assert(models.take(at + 1).last() == models[at as int]);
        assert(models.take(at + 1).drop_last() =~= models.take(at as int));
        assert(before.len() == tasks.len());
        match task_document(&rows[at]) {
            Ok(task) => {
                if tasks.len() >= MAX_RUNTIME_RECORDS {
                    proof {
                        refused_tasks_stay_refused(models, at + 1);
                    }
                    return Err(MemorySourceError::TooManyTasks);
                }
                let ghost record = task.deep_view();
                tasks.push(task);
                assert(tasks.deep_view() =~= before.push(record));
            },
            Err(error) => {
                proof {
                    refused_tasks_stay_refused(models, at + 1);
                }
                return Err(error);
            },
        }
        at += 1;
    }
    assert(models.take(at as int) =~= models);
    Ok(tasks)
}

/// The record of a run, before its checks are known.
pub open spec fn run_record(row: RunRowView) -> Result<RuntimeRunDocumentView, MemorySourceError> {
    match (named_snapshot(row.baseline_snapshot_id), named_snapshot(row.repository_snapshot_id)) {
        (Ok(baseline_snapshot_id), Ok(repository_snapshot_id)) => Ok(
            RuntimeRunDocumentView {
                id: row.id,
                task_id: row.task_id,
                status: row.status,
                check_ids: Seq::empty(),
                baseline_snapshot_id,
                repository_snapshot_id,
            },
        ),
        _ => Err(MemorySourceError::InvalidValue),
    }
}

fn run_document(row: &RunRow) -> (result: Result<RuntimeRunDocument, MemorySourceError>)
    ensures
        outcome(result) == run_record(row.deep_view()),
{
    match (snapshot_named(&row.baseline_snapshot_id), snapshot_named(&row.repository_snapshot_id)) {
        (Ok(baseline_snapshot_id), Ok(repository_snapshot_id)) => {
            let check_ids: Vec<String> = Vec::new();
            assert(check_ids.deep_view() =~= Seq::empty());
            Ok(
                RuntimeRunDocument {
                    id: row.id.copied(),
                    task_id: row.task_id.copied(),
                    status: row.status.copied(),
                    check_ids,
                    baseline_snapshot_id,
                    repository_snapshot_id,
                },
            )
        },
        _ => Err(MemorySourceError::InvalidValue),
    }
}

/// The records of some runs, before their checks are known.
pub open spec fn run_records(rows: Seq<RunRowView>) -> Result<
    Seq<RuntimeRunDocumentView>,
    MemorySourceError,
>
    decreases rows.len(),
{
    if rows.len() == 0 {
        Ok(Seq::empty())
    } else {
        match (run_records(rows.drop_last()), run_record(rows.last())) {
            (Err(error), _) => Err(error),
            (Ok(_), Err(error)) => Err(error),
            (Ok(runs), Ok(run)) => if runs.len() >= MAX_RUNTIME_RECORDS {
                Err(MemorySourceError::TooManyRuns)
            } else {
                Ok(runs.push(run))
            },
        }
    }
}

proof fn refused_runs_stay_refused(rows: Seq<RunRowView>, at: int)
    requires
        0 <= at <= rows.len(),
        run_records(rows.take(at)) is Err,
    ensures
        run_records(rows) == run_records(rows.take(at)),
    decreases rows.len(),
{
    if at == rows.len() {
        assert(rows.take(at) =~= rows);
    } else {
        assert(rows.drop_last().take(at) =~= rows.take(at));
        refused_runs_stay_refused(rows.drop_last(), at);
    }
}

fn run_documents(rows: &Vec<RunRow>) -> (result: Result<Vec<RuntimeRunDocument>, MemorySourceError>)
    ensures
        outcome(result) == run_records(rows.deep_view()),
{
    let ghost models = rows.deep_view();
    let mut runs: Vec<RuntimeRunDocument> = Vec::new();
    let mut at: usize = 0;
    assert(models.take(0) =~= Seq::empty());
    assert(runs.deep_view() =~= Seq::empty());
    while at < rows.len()
        invariant
            at <= rows.len(),
            models == rows.deep_view(),
            run_records(models.take(at as int)) == Ok::<_, MemorySourceError>(runs.deep_view()),
        decreases rows.len() - at,
    {
        let ghost before = runs.deep_view();
        assert(models[at as int] == rows@[at as int].deep_view());
        assert(models.take(at + 1).last() == models[at as int]);
        assert(models.take(at + 1).drop_last() =~= models.take(at as int));
        assert(before.len() == runs.len());
        match run_document(&rows[at]) {
            Ok(run) => {
                if runs.len() >= MAX_RUNTIME_RECORDS {
                    proof {
                        refused_runs_stay_refused(models, at + 1);
                    }
                    return Err(MemorySourceError::TooManyRuns);
                }
                let ghost record = run.deep_view();
                runs.push(run);
                assert(runs.deep_view() =~= before.push(record));
            },
            Err(error) => {
                proof {
                    refused_runs_stay_refused(models, at + 1);
                }
                return Err(error);
            },
        }
        at += 1;
    }
    assert(models.take(at as int) =~= models);
    Ok(runs)
}

/// The task of a run, the last one where several have its name.
pub open spec fn task_of_run(runs: Seq<RuntimeRunDocumentView>, id: Seq<char>) -> Option<Seq<char>>
    decreases runs.len(),
{
    if runs.len() == 0 {
        None
    } else if runs.last().id == id {
        Some(runs.last().task_id)
    } else {
        task_of_run(runs.drop_last(), id)
    }
}

/// The names of some tasks.
pub open spec fn task_names(tasks: Seq<RuntimeTaskDocumentView>) -> Set<Seq<char>> {
    tasks.map_values(|task: RuntimeTaskDocumentView| task.id).to_set()
}

/// The check that an event is, where it is one of a task that is known.
pub open spec fn check_record(
    tasks: Seq<RuntimeTaskDocumentView>,
    runs: Seq<RuntimeRunDocumentView>,
    event: ReadEventView,
) -> Option<RuntimeCheckDocumentView> {
    let task_id = match event.run_id {
        Some(run_id) => task_of_run(runs, run_id),
        None => event.payload_task_id,
    };
    if event.payload_bytes > MAX_EVENT_BYTES {
        None
    } else if task_id is Some && task_names(tasks).contains(task_id->0) {
        Some(
            RuntimeCheckDocumentView {
                id: "event:"@ + signed_decimal(event.id),
                task_id: task_id->0,
                run_id: event.run_id,
                status: if occurs_in("passed"@, event.event_type) {
                    "passed"@
                } else {
                    "failed"@
                },
            },
        )
    } else {
        None
    }
}

/// The checks that some events are.
pub open spec fn check_records(
    tasks: Seq<RuntimeTaskDocumentView>,
    runs: Seq<RuntimeRunDocumentView>,
    events: Seq<ReadEventView>,
) -> Result<Seq<RuntimeCheckDocumentView>, MemorySourceError>
    decreases events.len(),
{
    if events.len() == 0 {
        Ok(Seq::empty())
    } else {
        match (
            check_records(tasks, runs, events.drop_last()),
            check_record(tasks, runs, events.last()),
        ) {
            (Err(error), _) => Err(error),
            (Ok(checks), None) => Ok(checks),
            (Ok(checks), Some(check)) => if checks.len() >= MAX_RUNTIME_RECORDS {
                Err(MemorySourceError::TooManyChecks)
            } else {
                Ok(checks.push(check))
            },
        }
    }
}

proof fn refused_checks_stay_refused(
    tasks: Seq<RuntimeTaskDocumentView>,
    runs: Seq<RuntimeRunDocumentView>,
    events: Seq<ReadEventView>,
    at: int,
)
    requires
        0 <= at <= events.len(),
        check_records(tasks, runs, events.take(at)) is Err,
    ensures
        check_records(tasks, runs, events) == check_records(tasks, runs, events.take(at)),
    decreases events.len(),
{
    if at == events.len() {
        assert(events.take(at) =~= events);
    } else {
        assert(events.drop_last().take(at) =~= events.take(at));
        refused_checks_stay_refused(tasks, runs, events.drop_last(), at);
    }
}

/// The names of tasks, and the tasks of runs, ready to be looked up.
struct RuntimeIndex {
    tasks: OrderedMap<bool>,
    runs: OrderedMap<String>,
}

impl RuntimeIndex {
    spec fn indexes(
        self,
        tasks: Seq<RuntimeTaskDocumentView>,
        runs: Seq<RuntimeRunDocumentView>,
    ) -> bool {
        &&& self.tasks.well_formed()
        &&& self.runs.well_formed()
        &&& self.tasks.deep_view().dom() == task_names(tasks)
        &&& forall|id: Seq<char>| #[trigger]
            task_of_run(runs, id) == if self.runs.deep_view().contains_key(id) {
                Some(self.runs.deep_view()[id])
            } else {
                None
            }
    }

    fn new(tasks: &Vec<RuntimeTaskDocument>, runs: &Vec<RuntimeRunDocument>) -> (index: Self)
        ensures
            index.indexes(tasks.deep_view(), runs.deep_view()),
    {
        let ghost task_models = tasks.deep_view();
        let ghost run_models = runs.deep_view();
        let ghost ids = task_models.map_values(|task: RuntimeTaskDocumentView| task.id);
        let mut names: OrderedMap<bool> = OrderedMap::new();
        let mut at: usize = 0;
        assert(names.deep_view().dom() =~= ids.take(0).to_set());
        while at < tasks.len()
            invariant
                at <= tasks.len(),
                task_models == tasks.deep_view(),
                ids == task_models.map_values(|task: RuntimeTaskDocumentView| task.id),
                names.well_formed(),
                names.deep_view().dom() == ids.take(at as int).to_set(),
            decreases tasks.len() - at,
        {
            let ghost before = names.deep_view();
            assert(task_models[at as int] == tasks@[at as int].deep_view());
            names.insert(tasks[at].id.copied(), true);
            assert(ids.take(at + 1) =~= ids.take(at as int).push(ids[at as int]));
            assert(names.deep_view().dom() =~= before.dom().insert(ids[at as int]));
            assert(ids.take(at + 1).to_set() =~= ids.take(at as int).to_set().insert(ids[at as int])) by {
                assert forall|id: Seq<char>| #[trigger] ids.take(at as int).to_set().insert(
                    ids[at as int],
                ).contains(id) implies ids.take(at + 1).to_set().contains(id) by {
                    if id == ids[at as int] {
                        assert(ids.take(at + 1)[at as int] == id);
                    } else {
                        let i = choose|i: int|
                            0 <= i < ids.take(at as int).len() && ids.take(at as int)[i] == id;
                        assert(ids.take(at + 1)[i] == id);
                    }
                }
            }
            at += 1;
        }
        assert(ids.take(at as int) =~= ids);
        let mut owners: OrderedMap<String> = OrderedMap::new();
        let mut at: usize = 0;
        assert(run_models.take(0) =~= Seq::empty());
        while at < runs.len()
            invariant
                at <= runs.len(),
                run_models == runs.deep_view(),
                owners.well_formed(),
                forall|id: Seq<char>| #[trigger]
                    task_of_run(run_models.take(at as int), id) == if owners.deep_view().contains_key(id) {
                        Some(owners.deep_view()[id])
                    } else {
                        None
                    },
            decreases runs.len() - at,
        {
            assert(run_models[at as int] == runs@[at as int].deep_view());
            assert(run_models.take(at + 1).last() == run_models[at as int]);
            assert(run_models.take(at + 1).drop_last() =~= run_models.take(at as int));
            let ghost before = owners.deep_view();
            owners.insert(runs[at].id.copied(), runs[at].task_id.copied());
            assert forall|id: Seq<char>| #[trigger]
                task_of_run(run_models.take(at + 1), id) == if owners.deep_view().contains_key(id) {
                    Some(owners.deep_view()[id])
                } else {
                    None
                } by {
                assert(task_of_run(run_models.take(at as int), id) == if before.contains_key(id) {
                    Some(before[id])
                } else {
                    None
                });
            }
            at += 1;
        }
        assert(run_models.take(at as int) =~= run_models);
        RuntimeIndex { tasks: names, runs: owners }
    }

    /// The check that an event is, where it is one of a task that is known.
    fn check(
        &self,
        event: &ReadEvent,
        tasks: Ghost<Seq<RuntimeTaskDocumentView>>,
        runs: Ghost<Seq<RuntimeRunDocumentView>>,
    ) -> (check: Option<RuntimeCheckDocument>)
        requires
            self.indexes(tasks@, runs@),
        ensures
            check.deep_view() == check_record(tasks@, runs@, event.deep_view()),
    {
        if event.payload_bytes > MAX_EVENT_BYTES {
            return None;
        }
        let task_id = match &event.run_id {
            Some(run_id) => match self.runs.get(run_id.as_str()) {
                Some(task_id) => task_id.copied(),
                None => {
                    assert(task_of_run(runs@, run_id@) is None);
                    return None;
                },
            },
            None => match &event.payload_task_id {
                Some(task_id) => task_id.copied(),
                None => {
                    return None;
                },
            },
        };
        proof {
            if event.run_id is Some {
                assert(task_of_run(runs@, event.run_id->0@) == Some(task_id@));
            }
        }
        assert(self.tasks.deep_view().contains_key(task_id@) == task_names(tasks@).contains(task_id@));
        if !self.tasks.contains(task_id.as_str()) {
            return None;
        }
        let status = if contains_text(event.event_type.as_str(), "passed") {
            "passed".to_owned()
        } else {
            "failed".to_owned()
        };
        Some(
            RuntimeCheckDocument {
                id: joined("event:", signed_decimal_of(event.id).as_str()),
                task_id,
                run_id: event.run_id.copied(),
                status,
            },
        )
    }
}

fn check_documents(
    tasks: &Vec<RuntimeTaskDocument>,
    runs: &Vec<RuntimeRunDocument>,
    events: &Vec<ReadEvent>,
) -> (result: Result<Vec<RuntimeCheckDocument>, MemorySourceError>)
    ensures
        outcome(result) == check_records(tasks.deep_view(), runs.deep_view(), events.deep_view()),
{
    let ghost task_models = tasks.deep_view();
    let ghost run_models = runs.deep_view();
    let ghost models = events.deep_view();
    let index = RuntimeIndex::new(tasks, runs);
    let mut checks: Vec<RuntimeCheckDocument> = Vec::new();
    let mut at: usize = 0;
    assert(models.take(0) =~= Seq::empty());
    assert(checks.deep_view() =~= Seq::empty());
    while at < events.len()
        invariant
            at <= events.len(),
            models == events.deep_view(),
            task_models == tasks.deep_view(),
            run_models == runs.deep_view(),
            index.indexes(task_models, run_models),
            check_records(task_models, run_models, models.take(at as int)) == Ok::<
                _,
                MemorySourceError,
            >(checks.deep_view()),
        decreases events.len() - at,
    {
        let ghost before = checks.deep_view();
        assert(models[at as int] == events@[at as int].deep_view());
        assert(models.take(at + 1).last() == models[at as int]);
        assert(models.take(at + 1).drop_last() =~= models.take(at as int));
        assert(before.len() == checks.len());
        if let Some(check) = index.check(&events[at], Ghost(task_models), Ghost(run_models)) {
            if checks.len() >= MAX_RUNTIME_RECORDS {
                proof {
                    refused_checks_stay_refused(task_models, run_models, models, at + 1);
                }
                return Err(MemorySourceError::TooManyChecks);
            }
            let ghost record = check.deep_view();
            checks.push(check);
            assert(checks.deep_view() =~= before.push(record));
        }
        at += 1;
    }
    assert(models.take(at as int) =~= models);
    Ok(checks)
}

/// The checks of a run, in their order.
pub open spec fn checks_of_run(
    checks: Seq<RuntimeCheckDocumentView>,
    id: Seq<char>,
) -> Seq<Seq<char>>
    decreases checks.len(),
{
    if checks.len() == 0 {
        Seq::empty()
    } else if checks.last().run_id == Some(id) {
        checks_of_run(checks.drop_last(), id).push(checks.last().id)
    } else {
        checks_of_run(checks.drop_last(), id)
    }
}

fn checks_by_run(checks: &Vec<RuntimeCheckDocument>) -> (map: OrderedMap<Vec<String>>)
    ensures
        map.well_formed(),
        forall|id: Seq<char>| #[trigger]
            checks_of_run(checks.deep_view(), id) == listed(map.deep_view(), id),
{
    let ghost models = checks.deep_view();
    let mut map: OrderedMap<Vec<String>> = OrderedMap::new();
    let mut at: usize = 0;
    assert(models.take(0) =~= Seq::empty());
    while at < checks.len()
        invariant
            at <= checks.len(),
            models == checks.deep_view(),
            map.well_formed(),
            forall|id: Seq<char>| #[trigger]
                checks_of_run(models.take(at as int), id) == listed(map.deep_view(), id),
        decreases checks.len() - at,
    {
        assert(models[at as int] == checks@[at as int].deep_view());
        assert(models.take(at + 1).last() == models[at as int]);
        assert(models.take(at + 1).drop_last() =~= models.take(at as int));
        let check = &checks[at];
        let ghost before = map.deep_view();
        if let Some(run_id) = &check.run_id {
            assert(checks_of_run(models.take(at as int), run_id@) == listed(map.deep_view(), run_id@));
            map.push(run_id.copied(), check.id.copied());
        }
        assert forall|id: Seq<char>| #[trigger]
            checks_of_run(models.take(at + 1), id) == listed(map.deep_view(), id) by {
            assert(checks_of_run(models.take(at as int), id) == listed(before, id));
        }
        at += 1;
    }
    assert(models.take(at as int) =~= models);
    map
}

/// The runs together with their checks.
pub open spec fn with_checks(
    runs: Seq<RuntimeRunDocumentView>,
    checks: Seq<RuntimeCheckDocumentView>,
) -> Seq<RuntimeRunDocumentView> {
    runs.map_values(
        |run: RuntimeRunDocumentView|
            RuntimeRunDocumentView { check_ids: checks_of_run(checks, run.id), ..run },
    )
}

fn add_checks(runs: Vec<RuntimeRunDocument>, checks: &Vec<RuntimeCheckDocument>) -> (result: Vec<
    RuntimeRunDocument,
>)
    ensures
        result.deep_view() == with_checks(runs.deep_view(), checks.deep_view()),
{
    let map = checks_by_run(checks);
    let ghost models = runs.deep_view();
    let ghost goal = with_checks(models, checks.deep_view());
    let mut result: Vec<RuntimeRunDocument> = Vec::new();
    let mut at: usize = 0;
    while at < runs.len()
        invariant
            at <= runs.len(),
            models == runs.deep_view(),
            goal == with_checks(models, checks.deep_view()),
            map.well_formed(),
            forall|id: Seq<char>| #[trigger]
                checks_of_run(checks.deep_view(), id) == listed(map.deep_view(), id),
            result.deep_view() =~= goal.take(at as int),
        decreases runs.len() - at,
    {
        let ghost before = result.deep_view();
        assert(models[at as int] == runs@[at as int].deep_view());
        let mut run = runs[at].copied();
        run.check_ids = match map.get(run.id.as_str()) {
            Some(ids) => ids.copied(),
            None => Vec::new(),
        };
        assert(run.check_ids.deep_view() =~= checks_of_run(checks.deep_view(), run.id@));
        result.push(run);
        assert(result.deep_view() =~= before.push(run.deep_view()));
        at += 1;
    }
    assert(result.deep_view() =~= goal);
    result
}

/// The record that stands for the runtime: names, states and what belongs together, and nothing else.
/// There is none where no task has come to an end.
pub open spec fn runtime_record(
    tasks: Seq<TaskRowView>,
    runs: Seq<RunRowView>,
    events: Seq<ReadEventView>,
) -> Result<Option<RuntimeSourceDocumentView>, MemorySourceError> {
    match task_records(tasks) {
        Err(error) => Err(error),
        Ok(tasks) => if tasks.len() == 0 {
            Ok(None)
        } else {
            match run_records(runs) {
                Err(error) => Err(error),
                Ok(runs) => match check_records(tasks, runs, events) {
                    Err(error) => Err(error),
                    Ok(checks) => Ok(
                        Some(
                            RuntimeSourceDocumentView {
                                tasks,
                                runs: with_checks(runs, checks),
                                checks,
                            },
                        ),
                    ),
                },
            }
        },
    }
}

/// The record that stands for the runtime.
pub fn runtime_document(
    tasks: &Vec<TaskRow>,
    runs: &Vec<RunRow>,
    events: &Vec<ReadEvent>,
) -> (result: Result<Option<RuntimeSourceDocument>, MemorySourceError>)
    ensures
        outcome(result) == runtime_record(tasks.deep_view(), runs.deep_view(), events.deep_view()),
{
    let tasks = match task_documents(tasks) {
        Ok(tasks) => tasks,
        Err(error) => {
            return Err(error);
        },
    };
    assert(tasks.deep_view().len() == tasks.len());
    if tasks.len() == 0 {
        return Ok(None);
    }
    let runs = match run_documents(runs) {
        Ok(runs) => runs,
        Err(error) => {
            return Err(error);
        },
    };
    let checks = match check_documents(&tasks, &runs, events) {
        Ok(checks) => checks,
        Err(error) => {
            return Err(error);
        },
    };
    let runs = add_checks(runs, &checks);
    Ok(Some(RuntimeSourceDocument { tasks, runs, checks }))
}

/// The runtime's records as a source.
pub open spec fn runtime_source(
    project: ProjectRefView,
    document: RuntimeSourceDocumentView,
) -> SourceMaterialView {
    let bytes = record_bytes(SourceDocumentView::Runtime(document));
    SourceMaterialView {
        descriptor: AuthorizedSourceDescriptorView {
            project,
            category: MemorySourceCategory::RuntimeProvenance,
            locator: MemorySourceLocatorView::RuntimeRecords {
                record_type: "task-run-check-metadata"@,
            },
            fingerprint: bytes_fingerprint(bytes),
            byte_len: bytes.len() as u64,
        },
        document: SourceDocumentView::Runtime(document),
    }
}

/// The runtime's records as a source. There must not be too many bytes of them.
pub fn runtime_material(project: &ProjectRef, document: RuntimeSourceDocument) -> (result: Result<
    SourceMaterial,
    MemorySourceError,
>)
    ensures
        outcome(result) == if record_bytes(SourceDocumentView::Runtime(document.deep_view())).len()
            > MAX_RUNTIME_SOURCE_BYTES {
            Err(MemorySourceError::RuntimeTooLarge)
        } else {
            Ok(runtime_source(project.deep_view(), document.deep_view()))
        },
{
    let document = SourceDocument::Runtime(document);
    let bytes = document_bytes(&document);
    if bytes.len() as u64 > MAX_RUNTIME_SOURCE_BYTES {
        return Err(MemorySourceError::RuntimeTooLarge);
    }
    proof {
        reveal_strlit("task-run-check-metadata");
        crate::value::plain_text_is_bounded("task-run-check-metadata"@, MAX_ID_BYTES as nat, false);
    }
    let record_type = MemoryStatusToken::new("task-run-check-metadata").unwrap();
    Ok(
        SourceMaterial {
            descriptor: AuthorizedSourceDescriptor {
                project: project.copied(),
                category: MemorySourceCategory::RuntimeProvenance,
                locator: MemorySourceLocator::RuntimeRecords { record_type },
                fingerprint: bytes_digest(&bytes),
                byte_len: bytes.len() as u64,
            },
            document,
        },
    )
}

impl Sortable for SourceMaterial {
    open spec fn key(model: SourceMaterialView) -> SortKey {
        text_key(<AuthorizedSourceDescriptor as ToJson>::json(model.descriptor))
    }

    fn before(&self, other: &Self) -> (before: bool) {
        let left = self.descriptor.to_json();
        let right = other.descriptor.to_json();
        proof {
            crate::order::text_order_is_strict(left@, right@);
        }
        crate::order::text_before(left.as_str(), right.as_str())
    }
}

/// The specifications among the files, as sources.
pub open spec fn all_spec_sources(
    project: ProjectRefView,
    policy: MemoryPolicyView,
    files: Seq<TrackedFileView>,
    approved: Map<Seq<char>, Seq<DigestView>>,
) -> Seq<SourceMaterialView>
    decreases files.len(),
{
    if files.len() == 0 {
        Seq::empty()
    } else {
        let before = all_spec_sources(project, policy, files.drop_last(), approved);
        let file = files.last();
        if file.bytes.len() > MAX_SPEC_BYTES {
            before
        } else {
            before + spec_sources(
                project,
                policy,
                file.path,
                file.bytes,
                file.bytes.len() as u64,
                listed(approved, file.path),
            )
        }
    }
}

fn find_specs(
    project: &ProjectRef,
    policy: &MemoryPolicy,
    files: &Vec<TrackedFile>,
    approved: &OrderedMap<Vec<Digest>>,
) -> (materials: Vec<SourceMaterial>)
    requires
        approved.well_formed(),
    ensures
        materials.deep_view() == all_spec_sources(
            project.deep_view(),
            policy.deep_view(),
            files.deep_view(),
            approved.deep_view(),
        ),
{
    let ghost models = files.deep_view();
    let mut materials: Vec<SourceMaterial> = Vec::new();
    let mut at: usize = 0;
    assert(models.take(0) =~= Seq::empty());
    assert(materials.deep_view() =~= Seq::empty());
    while at < files.len()
        invariant
            at <= files.len(),
            models == files.deep_view(),
            approved.well_formed(),
            materials.deep_view() == all_spec_sources(
                project.deep_view(),
                policy.deep_view(),
                models.take(at as int),
                approved.deep_view(),
            ),
        decreases files.len() - at,
    {
        let file = &files[at];
        let ghost before = materials.deep_view();
        assert(models[at as int] == files@[at as int].deep_view());
        assert(models.take(at + 1).last() == models[at as int]);
        assert(models.take(at + 1).drop_last() =~= models.take(at as int));
        assert(file.bytes.deep_view() =~= file.bytes@);
        if file.bytes.len() as u64 <= MAX_SPEC_BYTES {
            let none: Vec<Digest> = Vec::new();
            assert(none.deep_view() =~= Seq::empty());
            let known = match approved.get(file.path.as_str()) {
                Some(known) => known,
                None => &none,
            };
            assert(known.deep_view() == listed(approved.deep_view(), file.path.deep_view()));
            let mut more = spec_materials(
                project,
                policy,
                &file.path,
                file.bytes.as_slice(),
                file.bytes.len() as u64,
                known,
            );
            let ghost added = more.deep_view();
            materials.append(&mut more);
            assert(materials.deep_view() =~= before + added);
        }
        at += 1;
    }
    assert(models.take(at as int) =~= models);
    materials
}

/// The sources so far with those of some archives.
pub open spec fn with_archives(
    materials: Seq<SourceMaterialView>,
    project: ProjectRefView,
    archives: Seq<ArchiveRowView>,
) -> Result<Seq<SourceMaterialView>, MemorySourceError>
    decreases archives.len(),
{
    if archives.len() == 0 {
        Ok(materials)
    } else {
        match with_archives(materials, project, archives.drop_last()) {
            Err(error) => Err(error),
            Ok(materials) => {
                let row = archives.last();
                match archive_record(row.archive_id, row.manifest, row.task_count, row.run_count) {
                    Err(error) => Err(error),
                    Ok(document) => if materials.len() >= MAX_SOURCES {
                        Err(MemorySourceError::TooManySources)
                    } else {
                        Ok(materials.push(archive_source(project, document, row.file_bytes)))
                    },
                }
            },
        }
    }
}

proof fn refused_archives_stay_refused(
    materials: Seq<SourceMaterialView>,
    project: ProjectRefView,
    archives: Seq<ArchiveRowView>,
    at: int,
)
    requires
        0 <= at <= archives.len(),
        with_archives(materials, project, archives.take(at)) is Err,
    ensures
        with_archives(materials, project, archives) == with_archives(
            materials,
            project,
            archives.take(at),
        ),
    decreases archives.len(),
{
    if at == archives.len() {
        assert(archives.take(at) =~= archives);
    } else {
        assert(archives.drop_last().take(at) =~= archives.take(at));
        refused_archives_stay_refused(materials, project, archives.drop_last(), at);
    }
}

fn find_archives(
    found: &Vec<SourceMaterial>,
    project: &ProjectRef,
    archives: &Vec<ArchiveRow>,
) -> (result: Result<Vec<SourceMaterial>, MemorySourceError>)
    ensures
        outcome(result) == with_archives(found.deep_view(), project.deep_view(), archives.deep_view()),
{
    let ghost models = archives.deep_view();
    let ghost start = found.deep_view();
    let mut materials = found.copied();
    let mut at: usize = 0;
    assert(models.take(0) =~= Seq::empty());
    while at < archives.len()
        invariant
            at <= archives.len(),
            models == archives.deep_view(),
            start == found.deep_view(),
            with_archives(start, project.deep_view(), models.take(at as int)) == Ok::<
                _,
                MemorySourceError,
            >(materials.deep_view()),
        decreases archives.len() - at,
    {
        let row = &archives[at];
        let ghost before = materials.deep_view();
        assert(models[at as int] == archives@[at as int].deep_view());
        assert(models.take(at + 1).last() == models[at as int]);
        assert(models.take(at + 1).drop_last() =~= models.take(at as int));
        assert(before.len() == materials.len());
        match archive_material(
            project,
            row.archive_id.as_str(),
            &row.manifest,
            row.task_count,
            row.run_count,
            row.file_bytes,
        ) {
            Err(error) => {
                proof {
                    refused_archives_stay_refused(start, project.deep_view(), models, at + 1);
                }
                return Err(error);
            },
            Ok(material) => {
                if materials.len() >= MAX_SOURCES {
                    proof {
                        refused_archives_stay_refused(start, project.deep_view(), models, at + 1);
                    }
                    return Err(MemorySourceError::TooManySources);
                }
                let ghost added = material.deep_view();
                materials.push(material);
                assert(materials.deep_view() =~= before.push(added));
            },
        }
        at += 1;
    }
    assert(models.take(at as int) =~= models);
    Ok(materials)
}

/// The sources so far with the runtime's records.
pub open spec fn with_runtime(
    materials: Seq<SourceMaterialView>,
    project: ProjectRefView,
    tasks: Seq<TaskRowView>,
    runs: Seq<RunRowView>,
    events: Seq<ReadEventView>,
) -> Result<Seq<SourceMaterialView>, MemorySourceError> {
    match runtime_record(tasks, runs, events) {
        Err(error) => Err(error),
        Ok(None) => Ok(materials),
        Ok(Some(document)) => if record_bytes(SourceDocumentView::Runtime(document)).len()
            > MAX_RUNTIME_SOURCE_BYTES {
            Err(MemorySourceError::RuntimeTooLarge)
        } else {
            Ok(materials.push(runtime_source(project, document)))
        },
    }
}

/// The sources of a project, as far as its policy allows them.
pub open spec fn found_sources(
    project: ProjectRefView,
    policy: MemoryPolicyView,
    inventory: SourceInventoryView,
    events: Seq<EventRowView>,
) -> Result<Seq<SourceMaterialView>, MemorySourceError> {
    let reads_specs = policy.authorizes(MemorySourceCategory::SpecificationStructure)
        || policy.authorizes(MemorySourceCategory::ApprovedOutcome);
    if reads_specs && inventory.proofs.len() > MAX_SOURCES {
        Err(MemorySourceError::TooManyProofs)
    } else {
        let specs = if reads_specs {
            all_spec_sources(project, policy, inventory.files, approved_outcomes(inventory.proofs))
        } else {
            Seq::empty()
        };
        let archived = if policy.authorizes(MemorySourceCategory::ArchiveManifest) {
            with_archives(specs, project, inventory.archives)
        } else {
            Ok(specs)
        };
        match archived {
            Err(error) => Err(error),
            Ok(materials) => if policy.authorizes(MemorySourceCategory::RuntimeProvenance) {
                with_runtime(
                    materials,
                    project,
                    inventory.tasks,
                    inventory.runs,
                    reads_of(events),
                )
            } else {
                Ok(materials)
            },
        }
    }
}

/// The sources of a project, as far as its policy allows them.
pub fn discover_sources(
    project: &ProjectRef,
    policy: &MemoryPolicy,
    inventory: &SourceInventory,
    events: &Vec<EventRow>,
) -> (result: Result<Vec<SourceMaterial>, MemorySourceError>)
    ensures
        outcome(result) == found_sources(
            project.deep_view(),
            policy.deep_view(),
            inventory.deep_view(),
            events.deep_view(),
        ),
{
    let mut materials: Vec<SourceMaterial> = Vec::new();
    assert(materials.deep_view() =~= Seq::empty());
    assert(inventory.deep_view().proofs.len() == inventory.proofs.len());
    if policy.is_authorized(MemorySourceCategory::SpecificationStructure) || policy.is_authorized(
        MemorySourceCategory::ApprovedOutcome,
    ) {
        match approved_outcome_fingerprints(&inventory.proofs) {
            Err(error) => {
                return Err(error);
            },
            Ok(approved) => {
                materials = find_specs(project, policy, &inventory.files, &approved);
            },
        }
    }
    if policy.is_authorized(MemorySourceCategory::ArchiveManifest) {
        match find_archives(&materials, project, &inventory.archives) {
            Err(error) => {
                return Err(error);
            },
            Ok(more) => {
                materials = more;
            },
        }
    }
    if policy.is_authorized(MemorySourceCategory::RuntimeProvenance) {
        let ghost before = materials.deep_view();
        let read = read_events(events);
        match runtime_document(&inventory.tasks, &inventory.runs, &read) {
            Err(error) => {
                return Err(error);
            },
            Ok(None) => {},
            Ok(Some(document)) => match runtime_material(project, document) {
                Err(error) => {
                    return Err(error);
                },
                Ok(material) => {
                    let ghost added = material.deep_view();
                    materials.push(material);
                    assert(materials.deep_view() =~= before.push(added));
                },
            },
        }
    }
    Ok(materials)
}

/// Whether a policy allows a source, and the source belongs to the project.
pub open spec fn is_allowed(
    project: ProjectRefView,
    policy: MemoryPolicyView,
    material: SourceMaterialView,
) -> bool {
    policy.authorizes(material.descriptor.category) && material.descriptor.project == project
}

/// Whether all sources are allowed.
pub open spec fn all_allowed(
    project: ProjectRefView,
    policy: MemoryPolicyView,
    materials: Seq<SourceMaterialView>,
) -> bool {
    forall|i: int| 0 <= i < materials.len() ==> is_allowed(project, policy, #[trigger] materials[i])
}

proof fn specs_are_allowed(
    project: ProjectRefView,
    policy: MemoryPolicyView,
    files: Seq<TrackedFileView>,
    approved: Map<Seq<char>, Seq<DigestView>>,
)
    ensures
        all_allowed(project, policy, all_spec_sources(project, policy, files, approved)),
    decreases files.len(),
{
    if files.len() > 0 {
        specs_are_allowed(project, policy, files.drop_last(), approved);
    }
}

proof fn archives_are_allowed(
    materials: Seq<SourceMaterialView>,
    project: ProjectRefView,
    policy: MemoryPolicyView,
    archives: Seq<ArchiveRowView>,
)
    requires
        all_allowed(project, policy, materials),
        policy.authorizes(MemorySourceCategory::ArchiveManifest),
    ensures
        with_archives(materials, project, archives) matches Ok(all) ==> all_allowed(project, policy, all),
    decreases archives.len(),
{
    if archives.len() > 0 {
        archives_are_allowed(materials, project, policy, archives.drop_last());
    }
}

/// Only sources that the policy allows are found, and only those of the project.
pub proof fn only_authorized_sources_are_found(
    project: ProjectRefView,
    policy: MemoryPolicyView,
    inventory: SourceInventoryView,
    events: Seq<EventRowView>,
)
    ensures
        found_sources(project, policy, inventory, events) matches Ok(materials) ==> all_allowed(
            project,
            policy,
            materials,
        ),
{
    let approved = approved_outcomes(inventory.proofs);
    specs_are_allowed(project, policy, inventory.files, approved);
    let specs = if policy.authorizes(MemorySourceCategory::SpecificationStructure) || policy.authorizes(
        MemorySourceCategory::ApprovedOutcome,
    ) {
        all_spec_sources(project, policy, inventory.files, approved)
    } else {
        Seq::empty()
    };
    if policy.authorizes(MemorySourceCategory::ArchiveManifest) {
        archives_are_allowed(specs, project, policy, inventory.archives);
    }
}

/// An outcome is a source only where an archive proves that it was approved.
pub proof fn outcomes_need_a_proof(
    project: ProjectRefView,
    policy: MemoryPolicyView,
    path: Seq<char>,
    bytes: Seq<u8>,
    file_bytes: u64,
    archives: Seq<ArchiveProofView>,
)
    ensures
        forall|i: int|
            0 <= i < spec_sources(
                project,
                policy,
                path,
                bytes,
                file_bytes,
                listed(approved_outcomes(archives), path),
            ).len() && (#[trigger] spec_sources(
                project,
                policy,
                path,
                bytes,
                file_bytes,
                listed(approved_outcomes(archives), path),
            )[i]).descriptor.category == MemorySourceCategory::ApprovedOutcome ==> exists|j: int|
                0 <= j < archives.len() && proven(#[trigger] archives[j]) == Some(
                    (
                        path,
                        spec_sources(
                            project,
                            policy,
                            path,
                            bytes,
                            file_bytes,
                            listed(approved_outcomes(archives), path),
                        )[i].descriptor.fingerprint,
                    ),
                ),
{
    approved_are_proven(archives, path);
    let approved = listed(approved_outcomes(archives), path);
    let found = spec_sources(project, policy, path, bytes, file_bytes, approved);
    assert forall|i: int|
        0 <= i < found.len() && (#[trigger] found[i]).descriptor.category
            == MemorySourceCategory::ApprovedOutcome implies exists|j: int|
        0 <= j < archives.len() && proven(#[trigger] archives[j]) == Some(
            (path, found[i].descriptor.fingerprint),
        ) by {
        assert(approved.contains(found[i].descriptor.fingerprint));
        let k = choose|k: int| 0 <= k < approved.len() && approved[k] == found[i].descriptor.fingerprint;
        assert(approved[k] == found[i].descriptor.fingerprint);
    }
}

proof fn approved_are_proven(archives: Seq<ArchiveProofView>, path: Seq<char>)
    ensures
        forall|k: int|
            0 <= k < listed(approved_outcomes(archives), path).len() ==> exists|j: int|
                0 <= j < archives.len() && proven(#[trigger] archives[j]) == Some(
                    (path, #[trigger] listed(approved_outcomes(archives), path)[k]),
                ),
    decreases archives.len(),
{
    if archives.len() > 0 {
        let before = archives.drop_last();
        approved_are_proven(before, path);
        let earlier = listed(approved_outcomes(before), path);
        let all = listed(approved_outcomes(archives), path);
        assert forall|k: int| 0 <= k < all.len() implies exists|j: int|
            0 <= j < archives.len() && proven(#[trigger] archives[j]) == Some((path, #[trigger] all[k])) by {
            if k < earlier.len() {
                assert(all[k] == earlier[k]);
                let j = choose|j: int|
                    0 <= j < before.len() && proven(#[trigger] before[j]) == Some((path, earlier[k]));
                assert(archives[j] == before[j]);
                assert(proven(archives[j]) == Some((path, all[k])));
            } else {
                let last = archives.len() - 1;
                assert(proven(archives[last as int]) == Some((path, all[k])));
            }
        }
    }
}

}
