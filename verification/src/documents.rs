//! The documents that sources are read as: specifications, archives and runtime records.
use vstd::prelude::*;
use crate::json::{
    byte_len, json_member, json_members, json_object, json_string, text_json, three_items, two_items,
    JsonObject, ToJson,
};
use crate::record::Record;
use crate::repository::{
    RepoPath, SnapshotId, SourcePosition, SourcePositionView, SourceSpan, SourceSpanView,
};
use crate::text::{
    chars_of, decimal, digits_end_at_a_comma, drop_space, is_space, skip_space, space_character,
    starts_with, strip_prefix, text_of, trim, trimmed, trimmed_end, trimmed_start,
};

verus! {

/// What is kept of an archive's manifest.
#[derive(Debug, PartialEq, Eq)]
pub struct ArchiveSourceDocument {
    pub archive_id: String,
    pub spec_path: RepoPath,
    pub archived_at: String,
    pub task_count: u64,
    pub run_count: u64,
    pub task_ids: Vec<String>,
    pub milestone_ids: Vec<String>,
}

/// The model of [`ArchiveSourceDocument`].
pub struct ArchiveSourceDocumentView {
    pub archive_id: Seq<char>,
    pub spec_path: Seq<char>,
    pub archived_at: Seq<char>,
    pub task_count: u64,
    pub run_count: u64,
    pub task_ids: Seq<Seq<char>>,
    pub milestone_ids: Seq<Seq<char>>,
}

impl DeepView for ArchiveSourceDocument {
    type V = ArchiveSourceDocumentView;

    open spec fn deep_view(&self) -> ArchiveSourceDocumentView {
        ArchiveSourceDocumentView {
            archive_id: self.archive_id.deep_view(),
            spec_path: self.spec_path.deep_view(),
            archived_at: self.archived_at.deep_view(),
            task_count: self.task_count.deep_view(),
            run_count: self.run_count.deep_view(),
            task_ids: self.task_ids.deep_view(),
            milestone_ids: self.milestone_ids.deep_view(),
        }
    }
}

impl Record for ArchiveSourceDocument {
    fn copied(&self) -> (copy: Self) {
        ArchiveSourceDocument {
            archive_id: self.archive_id.copied(),
            spec_path: self.spec_path.copied(),
            archived_at: self.archived_at.copied(),
            task_count: self.task_count.copied(),
            run_count: self.run_count.copied(),
            task_ids: self.task_ids.copied(),
            milestone_ids: self.milestone_ids.copied(),
        }
    }

    fn same(&self, other: &Self) -> (same: bool) {
        self.archive_id.same(&other.archive_id)
            && self.spec_path.same(&other.spec_path)
            && self.archived_at.same(&other.archived_at)
            && self.task_count.same(&other.task_count)
            && self.run_count.same(&other.run_count)
            && self.task_ids.same(&other.task_ids)
            && self.milestone_ids.same(&other.milestone_ids)
    }
}

impl Clone for ArchiveSourceDocument {
    fn clone(&self) -> (copy: Self)
        ensures
            copy.deep_view() == self.deep_view(),
    {
        self.copied()
    }
}

impl ArchiveSourceDocumentView {
    /// The members of the JSON object.
    pub open spec fn members(self) -> Seq<(Seq<char>, Seq<char>)> {
        seq![
            ("archive_id"@, <String as ToJson>::json(self.archive_id)),
            ("spec_path"@, <RepoPath as ToJson>::json(self.spec_path)),
            ("archived_at"@, <String as ToJson>::json(self.archived_at)),
            ("task_count"@, <u64 as ToJson>::json(self.task_count)),
            ("run_count"@, <u64 as ToJson>::json(self.run_count)),
            ("task_ids"@, <Vec<String> as ToJson>::json(self.task_ids)),
            ("milestone_ids"@, <Vec<String> as ToJson>::json(self.milestone_ids)),
        ]
    }
}

impl ToJson for ArchiveSourceDocument {
    open spec fn json(model: ArchiveSourceDocumentView) -> Seq<char> {
        json_object(model.members())
    }

    fn to_json(&self) -> (text: String) {
        let object = JsonObject::new()
            .member("archive_id", self.archive_id.to_json())
            .member("spec_path", self.spec_path.to_json())
            .member("archived_at", self.archived_at.to_json())
            .member("task_count", self.task_count.to_json())
            .member("run_count", self.run_count.to_json())
            .member("task_ids", self.task_ids.to_json())
            .member("milestone_ids", self.milestone_ids.to_json());
        assert(object.members() =~= self.deep_view().members());
        object.finish()
    }
}

/// What is kept of a task.
#[derive(Debug, PartialEq, Eq)]
pub struct RuntimeTaskDocument {
    pub id: String,
    pub milestone_id: Option<String>,
    pub status: String,
    pub baseline_snapshot_id: Option<SnapshotId>,
    pub repository_snapshot_id: Option<SnapshotId>,
}

/// The model of [`RuntimeTaskDocument`].
pub struct RuntimeTaskDocumentView {
    pub id: Seq<char>,
    pub milestone_id: Option<Seq<char>>,
    pub status: Seq<char>,
    pub baseline_snapshot_id: Option<Seq<char>>,
    pub repository_snapshot_id: Option<Seq<char>>,
}

impl DeepView for RuntimeTaskDocument {
    type V = RuntimeTaskDocumentView;

    open spec fn deep_view(&self) -> RuntimeTaskDocumentView {
        RuntimeTaskDocumentView {
            id: self.id.deep_view(),
            milestone_id: self.milestone_id.deep_view(),
            status: self.status.deep_view(),
            baseline_snapshot_id: self.baseline_snapshot_id.deep_view(),
            repository_snapshot_id: self.repository_snapshot_id.deep_view(),
        }
    }
}

impl Record for RuntimeTaskDocument {
    fn copied(&self) -> (copy: Self) {
        RuntimeTaskDocument {
            id: self.id.copied(),
            milestone_id: self.milestone_id.copied(),
            status: self.status.copied(),
            baseline_snapshot_id: self.baseline_snapshot_id.copied(),
            repository_snapshot_id: self.repository_snapshot_id.copied(),
        }
    }

    fn same(&self, other: &Self) -> (same: bool) {
        self.id.same(&other.id)
            && self.milestone_id.same(&other.milestone_id)
            && self.status.same(&other.status)
            && self.baseline_snapshot_id.same(&other.baseline_snapshot_id)
            && self.repository_snapshot_id.same(&other.repository_snapshot_id)
    }
}

impl Clone for RuntimeTaskDocument {
    fn clone(&self) -> (copy: Self)
        ensures
            copy.deep_view() == self.deep_view(),
    {
        self.copied()
    }
}

impl RuntimeTaskDocumentView {
    /// The members of the JSON object.
    pub open spec fn members(self) -> Seq<(Seq<char>, Seq<char>)> {
        seq![
            ("id"@, <String as ToJson>::json(self.id)),
            ("milestone_id"@, <Option<String> as ToJson>::json(self.milestone_id)),
            ("status"@, <String as ToJson>::json(self.status)),
            ("baseline_snapshot_id"@, <Option<SnapshotId> as ToJson>::json(self.baseline_snapshot_id)),
            ("repository_snapshot_id"@, <Option<SnapshotId> as ToJson>::json(self.repository_snapshot_id)),
        ]
    }
}

impl ToJson for RuntimeTaskDocument {
    open spec fn json(model: RuntimeTaskDocumentView) -> Seq<char> {
        json_object(model.members())
    }

    fn to_json(&self) -> (text: String) {
        let object = JsonObject::new()
            .member("id", self.id.to_json())
            .member("milestone_id", self.milestone_id.to_json())
            .member("status", self.status.to_json())
            .member("baseline_snapshot_id", self.baseline_snapshot_id.to_json())
            .member("repository_snapshot_id", self.repository_snapshot_id.to_json());
        assert(object.members() =~= self.deep_view().members());
        object.finish()
    }
}

/// What is kept of a run.
#[derive(Debug, PartialEq, Eq)]
pub struct RuntimeRunDocument {
    pub id: String,
    pub task_id: String,
    pub status: String,
    pub check_ids: Vec<String>,
    pub baseline_snapshot_id: Option<SnapshotId>,
    pub repository_snapshot_id: Option<SnapshotId>,
}

/// The model of [`RuntimeRunDocument`].
pub struct RuntimeRunDocumentView {
    pub id: Seq<char>,
    pub task_id: Seq<char>,
    pub status: Seq<char>,
    pub check_ids: Seq<Seq<char>>,
    pub baseline_snapshot_id: Option<Seq<char>>,
    pub repository_snapshot_id: Option<Seq<char>>,
}

impl DeepView for RuntimeRunDocument {
    type V = RuntimeRunDocumentView;

    open spec fn deep_view(&self) -> RuntimeRunDocumentView {
        RuntimeRunDocumentView {
            id: self.id.deep_view(),
            task_id: self.task_id.deep_view(),
            status: self.status.deep_view(),
            check_ids: self.check_ids.deep_view(),
            baseline_snapshot_id: self.baseline_snapshot_id.deep_view(),
            repository_snapshot_id: self.repository_snapshot_id.deep_view(),
        }
    }
}

impl Record for RuntimeRunDocument {
    fn copied(&self) -> (copy: Self) {
        RuntimeRunDocument {
            id: self.id.copied(),
            task_id: self.task_id.copied(),
            status: self.status.copied(),
            check_ids: self.check_ids.copied(),
            baseline_snapshot_id: self.baseline_snapshot_id.copied(),
            repository_snapshot_id: self.repository_snapshot_id.copied(),
        }
    }

    fn same(&self, other: &Self) -> (same: bool) {
        self.id.same(&other.id)
            && self.task_id.same(&other.task_id)
            && self.status.same(&other.status)
            && self.check_ids.same(&other.check_ids)
            && self.baseline_snapshot_id.same(&other.baseline_snapshot_id)
            && self.repository_snapshot_id.same(&other.repository_snapshot_id)
    }
}

impl Clone for RuntimeRunDocument {
    fn clone(&self) -> (copy: Self)
        ensures
            copy.deep_view() == self.deep_view(),
    {
        self.copied()
    }
}

impl RuntimeRunDocumentView {
    /// The members of the JSON object.
    pub open spec fn members(self) -> Seq<(Seq<char>, Seq<char>)> {
        seq![
            ("id"@, <String as ToJson>::json(self.id)),
            ("task_id"@, <String as ToJson>::json(self.task_id)),
            ("status"@, <String as ToJson>::json(self.status)),
            ("check_ids"@, <Vec<String> as ToJson>::json(self.check_ids)),
            ("baseline_snapshot_id"@, <Option<SnapshotId> as ToJson>::json(self.baseline_snapshot_id)),
            ("repository_snapshot_id"@, <Option<SnapshotId> as ToJson>::json(self.repository_snapshot_id)),
        ]
    }
}

impl ToJson for RuntimeRunDocument {
    open spec fn json(model: RuntimeRunDocumentView) -> Seq<char> {
        json_object(model.members())
    }

    fn to_json(&self) -> (text: String) {
        let object = JsonObject::new()
            .member("id", self.id.to_json())
            .member("task_id", self.task_id.to_json())
            .member("status", self.status.to_json())
            .member("check_ids", self.check_ids.to_json())
            .member("baseline_snapshot_id", self.baseline_snapshot_id.to_json())
            .member("repository_snapshot_id", self.repository_snapshot_id.to_json());
        assert(object.members() =~= self.deep_view().members());
        object.finish()
    }
}

/// What is kept of a check.
#[derive(Debug, PartialEq, Eq)]
pub struct RuntimeCheckDocument {
    pub id: String,
    pub task_id: String,
    pub run_id: Option<String>,
    pub status: String,
}

/// The model of [`RuntimeCheckDocument`].
pub struct RuntimeCheckDocumentView {
    pub id: Seq<char>,
    pub task_id: Seq<char>,
    pub run_id: Option<Seq<char>>,
    pub status: Seq<char>,
}

impl DeepView for RuntimeCheckDocument {
    type V = RuntimeCheckDocumentView;

    open spec fn deep_view(&self) -> RuntimeCheckDocumentView {
        RuntimeCheckDocumentView {
            id: self.id.deep_view(),
            task_id: self.task_id.deep_view(),
            run_id: self.run_id.deep_view(),
            status: self.status.deep_view(),
        }
    }
}

impl Record for RuntimeCheckDocument {
    fn copied(&self) -> (copy: Self) {
        RuntimeCheckDocument {
            id: self.id.copied(),
            task_id: self.task_id.copied(),
            run_id: self.run_id.copied(),
            status: self.status.copied(),
        }
    }

    fn same(&self, other: &Self) -> (same: bool) {
        self.id.same(&other.id)
            && self.task_id.same(&other.task_id)
            && self.run_id.same(&other.run_id)
            && self.status.same(&other.status)
    }
}

impl Clone for RuntimeCheckDocument {
    fn clone(&self) -> (copy: Self)
        ensures
            copy.deep_view() == self.deep_view(),
    {
        self.copied()
    }
}

impl RuntimeCheckDocumentView {
    /// The members of the JSON object.
    pub open spec fn members(self) -> Seq<(Seq<char>, Seq<char>)> {
        seq![
            ("id"@, <String as ToJson>::json(self.id)),
            ("task_id"@, <String as ToJson>::json(self.task_id)),
            ("run_id"@, <Option<String> as ToJson>::json(self.run_id)),
            ("status"@, <String as ToJson>::json(self.status)),
        ]
    }
}

impl ToJson for RuntimeCheckDocument {
    open spec fn json(model: RuntimeCheckDocumentView) -> Seq<char> {
        json_object(model.members())
    }

    fn to_json(&self) -> (text: String) {
        let object = JsonObject::new()
            .member("id", self.id.to_json())
            .member("task_id", self.task_id.to_json())
            .member("run_id", self.run_id.to_json())
            .member("status", self.status.to_json());
        assert(object.members() =~= self.deep_view().members());
        object.finish()
    }
}

/// What is kept of the runtime records.
#[derive(Debug, PartialEq, Eq)]
pub struct RuntimeSourceDocument {
    pub tasks: Vec<RuntimeTaskDocument>,
    pub runs: Vec<RuntimeRunDocument>,
    pub checks: Vec<RuntimeCheckDocument>,
}

/// The model of [`RuntimeSourceDocument`].
pub struct RuntimeSourceDocumentView {
    pub tasks: Seq<RuntimeTaskDocumentView>,
    pub runs: Seq<RuntimeRunDocumentView>,
    pub checks: Seq<RuntimeCheckDocumentView>,
}

impl DeepView for RuntimeSourceDocument {
    type V = RuntimeSourceDocumentView;

    open spec fn deep_view(&self) -> RuntimeSourceDocumentView {
        RuntimeSourceDocumentView {
            tasks: self.tasks.deep_view(),
            runs: self.runs.deep_view(),
            checks: self.checks.deep_view(),
        }
    }
}

impl Record for RuntimeSourceDocument {
    fn copied(&self) -> (copy: Self) {
        RuntimeSourceDocument {
            tasks: self.tasks.copied(),
            runs: self.runs.copied(),
            checks: self.checks.copied(),
        }
    }

    fn same(&self, other: &Self) -> (same: bool) {
        self.tasks.same(&other.tasks)
            && self.runs.same(&other.runs)
            && self.checks.same(&other.checks)
    }
}

impl Clone for RuntimeSourceDocument {
    fn clone(&self) -> (copy: Self)
        ensures
            copy.deep_view() == self.deep_view(),
    {
        self.copied()
    }
}

impl RuntimeSourceDocumentView {
    /// The members of the JSON object.
    pub open spec fn members(self) -> Seq<(Seq<char>, Seq<char>)> {
        seq![
            ("tasks"@, <Vec<RuntimeTaskDocument> as ToJson>::json(self.tasks)),
            ("runs"@, <Vec<RuntimeRunDocument> as ToJson>::json(self.runs)),
            ("checks"@, <Vec<RuntimeCheckDocument> as ToJson>::json(self.checks)),
        ]
    }
}

impl ToJson for RuntimeSourceDocument {
    open spec fn json(model: RuntimeSourceDocumentView) -> Seq<char> {
        json_object(model.members())
    }

    fn to_json(&self) -> (text: String) {
        let object = JsonObject::new()
            .member("tasks", self.tasks.to_json())
            .member("runs", self.runs.to_json())
            .member("checks", self.checks.to_json());
        assert(object.members() =~= self.deep_view().members());
        object.finish()
    }
}

/// A milestone of a specification.
#[derive(Debug, PartialEq, Eq)]
pub struct SpecMilestoneDocument {
    pub id: String,
    pub title: String,
    pub completed: bool,
    pub span: SourceSpan,
}

/// The model of [`SpecMilestoneDocument`].
pub struct SpecMilestoneDocumentView {
    pub id: Seq<char>,
    pub title: Seq<char>,
    pub completed: bool,
    pub span: SourceSpanView,
}

impl DeepView for SpecMilestoneDocument {
    type V = SpecMilestoneDocumentView;

    open spec fn deep_view(&self) -> SpecMilestoneDocumentView {
        SpecMilestoneDocumentView {
            id: self.id.deep_view(),
            title: self.title.deep_view(),
            completed: self.completed.deep_view(),
            span: self.span.deep_view(),
        }
    }
}

impl Record for SpecMilestoneDocument {
    fn copied(&self) -> (copy: Self) {
        SpecMilestoneDocument {
            id: self.id.copied(),
            title: self.title.copied(),
            completed: self.completed.copied(),
            span: self.span.copied(),
        }
    }

    fn same(&self, other: &Self) -> (same: bool) {
        self.id.same(&other.id)
            && self.title.same(&other.title)
            && self.completed.same(&other.completed)
            && self.span.same(&other.span)
    }
}

impl Clone for SpecMilestoneDocument {
    fn clone(&self) -> (copy: Self)
        ensures
            copy.deep_view() == self.deep_view(),
    {
        self.copied()
    }
}

impl SpecMilestoneDocumentView {
    /// The members of the JSON object.
    pub open spec fn members(self) -> Seq<(Seq<char>, Seq<char>)> {
        seq![
            ("id"@, <String as ToJson>::json(self.id)),
            ("title"@, <String as ToJson>::json(self.title)),
            ("completed"@, <bool as ToJson>::json(self.completed)),
            ("span"@, <SourceSpan as ToJson>::json(self.span)),
        ]
    }
}

impl ToJson for SpecMilestoneDocument {
    open spec fn json(model: SpecMilestoneDocumentView) -> Seq<char> {
        json_object(model.members())
    }

    fn to_json(&self) -> (text: String) {
        let object = JsonObject::new()
            .member("id", self.id.to_json())
            .member("title", self.title.to_json())
            .member("completed", self.completed.to_json())
            .member("span", self.span.to_json());
        assert(object.members() =~= self.deep_view().members());
        object.finish()
    }
}

/// The structure of a specification.
#[derive(Debug, PartialEq, Eq)]
pub struct SpecStructureDocument {
    pub title: Option<String>,
    pub title_span: Option<SourceSpan>,
    pub milestones: Vec<SpecMilestoneDocument>,
}

/// The model of [`SpecStructureDocument`].
pub struct SpecStructureDocumentView {
    pub title: Option<Seq<char>>,
    pub title_span: Option<SourceSpanView>,
    pub milestones: Seq<SpecMilestoneDocumentView>,
}

impl DeepView for SpecStructureDocument {
    type V = SpecStructureDocumentView;

    open spec fn deep_view(&self) -> SpecStructureDocumentView {
        SpecStructureDocumentView {
            title: self.title.deep_view(),
            title_span: self.title_span.deep_view(),
            milestones: self.milestones.deep_view(),
        }
    }
}

impl Record for SpecStructureDocument {
    fn copied(&self) -> (copy: Self) {
        SpecStructureDocument {
            title: self.title.copied(),
            title_span: self.title_span.copied(),
            milestones: self.milestones.copied(),
        }
    }

    fn same(&self, other: &Self) -> (same: bool) {
        self.title.same(&other.title)
            && self.title_span.same(&other.title_span)
            && self.milestones.same(&other.milestones)
    }
}

impl Clone for SpecStructureDocument {
    fn clone(&self) -> (copy: Self)
        ensures
            copy.deep_view() == self.deep_view(),
    {
        self.copied()
    }
}

impl SpecStructureDocumentView {
    /// The members of the JSON object.
    pub open spec fn members(self) -> Seq<(Seq<char>, Seq<char>)> {
        seq![
            ("title"@, <Option<String> as ToJson>::json(self.title)),
            ("title_span"@, <Option<SourceSpan> as ToJson>::json(self.title_span)),
            ("milestones"@, <Vec<SpecMilestoneDocument> as ToJson>::json(self.milestones)),
        ]
    }
}

impl ToJson for SpecStructureDocument {
    open spec fn json(model: SpecStructureDocumentView) -> Seq<char> {
        json_object(model.members())
    }

    fn to_json(&self) -> (text: String) {
        let object = JsonObject::new()
            .member("title", self.title.to_json())
            .member("title_span", self.title_span.to_json())
            .member("milestones", self.milestones.to_json());
        assert(object.members() =~= self.deep_view().members());
        object.finish()
    }
}

/// A text that a number and a comma stand in, with more before and behind it.
proof fn number_within(before: Seq<char>, start: Seq<char>, number: Seq<char>, rest: Seq<char>, behind: Seq<char>)
    ensures
        before + (start + (number + ","@ + rest)) + behind == (before + start) + (number + ","@ + (rest
            + behind)),
{
    assert(before + (start + (number + ","@ + rest)) + behind =~= (before + start) + (number + ","@ + (
    rest + behind)));
}

proof fn regrouped(open: Seq<char>, name: Seq<char>, value: Seq<char>, behind: Seq<char>)
    ensures
        open + (name + ":"@ + value) + behind == (open + (name + ":"@)) + value + behind,
{
    assert(open + (name + ":"@ + value) + behind =~= (open + (name + ":"@)) + value + behind);
}

proof fn object_of_two(members: Seq<(Seq<char>, Seq<char>)>)
    requires
        members.len() == 2,
    ensures
        json_object(members) == "{"@ + json_member(members[0]) + (","@ + json_member(members[1]) + "}"@),
{
    two_items(json_members(members));
    let first = json_member(members[0]);
    let second = json_member(members[1]);
    assert("{"@ + (first + ","@ + second) + "}"@ =~= "{"@ + first + (","@ + second + "}"@));
}

proof fn object_of_three(members: Seq<(Seq<char>, Seq<char>)>)
    requires
        members.len() == 3,
    ensures
        json_object(members) == "{"@ + json_member(members[0]) + (","@ + json_member(members[1]) + ","@
            + json_member(members[2]) + "}"@),
        json_object(members) == ("{"@ + json_member(members[0]) + ","@) + json_member(members[1]) + (","@
            + json_member(members[2]) + "}"@),
{
    three_items(json_members(members));
    let first = json_member(members[0]);
    let second = json_member(members[1]);
    let third = json_member(members[2]);
    let text = "{"@ + (first + ","@ + second + ","@ + third) + "}"@;
    assert(text =~= "{"@ + first + (","@ + second + ","@ + third + "}"@));
    assert(text =~= ("{"@ + first + ","@) + second + (","@ + third + "}"@));
}

/// What the place of a title is written as, up to where the title starts.
spec fn up_to_span_start() -> Seq<char> {
    ("{"@ + (json_string("start"@) + ":"@)) + ("{"@ + (json_string("byte_offset"@) + ":"@))
}

/// What a structure with a title is written as, up to where the title starts.
spec fn up_to_title_start(title: Option<Seq<char>>) -> Seq<char> {
    (("{"@ + json_member(("title"@, <Option<String> as ToJson>::json(title))) + ","@) + (json_string(
        "title_span"@,
    ) + ":"@)) + up_to_span_start()
}

proof fn position_text(position: SourcePositionView) -> (rest: Seq<char>)
    ensures
        <SourcePosition as ToJson>::json(position) == ("{"@ + (json_string("byte_offset"@) + ":"@)) + (
        decimal(position.byte_offset as nat) + ","@ + rest),
{
    let members = position.members();
    object_of_three(members);
    let number = decimal(position.byte_offset as nat);
    let rest = json_member(members[1]) + ","@ + json_member(members[2]) + "}"@;
    let behind = ","@ + json_member(members[1]) + ","@ + json_member(members[2]) + "}"@;
    regrouped("{"@, json_string("byte_offset"@), number, behind);
    assert(behind =~= ","@ + rest);
    let open = "{"@ + (json_string("byte_offset"@) + ":"@);
    assert(open + number + (","@ + rest) =~= open + (number + ","@ + rest));
    rest
}

proof fn span_text(span: SourceSpanView) -> (rest: Seq<char>)
    ensures
        <SourceSpan as ToJson>::json(span) == up_to_span_start() + (decimal(span.start.byte_offset as nat)
            + ","@ + rest),
{
    let members = span.members();
    object_of_two(members);
    let inner = position_text(span.start);
    let behind = ","@ + json_member(members[1]) + "}"@;
    regrouped("{"@, json_string("start"@), members[0].1, behind);
    number_within(
        "{"@ + (json_string("start"@) + ":"@),
        "{"@ + (json_string("byte_offset"@) + ":"@),
        decimal(span.start.byte_offset as nat),
        inner,
        behind,
    );
    inner + behind
}

proof fn structure_text(structure: SpecStructureDocumentView) -> (rest: Seq<char>)
    requires
        structure.title_span is Some,
    ensures
        <SpecStructureDocument as ToJson>::json(structure) == up_to_title_start(structure.title) + (decimal(
            structure.title_span->0.start.byte_offset as nat,
        ) + ","@ + rest),
{
    let members = structure.members();
    object_of_three(members);
    let inner = span_text(structure.title_span->0);
    let behind = ","@ + json_member(members[2]) + "}"@;
    let open = "{"@ + json_member(members[0]) + ","@;
    regrouped(open, json_string("title_span"@), members[1].1, behind);
    number_within(
        open + (json_string("title_span"@) + ":"@),
        up_to_span_start(),
        decimal(structure.title_span->0.start.byte_offset as nat),
        inner,
        behind,
    );
    inner + behind
}

/// Where the title of a specification moves, what its fingerprint is taken of differs.
pub proof fn moved_titles_are_told_apart(first: SpecStructureDocumentView, second: SpecStructureDocumentView)
    requires
        first.title == second.title,
        first.title_span is Some,
        second.title_span is Some,
        first.title_span->0.start.byte_offset != second.title_span->0.start.byte_offset,
    ensures
        <SpecStructureDocument as ToJson>::json(first) != <SpecStructureDocument as ToJson>::json(second),
{
    let first_text = <SpecStructureDocument as ToJson>::json(first);
    let second_text = <SpecStructureDocument as ToJson>::json(second);
    if first_text == second_text {
        let first_end = structure_text(first);
        let second_end = structure_text(second);
        let start = up_to_title_start(first.title);
        let first_at = first.title_span->0.start.byte_offset as nat;
        let second_at = second.title_span->0.start.byte_offset as nat;
        let first_rest = decimal(first_at) + ","@ + first_end;
        let second_rest = decimal(second_at) + ","@ + second_end;
        assert(first_text.skip(start.len() as int) =~= first_rest);
        assert(second_text.skip(start.len() as int) =~= second_rest);
        digits_end_at_a_comma(first_at, first_end, second_at, second_end);
    }
}

/// What a section of an outcome is about.
#[derive(Debug, Clone, Copy, PartialEq, Eq, PartialOrd, Ord, Hash, Structural)]
pub enum OutcomeSectionKind {
    Decision,
    Deviation,
    Validation,
    FollowUp,
}

impl DeepView for OutcomeSectionKind {
    type V = OutcomeSectionKind;

    open spec fn deep_view(&self) -> OutcomeSectionKind {
        *self
    }
}

impl OutcomeSectionKind {
    /// The name in stored and transmitted records.
    pub open spec fn name(self) -> Seq<char> {
        match self {
            OutcomeSectionKind::Decision => "Decision"@,
            OutcomeSectionKind::Deviation => "Deviation"@,
            OutcomeSectionKind::Validation => "Validation"@,
            OutcomeSectionKind::FollowUp => "FollowUp"@,
        }
    }

    /// The name in stored and transmitted records.
    pub fn as_str(self) -> (name: &'static str)
        ensures
            name@ == self.name(),
    {
        match self {
            OutcomeSectionKind::Decision => "Decision",
            OutcomeSectionKind::Deviation => "Deviation",
            OutcomeSectionKind::Validation => "Validation",
            OutcomeSectionKind::FollowUp => "FollowUp",
        }
    }

    /// The place in the order of the variants.
    pub open spec fn rank(self) -> u8 {
        match self {
            OutcomeSectionKind::Decision => 0,
            OutcomeSectionKind::Deviation => 1,
            OutcomeSectionKind::Validation => 2,
            OutcomeSectionKind::FollowUp => 3,
        }
    }

    /// The place in the order of the variants.
    pub fn place(self) -> (place: u8)
        ensures
            place == self.rank(),
    {
        match self {
            OutcomeSectionKind::Decision => 0,
            OutcomeSectionKind::Deviation => 1,
            OutcomeSectionKind::Validation => 2,
            OutcomeSectionKind::FollowUp => 3,
        }
    }
}

impl Record for OutcomeSectionKind {
    fn copied(&self) -> (copy: Self) {
        *self
    }

    fn same(&self, other: &Self) -> (same: bool) {
        *self == *other
    }
}

impl ToJson for OutcomeSectionKind {
    open spec fn json(model: OutcomeSectionKind) -> Seq<char> {
        json_string(model.name())
    }

    fn to_json(&self) -> (text: String) {
        text_json(self.as_str())
    }
}

/// A section of an outcome.
#[derive(Debug, PartialEq, Eq)]
pub struct OutcomeSection {
    pub kind: OutcomeSectionKind,
    pub text: String,
    pub span: SourceSpan,
}

/// The model of [`OutcomeSection`].
pub struct OutcomeSectionView {
    pub kind: OutcomeSectionKind,
    pub text: Seq<char>,
    pub span: SourceSpanView,
}

impl DeepView for OutcomeSection {
    type V = OutcomeSectionView;

    open spec fn deep_view(&self) -> OutcomeSectionView {
        OutcomeSectionView {
            kind: self.kind.deep_view(),
            text: self.text.deep_view(),
            span: self.span.deep_view(),
        }
    }
}

impl Record for OutcomeSection {
    fn copied(&self) -> (copy: Self) {
        OutcomeSection {
            kind: self.kind.copied(),
            text: self.text.copied(),
            span: self.span.copied(),
        }
    }

    fn same(&self, other: &Self) -> (same: bool) {
        self.kind.same(&other.kind)
            && self.text.same(&other.text)
            && self.span.same(&other.span)
    }
}

impl Clone for OutcomeSection {
    fn clone(&self) -> (copy: Self)
        ensures
            copy.deep_view() == self.deep_view(),
    {
        self.copied()
    }
}

impl OutcomeSectionView {
    /// The members of the JSON object.
    pub open spec fn members(self) -> Seq<(Seq<char>, Seq<char>)> {
        seq![
            ("kind"@, <OutcomeSectionKind as ToJson>::json(self.kind)),
            ("text"@, <String as ToJson>::json(self.text)),
            ("span"@, <SourceSpan as ToJson>::json(self.span)),
        ]
    }
}

impl ToJson for OutcomeSection {
    open spec fn json(model: OutcomeSectionView) -> Seq<char> {
        json_object(model.members())
    }

    fn to_json(&self) -> (text: String) {
        let object = JsonObject::new()
            .member("kind", self.kind.to_json())
            .member("text", self.text.to_json())
            .member("span", self.span.to_json());
        assert(object.members() =~= self.deep_view().members());
        object.finish()
    }
}

/// The outcome of a specification.
#[derive(Debug, PartialEq, Eq)]
pub struct SpecOutcomeDocument {
    pub text: String,
    pub span: SourceSpan,
    pub sections: Vec<OutcomeSection>,
}

/// The model of [`SpecOutcomeDocument`].
pub struct SpecOutcomeDocumentView {
    pub text: Seq<char>,
    pub span: SourceSpanView,
    pub sections: Seq<OutcomeSectionView>,
}

impl DeepView for SpecOutcomeDocument {
    type V = SpecOutcomeDocumentView;

    open spec fn deep_view(&self) -> SpecOutcomeDocumentView {
        SpecOutcomeDocumentView {
            text: self.text.deep_view(),
            span: self.span.deep_view(),
            sections: self.sections.deep_view(),
        }
    }
}

impl Record for SpecOutcomeDocument {
    fn copied(&self) -> (copy: Self) {
        SpecOutcomeDocument {
            text: self.text.copied(),
            span: self.span.copied(),
            sections: self.sections.copied(),
        }
    }

    fn same(&self, other: &Self) -> (same: bool) {
        self.text.same(&other.text)
            && self.span.same(&other.span)
            && self.sections.same(&other.sections)
    }
}

impl Clone for SpecOutcomeDocument {
    fn clone(&self) -> (copy: Self)
        ensures
            copy.deep_view() == self.deep_view(),
    {
        self.copied()
    }
}

impl SpecOutcomeDocumentView {
    /// The members of the JSON object.
    pub open spec fn members(self) -> Seq<(Seq<char>, Seq<char>)> {
        seq![
            ("text"@, <String as ToJson>::json(self.text)),
            ("span"@, <SourceSpan as ToJson>::json(self.span)),
            ("sections"@, <Vec<OutcomeSection> as ToJson>::json(self.sections)),
        ]
    }
}

impl ToJson for SpecOutcomeDocument {
    open spec fn json(model: SpecOutcomeDocumentView) -> Seq<char> {
        json_object(model.members())
    }

    fn to_json(&self) -> (text: String) {
        let object = JsonObject::new()
            .member("text", self.text.to_json())
            .member("span", self.span.to_json())
            .member("sections", self.sections.to_json());
        assert(object.members() =~= self.deep_view().members());
        object.finish()
    }
}

/// What a specification says.
#[derive(Debug, PartialEq, Eq)]
pub struct ParsedSpecMemory {
    pub structure: SpecStructureDocument,
    pub outcome: Option<SpecOutcomeDocument>,
}

/// The model of [`ParsedSpecMemory`].
pub struct ParsedSpecMemoryView {
    pub structure: SpecStructureDocumentView,
    pub outcome: Option<SpecOutcomeDocumentView>,
}

impl DeepView for ParsedSpecMemory {
    type V = ParsedSpecMemoryView;

    open spec fn deep_view(&self) -> ParsedSpecMemoryView {
        ParsedSpecMemoryView {
            structure: self.structure.deep_view(),
            outcome: self.outcome.deep_view(),
        }
    }
}

impl Record for ParsedSpecMemory {
    fn copied(&self) -> (copy: Self) {
        ParsedSpecMemory {
            structure: self.structure.copied(),
            outcome: self.outcome.copied(),
        }
    }

    fn same(&self, other: &Self) -> (same: bool) {
        self.structure.same(&other.structure)
            && self.outcome.same(&other.outcome)
    }
}

impl Clone for ParsedSpecMemory {
    fn clone(&self) -> (copy: Self)
        ensures
            copy.deep_view() == self.deep_view(),
    {
        self.copied()
    }
}

/// A line of a text: where it starts and ends among the characters, with what ends it, and its
/// number.
pub struct LineView {
    pub from: int,
    pub to: int,
    pub number: u32,
}

/// Where the line that starts here ends: behind the next line feed, or at the end of the text.
pub open spec fn line_end(chars: Seq<char>, from: int) -> int
    decreases chars.len() - from,
{
    if from >= chars.len() {
        from
    } else if chars[from] == '\n' {
        from + 1
    } else {
        line_end(chars, from + 1)
    }
}

/// The number of the line behind this one.
pub open spec fn next_number(number: u32) -> u32 {
    if number == u32::MAX {
        u32::MAX
    } else {
        (number + 1) as u32
    }
}

proof fn line_end_is_behind(chars: Seq<char>, from: int)
    requires
        0 <= from < chars.len(),
    ensures
        from < line_end(chars, from) <= chars.len(),
    decreases chars.len() - from,
{
    reveal_with_fuel(line_end, 2);
    if chars[from] != '\n' && from + 1 < chars.len() {
        line_end_is_behind(chars, from + 1);
    }
}

/// The lines of a text from one on.
pub open spec fn lines_from(chars: Seq<char>, from: int, number: u32) -> Seq<LineView>
    decreases chars.len() - from,
    when 0 <= from
    via lines_from_ends
{
    if from >= chars.len() {
        Seq::empty()
    } else {
        seq![LineView { from, to: line_end(chars, from), number }] + lines_from(
            chars,
            line_end(chars, from),
            next_number(number),
        )
    }
}

#[via_fn]
proof fn lines_from_ends(chars: Seq<char>, from: int, number: u32) {
    if from < chars.len() {
        line_end_is_behind(chars, from);
    }
}

/// The lines of a text; one where the text is empty.
pub open spec fn lines_of(chars: Seq<char>) -> Seq<LineView> {
    if chars.len() == 0 {
        seq![LineView { from: 0, to: 0, number: 1 }]
    } else {
        lines_from(chars, 0, 1)
    }
}

/// A text without the line feeds and carriage returns at its end.
pub open spec fn without_line_end(text: Seq<char>) -> Seq<char>
    decreases text.len(),
{
    if text.len() > 0 && (text.last() == '\n' || text.last() == '\r') {
        without_line_end(text.drop_last())
    } else {
        text
    }
}

impl LineView {
    /// The text of the line, without what ends it.
    pub open spec fn text(self, chars: Seq<char>) -> Seq<char> {
        without_line_end(chars.subrange(self.from, self.to))
    }

    /// Whether the line stands in the text.
    pub open spec fn is_in(self, chars: Seq<char>) -> bool {
        0 <= self.from <= self.to <= chars.len()
    }
}

/// The place in the text, in bytes.
pub open spec fn byte_offset(chars: Seq<char>, at: int) -> u64 {
    byte_len(chars.take(at)) as u64
}

/// The part of a text from the start of one line to the end of another.
pub open spec fn span_of(chars: Seq<char>, first: LineView, last: LineView) -> SourceSpanView {
    let width = byte_len(last.text(chars)) + 1;
    SourceSpanView {
        start: SourcePositionView {
            byte_offset: byte_offset(chars, first.from),
            line: Some(first.number),
            column: Some(1u32),
        },
        end: SourcePositionView {
            byte_offset: byte_offset(chars, last.to),
            line: Some(last.number),
            column: Some(
                if width <= u32::MAX {
                    width as u32
                } else {
                    u32::MAX
                },
            ),
        },
    }
}

/// The encoding of a text is that of its parts, one behind the other.
pub proof fn encoding_joins(left: Seq<char>, right: Seq<char>)
    ensures
        vstd::utf8::encode_utf8(left + right) == vstd::utf8::encode_utf8(left)
            + vstd::utf8::encode_utf8(right),
    decreases left.len(),
{
    if left.len() == 0 {
        assert(left + right =~= right);
        assert(vstd::utf8::encode_utf8(left) =~= Seq::empty());
    } else {
        let all = left + right;
        encoding_joins(left.drop_first(), right);
        assert(all.drop_first() =~= left.drop_first() + right);
        assert(all[0] == left[0]);
        reveal_with_fuel(vstd::utf8::encode_utf8, 2);
        assert(vstd::utf8::encode_utf8(all) =~= vstd::utf8::encode_utf8(left)
            + vstd::utf8::encode_utf8(right));
    }
}

fn lower(character: char) -> (result: char)
    ensures
        result == lowered(character),
{
    if 'A' <= character && character <= 'Z' {
        ((character as u8) + 32) as char
    } else {
        character
    }
}

/// The lower-case letter of an ASCII letter; any other character as it is.
pub open spec fn lowered(character: char) -> char {
    if 'A' <= character <= 'Z' {
        ((character as u8) + 32) as u8 as char
    } else {
        character
    }
}

/// A text without its leading white space.
fn trim_start(text: &str) -> (result: String)
    ensures
        result@ == trimmed_start(text@),
{
    let chars = chars_of(text);
    let start = skip_space(&chars, 0, chars.len());
    assert(chars@.subrange(0, chars.len() as int) =~= chars@);
    text_of(&chars, start, chars.len())
}

/// A text without its trailing white space.
fn trim_end(text: &str) -> (result: String)
    ensures
        result@ == trimmed_end(text@),
{
    let chars = chars_of(text);
    let end = drop_space(&chars, 0, chars.len());
    assert(chars@.subrange(0, chars.len() as int) =~= chars@);
    text_of(&chars, 0, end)
}

/// A line of a text, with its places in bytes.
struct Line {
    from: usize,
    to: usize,
    start: u64,
    end: u64,
    number: u32,
    text: String,
}

impl Line {
    spec fn model(self) -> LineView {
        LineView { from: self.from as int, to: self.to as int, number: self.number }
    }

    spec fn is_of(self, chars: Seq<char>) -> bool {
        &&& self.model().is_in(chars)
        &&& self.start == byte_offset(chars, self.from as int)
        &&& self.end == byte_offset(chars, self.to as int)
        &&& self.text@ == self.model().text(chars)
    }
}

spec fn models(lines: Seq<Line>) -> Seq<LineView> {
    lines.map_values(|line: Line| line.model())
}

spec fn are_lines_of(lines: Seq<Line>, chars: Seq<char>) -> bool {
    &&& models(lines) == lines_of(chars)
    &&& forall|i: int| 0 <= i < lines.len() ==> (#[trigger] lines[i]).is_of(chars)
}

fn find_line_end(chars: &Vec<char>, from: usize) -> (end: usize)
    requires
        from < chars.len(),
    ensures
        end == line_end(chars@, from as int),
        from < end <= chars.len(),
{
    let mut at: usize = from;
    while at < chars.len() && chars[at] != '\n'
        invariant
            from <= at <= chars.len(),
            from < chars.len(),
            line_end(chars@, from as int) == line_end(chars@, at as int),
        decreases chars.len() - at,
    {
        at += 1;
    }
    proof {
        line_end_is_behind(chars@, from as int);
    }
    if at < chars.len() {
        at + 1
    } else {
        at
    }
}

fn drop_line_end(chars: &Vec<char>, from: usize, to: usize) -> (end: usize)
    requires
        from <= to <= chars.len(),
    ensures
        from <= end <= to,
        chars@.subrange(from as int, end as int) == without_line_end(
            chars@.subrange(from as int, to as int),
        ),
{
    let mut end: usize = to;
    while end > from && (chars[end - 1] == '\n' || chars[end - 1] == '\r')
        invariant
            from <= end <= to <= chars.len(),
            without_line_end(chars@.subrange(from as int, end as int)) == without_line_end(
                chars@.subrange(from as int, to as int),
            ),
        decreases end - from,
    {
        assert(chars@.subrange(from as int, end as int).drop_last() =~= chars@.subrange(
            from as int,
            end - 1,
        ));
        end -= 1;
    }
    end
}

/// The size of the first characters, and of those behind them.
proof fn sizes_join(chars: Seq<char>, from: int, to: int)
    requires
        0 <= from <= to <= chars.len(),
    ensures
        byte_len(chars.take(to)) == byte_len(chars.take(from)) + byte_len(chars.subrange(from, to)),
        byte_len(chars.take(to)) <= byte_len(chars),
{
    encoding_joins(chars.take(from), chars.subrange(from, to));
    assert(chars.take(from) + chars.subrange(from, to) =~= chars.take(to));
    encoding_joins(chars.take(to), chars.skip(to));
    assert(chars.take(to) + chars.skip(to) =~= chars);
}

fn line_at(chars: &Vec<char>, from: usize, to: usize, start: u64, number: u32) -> (line: Line)
    requires
        from <= to <= chars.len(),
        start == byte_offset(chars@, from as int),
        byte_len(chars@) <= u64::MAX,
    ensures
        line.is_of(chars@),
        line.model() == (LineView { from: from as int, to: to as int, number }),
{
    let whole = text_of(chars, from, to);
    proof {
        sizes_join(chars@, from as int, to as int);
        sizes_join(chars@, 0, from as int);
    }
    let end = start + whole.as_str().as_bytes().len() as u64;
    let stop = drop_line_end(chars, from, to);
    Line { from, to, start, end, number, text: text_of(chars, from, stop) }
}

fn lines(chars: &Vec<char>) -> (result: Vec<Line>)
    requires
        byte_len(chars@) <= u64::MAX,
    ensures
        are_lines_of(result@, chars@),
        result.len() > 0,
{
    let mut result: Vec<Line> = Vec::new();
    proof {
        assert(chars@.take(0) =~= Seq::<char>::empty());
        assert(vstd::utf8::encode_utf8(Seq::<char>::empty()).len() == 0);
    }
    if chars.len() == 0 {
        result.push(line_at(chars, 0, 0, 0, 1));
        assert(models(result@) =~= lines_of(chars@));
        return result;
    }
    let mut from: usize = 0;
    let mut start: u64 = 0;
    let mut number: u32 = 1;
    assert(models(result@) + lines_from(chars@, 0, 1) =~= lines_of(chars@));
    while from < chars.len()
        invariant
            chars.len() > 0,
            from <= chars.len(),
            from > 0 ==> result.len() > 0,
            byte_len(chars@) <= u64::MAX,
            start == byte_offset(chars@, from as int),
            models(result@) + lines_from(chars@, from as int, number) == lines_of(chars@),
            forall|i: int| 0 <= i < result.len() ==> (#[trigger] result@[i]).is_of(chars@),
        decreases chars.len() - from,
    {
        let to = find_line_end(chars, from);
        let line = line_at(chars, from, to, start, number);
        let next = line.end;
        let ghost before = result@;
        let ghost added = line.model();
        let ghost behind = lines_from(chars@, to as int, next_number(number));
        proof {
            assert(lines_from(chars@, from as int, number) =~= seq![added] + behind);
            assert(models(before) + (seq![added] + behind) =~= models(before).push(added) + behind);
        }
        result.push(line);
        assert(models(result@) =~= models(before).push(added));
        start = next;
        from = to;
        number = if number == u32::MAX {
            u32::MAX
        } else {
            number + 1
        };
    }
    assert(models(result@) =~= lines_of(chars@));
    result
}

fn span_for_lines(first: &Line, last: &Line, chars: Ghost<Seq<char>>) -> (span: SourceSpan)
    requires
        first.is_of(chars@),
        last.is_of(chars@),
    ensures
        span.deep_view() == span_of(chars@, first.model(), last.model()),
{
    let width = last.text.as_str().as_bytes().len();
    SourceSpan {
        start: SourcePosition {
            byte_offset: first.start,
            line: Some(first.number),
            column: Some(1),
        },
        end: SourcePosition {
            byte_offset: last.end,
            line: Some(last.number),
            column: Some(
                if (width as u64) < u32::MAX as u64 {
                    (width + 1) as u32
                } else {
                    u32::MAX
                },
            ),
        },
    }
}

/// Whether a line holds the title.
pub open spec fn is_title(text: Seq<char>) -> bool {
    "# "@.is_prefix_of(trimmed_start(text))
}

/// A text without the marks of a title before it.
pub open spec fn without_marks(text: Seq<char>) -> Seq<char>
    decreases text.len(),
{
    if text.len() >= 2 && text[0] == '#' && text[1] == ' ' {
        without_marks(text.skip(2))
    } else {
        text
    }
}

/// The title in a line.
pub open spec fn title_in(text: Seq<char>) -> Seq<char> {
    trimmed(without_marks(trimmed(text)))
}

/// The place of the first line from one on that holds a title; behind the last where there is none.
pub open spec fn title_place(chars: Seq<char>, lines: Seq<LineView>, at: int) -> int
    decreases lines.len() - at,
{
    if at >= lines.len() || is_title(lines[at].text(chars)) {
        at
    } else {
        title_place(chars, lines, at + 1)
    }
}

fn drop_marks(text: &str) -> (result: String)
    ensures
        result@ == without_marks(text@),
{
    let chars = chars_of(text);
    let mut from: usize = 0;
    assert(chars@.subrange(0, chars.len() as int) =~= chars@);
    while chars.len() - from >= 2 && chars[from] == '#' && chars[from + 1] == ' '
        invariant
            from <= chars.len(),
            without_marks(chars@.subrange(from as int, chars.len() as int)) == without_marks(chars@),
        decreases chars.len() - from,
    {
        assert(chars@.subrange(from as int, chars.len() as int).skip(2) =~= chars@.subrange(
            from + 2,
            chars.len() as int,
        ));
        from += 2;
    }
    text_of(&chars, from, chars.len())
}

fn line_is_title(text: &str) -> (found: bool)
    ensures
        found == is_title(text@),
{
    let start = trim_start(text);
    starts_with(start.as_str(), "# ")
}

/// The place of the first white space from one on; behind the last character where there is none.
pub open spec fn space_place(text: Seq<char>, at: int) -> int
    decreases text.len() - at,
{
    if at >= text.len() || is_space(text[at]) {
        at
    } else {
        space_place(text, at + 1)
    }
}

/// What the mark of a milestone says of its completion.
pub open spec fn mark(character: char) -> Option<bool> {
    if character == 'x' || character == 'X' {
        Some(true)
    } else if character == ' ' {
        Some(false)
    } else {
        None
    }
}

/// The completion and the title of the milestone that a line starts, if it starts one.
pub open spec fn header_in(text: Seq<char>) -> Option<(bool, Seq<char>)> {
    let line = trimmed(text);
    let rest = line.skip(3);
    if !"- ["@.is_prefix_of(line) || rest.len() < 2 || mark(rest[0]) is None || rest[1] != ']' {
        None
    } else {
        let header = trimmed(rest.skip(2));
        let cut = space_place(header, 0);
        if cut > 1 && cut < header.len() && header[0] == '#' && trimmed(header.skip(cut + 1)).len() > 0 {
            Some((mark(rest[0])->0, trimmed(header.skip(cut + 1))))
        } else {
            None
        }
    }
}

fn milestone_header(text: &str) -> (found: Option<(bool, String)>)
    ensures
        match found {
            Some((completed, title)) => header_in(text@) == Some((completed, title@)),
            None => header_in(text@) is None,
        },
{
    let line = trim(text);
    proof {
        reveal_strlit("- [");
    }
    if !starts_with(line.as_str(), "- [") {
        return None;
    }
    let chars = chars_of(line.as_str());
    if chars.len() < 5 {
        return None;
    }
    let completed = match chars[3] {
        'x' => true,
        'X' => true,
        ' ' => false,
        _ => {
            return None;
        },
    };
    if chars[4] != ']' {
        return None;
    }
    let behind = text_of(&chars, 5, chars.len());
    assert(behind@ =~= line@.skip(3).skip(2));
    let header = trim(behind.as_str());
    let chars = chars_of(header.as_str());
    let mut cut: usize = 0;
    while cut < chars.len() && !space_character(chars[cut])
        invariant
            cut <= chars.len(),
            space_place(chars@, 0) == space_place(chars@, cut as int),
        decreases chars.len() - cut,
    {
        cut += 1;
    }
    if cut <= 1 || cut >= chars.len() || chars[0] != '#' {
        return None;
    }
    let rest = text_of(&chars, cut + 1, chars.len());
    assert(rest@ =~= header@.skip(cut + 1));
    let title = trim(rest.as_str());
    if chars_of(title.as_str()).len() == 0 {
        return None;
    }
    Some((completed, title))
}

/// What a line says of a field, if it says something.
pub open spec fn field_in(text: Seq<char>, field: Seq<char>) -> Option<Seq<char>> {
    let line = trimmed(text);
    let entry = if "- "@.is_prefix_of(line) {
        line.skip(2)
    } else {
        line
    };
    let rest = entry.skip(field.len() as int);
    if !field.is_prefix_of(entry) || rest.len() == 0 || rest[0] != ':' {
        None
    } else {
        Some(trimmed(rest.skip(1)))
    }
}

fn child_field(text: &str, field: &str) -> (value: Option<String>)
    ensures
        match value {
            Some(value) => field_in(text@, field@) == Some(value@),
            None => field_in(text@, field@) is None,
        },
{
    let line = trim(text);
    proof {
        reveal_strlit("- ");
    }
    let entry = match strip_prefix(line.as_str(), "- ") {
        Some(entry) => entry,
        None => line,
    };
    let rest = match strip_prefix(entry.as_str(), field) {
        Some(rest) => rest,
        None => {
            return None;
        },
    };
    let chars = chars_of(rest.as_str());
    if chars.len() == 0 || chars[0] != ':' {
        return None;
    }
    let value = text_of(&chars, 1, chars.len());
    assert(value@ =~= rest@.skip(1));
    Some(trim(value.as_str()))
}

/// The place of the first line from one on that starts a milestone; behind the last where none does.
pub open spec fn header_place(chars: Seq<char>, lines: Seq<LineView>, at: int) -> int
    decreases lines.len() - at,
{
    if at >= lines.len() || header_in(lines[at].text(chars)) is Some {
        at
    } else {
        header_place(chars, lines, at + 1)
    }
}

/// The first id that the lines from one up to another give.
pub open spec fn id_between(chars: Seq<char>, lines: Seq<LineView>, at: int, end: int) -> Option<
    Seq<char>,
>
    decreases end - at,
{
    if at >= end || at >= lines.len() {
        None
    } else if field_in(lines[at].text(chars), "ID"@) is Some {
        field_in(lines[at].text(chars), "ID"@)
    } else {
        id_between(chars, lines, at + 1, end)
    }
}

/// The milestone that a line starts: one without an id is none.
pub open spec fn milestone_at(chars: Seq<char>, lines: Seq<LineView>, at: int) -> Option<
    SpecMilestoneDocumentView,
> {
    match header_in(lines[at].text(chars)) {
        None => None,
        Some((completed, title)) => match id_between(
            chars,
            lines,
            at + 1,
            header_place(chars, lines, at + 1),
        ) {
            Some(id) => if id.len() > 0 {
                Some(
                    SpecMilestoneDocumentView {
                        id,
                        title,
                        completed,
                        span: span_of(chars, lines[at], lines[at]),
                    },
                )
            } else {
                None
            },
            None => None,
        },
    }
}

/// The milestones that the first lines start.
pub open spec fn milestones_of(chars: Seq<char>, lines: Seq<LineView>, count: int) -> Seq<
    SpecMilestoneDocumentView,
>
    decreases count,
{
    if count <= 0 {
        Seq::empty()
    } else {
        let rest = milestones_of(chars, lines, count - 1);
        match milestone_at(chars, lines, count - 1) {
            Some(milestone) => rest.push(milestone),
            None => rest,
        }
    }
}

fn find_milestone(lines: &Vec<Line>, at: usize, chars: Ghost<Seq<char>>) -> (found: Option<
    SpecMilestoneDocument,
>)
    requires
        are_lines_of(lines@, chars@),
        at < lines.len(),
    ensures
        found.deep_view() == milestone_at(chars@, lines_of(chars@), at as int),
{
    let ghost all = lines_of(chars@);
    assert(all[at as int] == lines@[at as int].model());
    let (completed, title) = match milestone_header(lines[at].text.as_str()) {
        Some(header) => header,
        None => {
            return None;
        },
    };
    let mut end: usize = at + 1;
    while end < lines.len() && milestone_header(lines[end].text.as_str()).is_none()
        invariant
            at < end <= lines.len(),
            are_lines_of(lines@, chars@),
            all == lines_of(chars@),
            header_place(chars@, all, at + 1) == header_place(chars@, all, end as int),
        decreases lines.len() - end,
    {
        assert(all[end as int] == lines@[end as int].model());
        end += 1;
    }
    if end < lines.len() {
        assert(all[end as int] == lines@[end as int].model());
    }
    let mut next: usize = at + 1;
    while next < end
        invariant
            at < next <= end <= lines.len(),
            are_lines_of(lines@, chars@),
            all == lines_of(chars@),
            header_place(chars@, all, at + 1) == end,
            header_in(all[at as int].text(chars@)) == Some((completed, title@)),
            all[at as int] == lines@[at as int].model(),
            id_between(chars@, all, at + 1, end as int) == id_between(chars@, all, next as int, end as int),
        decreases end - next,
    {
        assert(all[next as int] == lines@[next as int].model());
        if let Some(id) = child_field(lines[next].text.as_str(), "ID") {
            if chars_of(id.as_str()).len() == 0 {
                return None;
            }
            let span = span_for_lines(&lines[at], &lines[at], chars);
            return Some(SpecMilestoneDocument { id, title, completed, span });
        }
        next += 1;
    }
    None
}

/// A character of a heading, made comparable.
pub open spec fn plain_character(character: char) -> char {
    if character == '-' || character == '_' {
        ' '
    } else {
        lowered(character)
    }
}

/// The words of a heading in lower case, with one space between them.
pub open spec fn plain_words(text: Seq<char>) -> Seq<char>
    decreases text.len(),
{
    if text.len() == 0 {
        text
    } else {
        let rest = text.drop_last();
        let words = plain_words(rest);
        let character = plain_character(text.last());
        if is_space(character) {
            words
        } else if words.len() > 0 && is_space(plain_character(rest.last())) {
            words.push(' ').push(character)
        } else {
            words.push(character)
        }
    }
}

/// What a section under this heading is about, if it is one that is kept.
pub open spec fn section_about(title: Seq<char>) -> Option<OutcomeSectionKind> {
    let words = plain_words(title);
    if words == "decision"@ || words == "decisions"@ {
        Some(OutcomeSectionKind::Decision)
    } else if words == "deviation"@ || words == "deviations"@ {
        Some(OutcomeSectionKind::Deviation)
    } else if words == "validation"@ || words == "validation evidence"@ || words == "verification"@ {
        Some(OutcomeSectionKind::Validation)
    } else if words == "follow up"@ || words == "follow up work"@ || words == "remaining work"@ {
        Some(OutcomeSectionKind::FollowUp)
    } else {
        None
    }
}

fn words_of(text: &str) -> (words: String)
    ensures
        words@ == plain_words(text@),
{
    let chars = chars_of(text);
    let mut words: Vec<char> = Vec::new();
    let mut apart = false;
    let mut at: usize = 0;
    assert(chars@.take(0) =~= Seq::<char>::empty());
    while at < chars.len()
        invariant
            at <= chars.len(),
            words@ == plain_words(chars@.take(at as int)),
            words.len() <= 2 * at,
            apart == (at > 0 && is_space(plain_character(chars@[at - 1]))),
        decreases chars.len() - at,
    {
        proof {
            let next = chars@.take(at + 1);
            assert(next.drop_last() =~= chars@.take(at as int));
            assert(next.last() == chars@[at as int]);
            assert(at > 0 ==> chars@.take(at as int).last() == chars@[at - 1]);
        }
        let character = if chars[at] == '-' || chars[at] == '_' {
            ' '
        } else {
            lower(chars[at])
        };
        if space_character(character) {
            apart = true;
        } else {
            if words.len() > 0 && apart {
                words.push(' ');
            }
            words.push(character);
            apart = false;
        }
        at += 1;
    }
    assert(chars@.take(at as int) =~= chars@);
    let result = text_of(&words, 0, words.len());
    assert(result@ =~= words@);
    result
}

fn section_kind(title: &str) -> (kind: Option<OutcomeSectionKind>)
    ensures
        kind == section_about(title@),
{
    let words = words_of(title);
    if words == "decision".to_owned() || words == "decisions".to_owned() {
        Some(OutcomeSectionKind::Decision)
    } else if words == "deviation".to_owned() || words == "deviations".to_owned() {
        Some(OutcomeSectionKind::Deviation)
    } else if words == "validation".to_owned() || words == "validation evidence".to_owned() || words
        == "verification".to_owned() {
        Some(OutcomeSectionKind::Validation)
    } else if words == "follow up".to_owned() || words == "follow up work".to_owned() || words
        == "remaining work".to_owned() {
        Some(OutcomeSectionKind::FollowUp)
    } else {
        None
    }
}

/// What the section that a line starts is about, if it starts one that is kept.
pub open spec fn section_in(text: Seq<char>) -> Option<OutcomeSectionKind> {
    let line = trimmed(text);
    if "### "@.is_prefix_of(line) {
        section_about(trimmed(line.skip("### "@.len() as int)))
    } else {
        None
    }
}

fn section_heading(text: &str) -> (kind: Option<OutcomeSectionKind>)
    ensures
        kind == section_in(text@),
{
    let line = trim(text);
    match strip_prefix(line.as_str(), "### ") {
        Some(rest) => {
            let title = trim(rest.as_str());
            section_kind(title.as_str())
        },
        None => None,
    }
}

/// The text of the lines from one up to another.
pub open spec fn text_between(
    chars: Seq<char>,
    lines: Seq<LineView>,
    from: int,
    to: int,
) -> Seq<char> {
    if from < to && to <= lines.len() {
        chars.subrange(lines[from].from, lines[to - 1].to)
    } else {
        Seq::empty()
    }
}

/// The lines of a text stand one behind the other.
pub proof fn lines_stand_in_order(chars: Seq<char>, from: int, number: u32)
    requires
        0 <= from <= chars.len(),
    ensures
        ({
            let lines = lines_from(chars, from, number);
            &&& forall|i: int| 0 <= i < lines.len() ==> from <= (#[trigger] lines[i]).from < lines[i].to <= chars.len()
            &&& forall|i: int, j: int|
                0 <= i < j < lines.len() ==> (#[trigger] lines[i]).to <= (#[trigger] lines[j]).from
            &&& lines.len() > 0 ==> lines[0].from == from && lines.last().to == chars.len()
            &&& forall|i: int| 0 <= i < lines.len() - 1 ==> (#[trigger] lines[i]).to == lines[i + 1].from
        }),
    decreases chars.len() - from,
{
    if from < chars.len() {
        line_end_is_behind(chars, from);
        let next = line_end(chars, from);
        let rest = lines_from(chars, next, next_number(number));
        let lines = lines_from(chars, from, number);
        lines_stand_in_order(chars, next, next_number(number));
        assert forall|i: int| 0 <= i < lines.len() implies from <= (#[trigger] lines[i]).from < lines[i].to
            <= chars.len() by {
            if i > 0 {
                assert(lines[i] == rest[i - 1]);
            }
        }
        assert forall|i: int, j: int| 0 <= i < j < lines.len() implies (#[trigger] lines[i]).to
            <= (#[trigger] lines[j]).from by {
            assert(lines[j] == rest[j - 1]);
            if i > 0 {
                assert(lines[i] == rest[i - 1]);
            }
        }
        assert forall|i: int|
            0 <= i < lines.len() - 1 implies (#[trigger] lines[i]).to == lines[i + 1].from by {
            assert(lines[i + 1] == rest[i]);
            if i > 0 {
                assert(lines[i] == rest[i - 1]);
                assert(rest[i - 1].to == rest[i].from);
            }
        }
        if rest.len() > 0 {
            assert(lines.last() == rest.last());
        } else {
            reveal_with_fuel(lines_from, 2);
        }
    }
}

fn text_for_line_range(
    chars: &Vec<char>,
    lines: &Vec<Line>,
    from: usize,
    to: usize,
) -> (text: String)
    requires
        are_lines_of(lines@, chars@),
        from <= to <= lines.len(),
    ensures
        text@ == text_between(chars@, lines_of(chars@), from as int, to as int),
{
    if from >= to {
        let text = String::new();
        assert(text@ =~= Seq::<char>::empty());
        return text;
    }
    proof {
        let all = lines_of(chars@);
        assert(all[from as int] == lines@[from as int].model());
        assert(all[to - 1] == lines@[to - 1].model());
        assert(lines@[from as int].is_of(chars@));
        assert(lines@[to - 1].is_of(chars@));
        if chars.len() > 0 {
            lines_stand_in_order(chars@, 0, 1);
            if from < to - 1 {
                assert(all[from as int].to <= all[to - 1].from);
            }
        }
    }
    text_of(chars, lines[from].from, lines[to - 1].to)
}

/// The place of the first line from one on that starts another part of the document; behind the last
/// where none does.
pub open spec fn part_place(chars: Seq<char>, lines: Seq<LineView>, at: int) -> int
    decreases lines.len() - at,
{
    if at >= lines.len() || "## "@.is_prefix_of(trimmed_start(lines[at].text(chars))) {
        at
    } else {
        part_place(chars, lines, at + 1)
    }
}

/// The place of the first line from one up to another that starts a section that is kept.
pub open spec fn section_place(chars: Seq<char>, lines: Seq<LineView>, at: int, end: int) -> int
    decreases end - at,
{
    if at >= end || section_in(lines[at].text(chars)) is Some {
        at
    } else {
        section_place(chars, lines, at + 1, end)
    }
}

/// The section that a line starts, where it starts one that is kept and that holds something.
pub open spec fn section_at(chars: Seq<char>, lines: Seq<LineView>, at: int, end: int) -> Option<
    OutcomeSectionView,
> {
    match section_in(lines[at].text(chars)) {
        None => None,
        Some(kind) => {
            let stop = section_place(chars, lines, at + 1, end);
            let text = trimmed(text_between(chars, lines, at + 1, stop));
            if text.len() == 0 {
                None
            } else {
                Some(
                    OutcomeSectionView {
                        kind,
                        text,
                        span: span_of(chars, lines[at + 1], lines[stop - 1]),
                    },
                )
            }
        },
    }
}

/// The sections that the lines from one up to another start.
pub open spec fn sections_between(
    chars: Seq<char>,
    lines: Seq<LineView>,
    from: int,
    at: int,
    end: int,
) -> Seq<OutcomeSectionView>
    decreases at - from,
{
    if at <= from {
        Seq::empty()
    } else {
        let rest = sections_between(chars, lines, from, at - 1, end);
        match section_at(chars, lines, at - 1, end) {
            Some(section) => rest.push(section),
            None => rest,
        }
    }
}

/// The outcome under the heading in a line; none where nothing stands there.
pub open spec fn outcome_at(chars: Seq<char>, lines: Seq<LineView>, start: int) -> Option<
    SpecOutcomeDocumentView,
> {
    let end = part_place(chars, lines, start + 1);
    let text = trimmed(text_between(chars, lines, start + 1, end));
    if text.len() == 0 {
        None
    } else {
        Some(
            SpecOutcomeDocumentView {
                text,
                span: span_of(chars, lines[start + 1], lines[end - 1]),
                sections: sections_between(chars, lines, start + 1, end, end),
            },
        )
    }
}

/// The place of the first line from one on that is the heading of the outcome; behind the last where
/// none is.
pub open spec fn outcome_place(chars: Seq<char>, lines: Seq<LineView>, at: int) -> int
    decreases lines.len() - at,
{
    if at >= lines.len() || trimmed_end(lines[at].text(chars)) == "## Outcome"@ {
        at
    } else {
        outcome_place(chars, lines, at + 1)
    }
}

proof fn trimmed_nothing()
    ensures
        trimmed(Seq::<char>::empty()).len() == 0,
{
    reveal_with_fuel(trimmed_start, 2);
    reveal_with_fuel(trimmed_end, 2);
}

fn find_section(
    chars: &Vec<char>,
    lines: &Vec<Line>,
    at: usize,
    end: usize,
) -> (found: Option<OutcomeSection>)
    requires
        are_lines_of(lines@, chars@),
        at < end <= lines.len(),
    ensures
        found.deep_view() == section_at(chars@, lines_of(chars@), at as int, end as int),
{
    let ghost all = lines_of(chars@);
    assert(all[at as int] == lines@[at as int].model());
    let kind = match section_heading(lines[at].text.as_str()) {
        Some(kind) => kind,
        None => {
            return None;
        },
    };
    let mut stop: usize = at + 1;
    while stop < end && section_heading(lines[stop].text.as_str()).is_none()
        invariant
            at < stop <= end <= lines.len(),
            are_lines_of(lines@, chars@),
            all == lines_of(chars@),
            section_place(chars@, all, at + 1, end as int) == section_place(
                chars@,
                all,
                stop as int,
                end as int,
            ),
        decreases end - stop,
    {
        assert(all[stop as int] == lines@[stop as int].model());
        stop += 1;
    }
    if stop < end {
        assert(all[stop as int] == lines@[stop as int].model());
    }
    let whole = text_for_line_range(chars, lines, at + 1, stop);
    let text = trim(whole.as_str());
    if chars_of(text.as_str()).len() == 0 {
        return None;
    }
    proof {
        trimmed_nothing();
    }
    if at + 1 >= stop {
        return None;
    }
    assert(all[at + 1] == lines@[at + 1].model());
    assert(all[stop - 1] == lines@[stop - 1].model());
    let span = span_for_lines(&lines[at + 1], &lines[stop - 1], Ghost(chars@));
    Some(OutcomeSection { kind, text, span })
}

fn parse_outcome(
    chars: &Vec<char>,
    lines: &Vec<Line>,
    start: usize,
) -> (outcome: Option<SpecOutcomeDocument>)
    requires
        are_lines_of(lines@, chars@),
        start < lines.len(),
    ensures
        outcome.deep_view() == outcome_at(chars@, lines_of(chars@), start as int),
{
    let ghost all = lines_of(chars@);
    let mut end: usize = start + 1;
    let mut open = true;
    while open && end < lines.len()
        invariant
            start < end <= lines.len(),
            are_lines_of(lines@, chars@),
            all == lines_of(chars@),
            part_place(chars@, all, start + 1) == part_place(chars@, all, end as int),
            !open ==> end < lines.len() && "## "@.is_prefix_of(
                trimmed_start(all[end as int].text(chars@)),
            ),
        decreases 2 * (lines.len() - end) + if open { 1int } else { 0 },
    {
        assert(all[end as int] == lines@[end as int].model());
        let line = trim_start(lines[end].text.as_str());
        if starts_with(line.as_str(), "## ") {
            open = false;
        } else {
            end += 1;
        }
    }
    let whole = text_for_line_range(chars, lines, start + 1, end);
    let text = trim(whole.as_str());
    if chars_of(text.as_str()).len() == 0 {
        return None;
    }
    proof {
        trimmed_nothing();
    }
    if start + 1 >= end {
        return None;
    }
    assert(all[start + 1] == lines@[start + 1].model());
    assert(all[end - 1] == lines@[end - 1].model());
    let span = span_for_lines(&lines[start + 1], &lines[end - 1], Ghost(chars@));
    let mut sections: Vec<OutcomeSection> = Vec::new();
    let mut at: usize = start + 1;
    assert(sections.deep_view() =~= sections_between(chars@, all, start + 1, start + 1, end as int));
    while at < end
        invariant
            start < at <= end <= lines.len(),
            are_lines_of(lines@, chars@),
            all == lines_of(chars@),
            sections.deep_view() == sections_between(chars@, all, start + 1, at as int, end as int),
        decreases end - at,
    {
        if let Some(section) = find_section(chars, lines, at, end) {
            let ghost before = sections.deep_view();
            sections.push(section);
            assert(sections.deep_view() =~= before.push(section.deep_view()));
        }
        at += 1;
    }
    Some(SpecOutcomeDocument { text, span, sections })
}

/// The title of a specification and where it stands.
pub open spec fn title_of(chars: Seq<char>, lines: Seq<LineView>) -> (
    Option<Seq<char>>,
    Option<SourceSpanView>,
) {
    let at = title_place(chars, lines, 0);
    if at < lines.len() {
        let title = title_in(lines[at].text(chars));
        (
            if title.len() > 0 {
                Some(title)
            } else {
                None
            },
            Some(span_of(chars, lines[at], lines[at])),
        )
    } else {
        (None, None)
    }
}

/// What a specification says.
pub open spec fn parsed(chars: Seq<char>) -> ParsedSpecMemoryView {
    let lines = lines_of(chars);
    let outcome = outcome_place(chars, lines, 0);
    ParsedSpecMemoryView {
        structure: SpecStructureDocumentView {
            title: title_of(chars, lines).0,
            title_span: title_of(chars, lines).1,
            milestones: milestones_of(chars, lines, lines.len() as int),
        },
        outcome: if outcome < lines.len() {
            outcome_at(chars, lines, outcome)
        } else {
            None
        },
    }
}

fn find_title(
    lines: &Vec<Line>,
    chars: Ghost<Seq<char>>,
) -> (result: (Option<String>, Option<SourceSpan>))
    requires
        are_lines_of(lines@, chars@),
    ensures
        (result.0.deep_view(), result.1.deep_view()) == title_of(chars@, lines_of(chars@)),
{
    let ghost all = lines_of(chars@);
    let mut at: usize = 0;
    while at < lines.len()
        invariant
            at <= lines.len(),
            are_lines_of(lines@, chars@),
            all == lines_of(chars@),
            title_place(chars@, all, 0) == title_place(chars@, all, at as int),
        decreases lines.len() - at,
    {
        assert(all[at as int] == lines@[at as int].model());
        if line_is_title(lines[at].text.as_str()) {
            let span = span_for_lines(&lines[at], &lines[at], chars);
            let text = trim(lines[at].text.as_str());
            let unmarked = drop_marks(text.as_str());
            let title = trim(unmarked.as_str());
            if chars_of(title.as_str()).len() == 0 {
                return (None, Some(span));
            }
            return (Some(title), Some(span));
        }
        at += 1;
    }
    (None, None)
}

fn find_outcome(chars: &Vec<char>, lines: &Vec<Line>) -> (outcome: Option<SpecOutcomeDocument>)
    requires
        are_lines_of(lines@, chars@),
    ensures
        outcome.deep_view() == parsed(chars@).outcome,
{
    let ghost all = lines_of(chars@);
    let mut at: usize = 0;
    while at < lines.len()
        invariant
            at <= lines.len(),
            are_lines_of(lines@, chars@),
            all == lines_of(chars@),
            outcome_place(chars@, all, 0) == outcome_place(chars@, all, at as int),
        decreases lines.len() - at,
    {
        assert(all[at as int] == lines@[at as int].model());
        let line = trim_end(lines[at].text.as_str());
        if line == "## Outcome".to_owned() {
            return parse_outcome(chars, lines, at);
        }
        at += 1;
    }
    None
}

/// What a specification says: its title, its milestones and its outcome.
pub fn parse_spec_memory(content: &str) -> (result: ParsedSpecMemory)
    ensures
        result.deep_view() == parsed(content@),
{
    let chars = chars_of(content);
    let size = content.as_bytes().len();
    assert(byte_len(chars@) == size);
    let lines = lines(&chars);
    let ghost all = lines_of(chars@);
    let (title, title_span) = find_title(&lines, Ghost(chars@));
    let mut milestones: Vec<SpecMilestoneDocument> = Vec::new();
    let mut at: usize = 0;
    assert(milestones.deep_view() =~= milestones_of(chars@, all, 0));
    while at < lines.len()
        invariant
            at <= lines.len(),
            are_lines_of(lines@, chars@),
            all == lines_of(chars@),
            milestones.deep_view() == milestones_of(chars@, all, at as int),
        decreases lines.len() - at,
    {
        if let Some(milestone) = find_milestone(&lines, at, Ghost(chars@)) {
            let ghost before = milestones.deep_view();
            milestones.push(milestone);
            assert(milestones.deep_view() =~= before.push(milestone.deep_view()));
        }
        at += 1;
    }
    let outcome = find_outcome(&chars, &lines);
    ParsedSpecMemory {
        structure: SpecStructureDocument { title, title_span, milestones },
        outcome,
    }
}

}
