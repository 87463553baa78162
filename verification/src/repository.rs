//! What the library knows of a repository graph: its identities, its facts, and its queries.
use vstd::prelude::*;
use crate::digest::{Digest, DigestView};
use crate::json::{json_object, json_string, text_json, JsonObject, ToJson};
use crate::record::Record;
use crate::text::chars_of;
use crate::value::{
    is_bounded_text, validate_bounded_text, MemoryValueError, NonZeroU32, NonZeroU64,
};

verus! {

/// How many bytes an identity may have.
pub const MAX_IDENTITY_BYTES: usize = 512;

/// How many bytes a repository path may have.
pub const MAX_PATH_BYTES: usize = 4_096;

/// Whether `text[from..to]` is one of the parts between the slashes of `text`.
pub open spec fn is_part(text: Seq<char>, from: int, to: int) -> bool {
    &&& 0 <= from <= to <= text.len()
    &&& from == 0 || text[from - 1] == '/'
    &&& to == text.len() || text[to] == '/'
    &&& forall|i: int| from <= i < to ==> #[trigger] text[i] != '/'
}

/// Whether a text is a portable path below a repository's root: bounded, without backslashes, and
/// made of parts that are neither empty nor `.` nor `..`.
pub open spec fn is_repo_path(text: Seq<char>) -> bool {
    &&& is_bounded_text(text, MAX_PATH_BYTES as nat, false)
    &&& forall|i: int| 0 <= i < text.len() ==> #[trigger] text[i] != '\\'
    &&& forall|from: int, to: int| #[trigger]
        is_part(text, from, to) ==> is_proper_part(text.subrange(from, to))
}

/// Whether a part of a path names a file or a directory of its own.
pub open spec fn is_proper_part(part: Seq<char>) -> bool {
    &&& part.len() > 0
    &&& !(part.len() == 1 && part[0] == '.')
    &&& !(part.len() == 2 && part[0] == '.' && part[1] == '.')
}

/// A portable path below a repository's root.
#[derive(Debug, PartialEq, Eq, PartialOrd, Ord, Hash)]
pub struct RepoPath {
    value: String,
}

impl DeepView for RepoPath {
    type V = Seq<char>;

    closed spec fn deep_view(&self) -> Seq<char> {
        self.value@
    }
}

impl RepoPath {
    #[verifier::type_invariant]
    spec fn valid(self) -> bool {
        is_repo_path(self.value@)
    }

    /// The path with this text.
    pub fn new(value: &str) -> (result: Result<Self, MemoryValueError>)
        ensures
            is_repo_path(value@) ==> result is Ok && result->Ok_0.deep_view() == value@,
            !is_repo_path(value@) ==> result is Err && result->Err_0.describes(
                "repository path"@,
                MAX_PATH_BYTES,
            ),
    {
        let text = match validate_bounded_text(value, "repository path", MAX_PATH_BYTES, false) {
            Ok(text) => text,
            Err(error) => return Err(error),
        };
        let error = MemoryValueError::Invalid { kind: "repository path", max_bytes: MAX_PATH_BYTES };
        let chars = chars_of(value);
        let mut start: usize = 0;
        let mut at: usize = 0;
        while at < chars.len()
            invariant
                chars@ == value@,
                start <= at <= chars.len(),
                start == 0 || value@[start - 1] == '/',
                forall|i: int| start <= i < at ==> #[trigger] value@[i] != '/',
                forall|i: int| 0 <= i < at ==> #[trigger] value@[i] != '\\',
                forall|from: int, to: int| #[trigger]
                    is_part(value@, from, to) && to < start ==> is_proper_part(
                        value@.subrange(from, to),
                    ),
                error.describes("repository path"@, MAX_PATH_BYTES),
            decreases chars.len() - at,
        {
            if chars[at] == '\\' {
                return Err(error);
            }
            if chars[at] == '/' {
                assert(is_part(value@, start as int, at as int));
                if !proper_part(&chars, start, at) {
                    return Err(error);
                }
                assert forall|from: int, to: int| #[trigger]
                    is_part(value@, from, to) && to < at + 1 implies is_proper_part(
                    value@.subrange(from, to),
                ) by {
                    if to >= start {
                        if to < at {
                            assert(value@[to] == '/');
                        }
                        if from < start {
                            assert(value@[start - 1] == '/');
                        } else if from > start {
                            assert(value@[from - 1] == '/');
                        }
                    }
                }
                start = at + 1;
            }
            at += 1;
        }
        assert(is_part(value@, start as int, at as int));
        if !proper_part(&chars, start, at) {
            return Err(error);
        }
        assert forall|from: int, to: int| #[trigger] is_part(value@, from, to) implies is_proper_part(
            value@.subrange(from, to),
        ) by {
            if to >= start {
                if to < at {
                    assert(value@[to] == '/');
                }
                if from < start {
                    assert(value@[start - 1] == '/');
                } else if from > start {
                    assert(value@[from - 1] == '/');
                }
            }
        }
        Ok(RepoPath { value: text })
    }

    /// The text.
    pub fn as_str(&self) -> (text: &str)
        ensures
            text@ == self.deep_view(),
            is_repo_path(text@),
    {
        proof {
            use_type_invariant(self);
        }
        self.value.as_str()
    }
}

fn proper_part(chars: &Vec<char>, from: usize, to: usize) -> (proper: bool)
    requires
        from <= to <= chars.len(),
    ensures
        proper == is_proper_part(chars@.subrange(from as int, to as int)),
{
    let dot = to - from == 1 && chars[from] == '.';
    let dots = to - from == 2 && chars[from] == '.' && chars[from + 1] == '.';
    from < to && !dot && !dots
}

impl Record for RepoPath {
    fn copied(&self) -> (copy: Self) {
        proof {
            use_type_invariant(self);
        }
        RepoPath { value: self.value.clone() }
    }

    fn same(&self, other: &Self) -> (same: bool) {
        self.value == other.value
    }
}

impl Clone for RepoPath {
    fn clone(&self) -> (copy: Self)
        ensures
            copy.deep_view() == self.deep_view(),
    {
        self.copied()
    }
}

impl ToJson for RepoPath {
    open spec fn json(model: Seq<char>) -> Seq<char> {
        json_string(model)
    }

    fn to_json(&self) -> (text: String) {
        text_json(self.value.as_str())
    }
}

/// The namespace of a repository.
#[derive(Debug, PartialEq, Eq, PartialOrd, Ord, Hash)]
pub struct RepositoryNamespace {
    value: String,
}

impl DeepView for RepositoryNamespace {
    type V = Seq<char>;

    closed spec fn deep_view(&self) -> Seq<char> {
        self.value@
    }
}

impl RepositoryNamespace {
    #[verifier::type_invariant]
    spec fn bounded(self) -> bool {
        is_bounded_text(self.value@, MAX_IDENTITY_BYTES as nat, false)
    }

    /// The value with this text, where the text is within the bounds.
    pub fn new(value: &str) -> (result: Result<Self, MemoryValueError>)
        ensures
            is_bounded_text(value@, MAX_IDENTITY_BYTES as nat, false) ==> result is Ok
                && result->Ok_0.deep_view() == value@,
            !is_bounded_text(value@, MAX_IDENTITY_BYTES as nat, false) ==> result is Err
                && result->Err_0.describes("repository namespace"@, MAX_IDENTITY_BYTES),
    {
        match validate_bounded_text(value, "repository namespace", MAX_IDENTITY_BYTES, false) {
            Ok(value) => Ok(RepositoryNamespace { value }),
            Err(error) => Err(error),
        }
    }

    /// The text.
    pub fn as_str(&self) -> (text: &str)
        ensures
            text@ == self.deep_view(),
            is_bounded_text(text@, MAX_IDENTITY_BYTES as nat, false),
    {
        proof {
            use_type_invariant(self);
        }
        self.value.as_str()
    }
}

impl Record for RepositoryNamespace {
    fn copied(&self) -> (copy: Self) {
        proof {
            use_type_invariant(self);
        }
        RepositoryNamespace { value: self.value.clone() }
    }

    fn same(&self, other: &Self) -> (same: bool) {
        self.value == other.value
    }
}

impl Clone for RepositoryNamespace {
    fn clone(&self) -> (copy: Self)
        ensures
            copy.deep_view() == self.deep_view(),
    {
        self.copied()
    }
}

impl ToJson for RepositoryNamespace {
    open spec fn json(model: Seq<char>) -> Seq<char> {
        json_string(model)
    }

    fn to_json(&self) -> (text: String) {
        text_json(self.value.as_str())
    }
}

/// The identity of a repository in its namespace.
#[derive(Debug, PartialEq, Eq, PartialOrd, Ord, Hash)]
pub struct RepositoryId {
    value: String,
}

impl DeepView for RepositoryId {
    type V = Seq<char>;

    closed spec fn deep_view(&self) -> Seq<char> {
        self.value@
    }
}

impl RepositoryId {
    #[verifier::type_invariant]
    spec fn bounded(self) -> bool {
        is_bounded_text(self.value@, MAX_IDENTITY_BYTES as nat, false)
    }

    /// The value with this text, where the text is within the bounds.
    pub fn new(value: &str) -> (result: Result<Self, MemoryValueError>)
        ensures
            is_bounded_text(value@, MAX_IDENTITY_BYTES as nat, false) ==> result is Ok
                && result->Ok_0.deep_view() == value@,
            !is_bounded_text(value@, MAX_IDENTITY_BYTES as nat, false) ==> result is Err
                && result->Err_0.describes("repository id"@, MAX_IDENTITY_BYTES),
    {
        match validate_bounded_text(value, "repository id", MAX_IDENTITY_BYTES, false) {
            Ok(value) => Ok(RepositoryId { value }),
            Err(error) => Err(error),
        }
    }

    /// The text.
    pub fn as_str(&self) -> (text: &str)
        ensures
            text@ == self.deep_view(),
            is_bounded_text(text@, MAX_IDENTITY_BYTES as nat, false),
    {
        proof {
            use_type_invariant(self);
        }
        self.value.as_str()
    }
}

impl Record for RepositoryId {
    fn copied(&self) -> (copy: Self) {
        proof {
            use_type_invariant(self);
        }
        RepositoryId { value: self.value.clone() }
    }

    fn same(&self, other: &Self) -> (same: bool) {
        self.value == other.value
    }
}

impl Clone for RepositoryId {
    fn clone(&self) -> (copy: Self)
        ensures
            copy.deep_view() == self.deep_view(),
    {
        self.copied()
    }
}

impl ToJson for RepositoryId {
    open spec fn json(model: Seq<char>) -> Seq<char> {
        json_string(model)
    }

    fn to_json(&self) -> (text: String) {
        text_json(self.value.as_str())
    }
}

/// The identity of an immutable graph snapshot.
#[derive(Debug, PartialEq, Eq, PartialOrd, Ord, Hash)]
pub struct SnapshotId {
    value: String,
}

impl DeepView for SnapshotId {
    type V = Seq<char>;

    closed spec fn deep_view(&self) -> Seq<char> {
        self.value@
    }
}

impl SnapshotId {
    #[verifier::type_invariant]
    spec fn bounded(self) -> bool {
        is_bounded_text(self.value@, MAX_IDENTITY_BYTES as nat, false)
    }

    /// The value with this text, where the text is within the bounds.
    pub fn new(value: &str) -> (result: Result<Self, MemoryValueError>)
        ensures
            is_bounded_text(value@, MAX_IDENTITY_BYTES as nat, false) ==> result is Ok
                && result->Ok_0.deep_view() == value@,
            !is_bounded_text(value@, MAX_IDENTITY_BYTES as nat, false) ==> result is Err
                && result->Err_0.describes("snapshot id"@, MAX_IDENTITY_BYTES),
    {
        match validate_bounded_text(value, "snapshot id", MAX_IDENTITY_BYTES, false) {
            Ok(value) => Ok(SnapshotId { value }),
            Err(error) => Err(error),
        }
    }

    /// The text.
    pub fn as_str(&self) -> (text: &str)
        ensures
            text@ == self.deep_view(),
            is_bounded_text(text@, MAX_IDENTITY_BYTES as nat, false),
    {
        proof {
            use_type_invariant(self);
        }
        self.value.as_str()
    }
}

impl Record for SnapshotId {
    fn copied(&self) -> (copy: Self) {
        proof {
            use_type_invariant(self);
        }
        SnapshotId { value: self.value.clone() }
    }

    fn same(&self, other: &Self) -> (same: bool) {
        self.value == other.value
    }
}

impl Clone for SnapshotId {
    fn clone(&self) -> (copy: Self)
        ensures
            copy.deep_view() == self.deep_view(),
    {
        self.copied()
    }
}

impl ToJson for SnapshotId {
    open spec fn json(model: Seq<char>) -> Seq<char> {
        json_string(model)
    }

    fn to_json(&self) -> (text: String) {
        text_json(self.value.as_str())
    }
}

/// The identity of a graph node in its snapshot.
#[derive(Debug, PartialEq, Eq, PartialOrd, Ord, Hash)]
pub struct NodeId {
    value: String,
}

impl DeepView for NodeId {
    type V = Seq<char>;

    closed spec fn deep_view(&self) -> Seq<char> {
        self.value@
    }
}

impl NodeId {
    #[verifier::type_invariant]
    spec fn bounded(self) -> bool {
        is_bounded_text(self.value@, MAX_IDENTITY_BYTES as nat, false)
    }

    /// The value with this text, where the text is within the bounds.
    pub fn new(value: &str) -> (result: Result<Self, MemoryValueError>)
        ensures
            is_bounded_text(value@, MAX_IDENTITY_BYTES as nat, false) ==> result is Ok
                && result->Ok_0.deep_view() == value@,
            !is_bounded_text(value@, MAX_IDENTITY_BYTES as nat, false) ==> result is Err
                && result->Err_0.describes("node id"@, MAX_IDENTITY_BYTES),
    {
        match validate_bounded_text(value, "node id", MAX_IDENTITY_BYTES, false) {
            Ok(value) => Ok(NodeId { value }),
            Err(error) => Err(error),
        }
    }

    /// The text.
    pub fn as_str(&self) -> (text: &str)
        ensures
            text@ == self.deep_view(),
            is_bounded_text(text@, MAX_IDENTITY_BYTES as nat, false),
    {
        proof {
            use_type_invariant(self);
        }
        self.value.as_str()
    }
}

impl Record for NodeId {
    fn copied(&self) -> (copy: Self) {
        proof {
            use_type_invariant(self);
        }
        NodeId { value: self.value.clone() }
    }

    fn same(&self, other: &Self) -> (same: bool) {
        self.value == other.value
    }
}

impl Clone for NodeId {
    fn clone(&self) -> (copy: Self)
        ensures
            copy.deep_view() == self.deep_view(),
    {
        self.copied()
    }
}

impl ToJson for NodeId {
    open spec fn json(model: Seq<char>) -> Seq<char> {
        json_string(model)
    }

    fn to_json(&self) -> (text: String) {
        text_json(self.value.as_str())
    }
}

/// The portable name of a symbol.
#[derive(Debug, PartialEq, Eq, PartialOrd, Ord, Hash)]
pub struct SemanticKey {
    value: String,
}

impl DeepView for SemanticKey {
    type V = Seq<char>;

    closed spec fn deep_view(&self) -> Seq<char> {
        self.value@
    }
}

impl SemanticKey {
    #[verifier::type_invariant]
    spec fn bounded(self) -> bool {
        is_bounded_text(self.value@, MAX_IDENTITY_BYTES as nat, false)
    }

    /// The value with this text, where the text is within the bounds.
    pub fn new(value: &str) -> (result: Result<Self, MemoryValueError>)
        ensures
            is_bounded_text(value@, MAX_IDENTITY_BYTES as nat, false) ==> result is Ok
                && result->Ok_0.deep_view() == value@,
            !is_bounded_text(value@, MAX_IDENTITY_BYTES as nat, false) ==> result is Err
                && result->Err_0.describes("semantic key"@, MAX_IDENTITY_BYTES),
    {
        match validate_bounded_text(value, "semantic key", MAX_IDENTITY_BYTES, false) {
            Ok(value) => Ok(SemanticKey { value }),
            Err(error) => Err(error),
        }
    }

    /// The text.
    pub fn as_str(&self) -> (text: &str)
        ensures
            text@ == self.deep_view(),
            is_bounded_text(text@, MAX_IDENTITY_BYTES as nat, false),
    {
        proof {
            use_type_invariant(self);
        }
        self.value.as_str()
    }
}

impl Record for SemanticKey {
    fn copied(&self) -> (copy: Self) {
        proof {
            use_type_invariant(self);
        }
        SemanticKey { value: self.value.clone() }
    }

    fn same(&self, other: &Self) -> (same: bool) {
        self.value == other.value
    }
}

impl Clone for SemanticKey {
    fn clone(&self) -> (copy: Self)
        ensures
            copy.deep_view() == self.deep_view(),
    {
        self.copied()
    }
}

impl ToJson for SemanticKey {
    open spec fn json(model: Seq<char>) -> Seq<char> {
        json_string(model)
    }

    fn to_json(&self) -> (text: String) {
        text_json(self.value.as_str())
    }
}

/// The name of a published graph view.
#[derive(Debug, PartialEq, Eq, PartialOrd, Ord, Hash)]
pub struct PublishedViewName {
    value: String,
}

impl DeepView for PublishedViewName {
    type V = Seq<char>;

    closed spec fn deep_view(&self) -> Seq<char> {
        self.value@
    }
}

impl PublishedViewName {
    #[verifier::type_invariant]
    spec fn bounded(self) -> bool {
        is_bounded_text(self.value@, MAX_IDENTITY_BYTES as nat, false)
    }

    /// The value with this text, where the text is within the bounds.
    pub fn new(value: &str) -> (result: Result<Self, MemoryValueError>)
        ensures
            is_bounded_text(value@, MAX_IDENTITY_BYTES as nat, false) ==> result is Ok
                && result->Ok_0.deep_view() == value@,
            !is_bounded_text(value@, MAX_IDENTITY_BYTES as nat, false) ==> result is Err
                && result->Err_0.describes("published view name"@, MAX_IDENTITY_BYTES),
    {
        match validate_bounded_text(value, "published view name", MAX_IDENTITY_BYTES, false) {
            Ok(value) => Ok(PublishedViewName { value }),
            Err(error) => Err(error),
        }
    }

    /// The text.
    pub fn as_str(&self) -> (text: &str)
        ensures
            text@ == self.deep_view(),
            is_bounded_text(text@, MAX_IDENTITY_BYTES as nat, false),
    {
        proof {
            use_type_invariant(self);
        }
        self.value.as_str()
    }
}

impl Record for PublishedViewName {
    fn copied(&self) -> (copy: Self) {
        proof {
            use_type_invariant(self);
        }
        PublishedViewName { value: self.value.clone() }
    }

    fn same(&self, other: &Self) -> (same: bool) {
        self.value == other.value
    }
}

impl Clone for PublishedViewName {
    fn clone(&self) -> (copy: Self)
        ensures
            copy.deep_view() == self.deep_view(),
    {
        self.copied()
    }
}

impl ToJson for PublishedViewName {
    open spec fn json(model: Seq<char>) -> Seq<char> {
        json_string(model)
    }

    fn to_json(&self) -> (text: String) {
        text_json(self.value.as_str())
    }
}

/// The identity of a task's view of the repository.
#[derive(Debug, PartialEq, Eq, PartialOrd, Ord, Hash)]
pub struct TaskViewId {
    value: String,
}

impl DeepView for TaskViewId {
    type V = Seq<char>;

    closed spec fn deep_view(&self) -> Seq<char> {
        self.value@
    }
}

impl TaskViewId {
    #[verifier::type_invariant]
    spec fn bounded(self) -> bool {
        is_bounded_text(self.value@, MAX_IDENTITY_BYTES as nat, false)
    }

    /// The value with this text, where the text is within the bounds.
    pub fn new(value: &str) -> (result: Result<Self, MemoryValueError>)
        ensures
            is_bounded_text(value@, MAX_IDENTITY_BYTES as nat, false) ==> result is Ok
                && result->Ok_0.deep_view() == value@,
            !is_bounded_text(value@, MAX_IDENTITY_BYTES as nat, false) ==> result is Err
                && result->Err_0.describes("task view id"@, MAX_IDENTITY_BYTES),
    {
        match validate_bounded_text(value, "task view id", MAX_IDENTITY_BYTES, false) {
            Ok(value) => Ok(TaskViewId { value }),
            Err(error) => Err(error),
        }
    }

    /// The text.
    pub fn as_str(&self) -> (text: &str)
        ensures
            text@ == self.deep_view(),
            is_bounded_text(text@, MAX_IDENTITY_BYTES as nat, false),
    {
        proof {
            use_type_invariant(self);
        }
        self.value.as_str()
    }
}

impl Record for TaskViewId {
    fn copied(&self) -> (copy: Self) {
        proof {
            use_type_invariant(self);
        }
        TaskViewId { value: self.value.clone() }
    }

    fn same(&self, other: &Self) -> (same: bool) {
        self.value == other.value
    }
}

impl Clone for TaskViewId {
    fn clone(&self) -> (copy: Self)
        ensures
            copy.deep_view() == self.deep_view(),
    {
        self.copied()
    }
}

impl ToJson for TaskViewId {
    open spec fn json(model: Seq<char>) -> Seq<char> {
        json_string(model)
    }

    fn to_json(&self) -> (text: String) {
        text_json(self.value.as_str())
    }
}

/// The identity of a task's changes over a snapshot.
#[derive(Debug, PartialEq, Eq, PartialOrd, Ord, Hash)]
pub struct OverlayRevisionId {
    value: String,
}

impl DeepView for OverlayRevisionId {
    type V = Seq<char>;

    closed spec fn deep_view(&self) -> Seq<char> {
        self.value@
    }
}

impl OverlayRevisionId {
    #[verifier::type_invariant]
    spec fn bounded(self) -> bool {
        is_bounded_text(self.value@, MAX_IDENTITY_BYTES as nat, false)
    }

    /// The value with this text, where the text is within the bounds.
    pub fn new(value: &str) -> (result: Result<Self, MemoryValueError>)
        ensures
            is_bounded_text(value@, MAX_IDENTITY_BYTES as nat, false) ==> result is Ok
                && result->Ok_0.deep_view() == value@,
            !is_bounded_text(value@, MAX_IDENTITY_BYTES as nat, false) ==> result is Err
                && result->Err_0.describes("overlay revision id"@, MAX_IDENTITY_BYTES),
    {
        match validate_bounded_text(value, "overlay revision id", MAX_IDENTITY_BYTES, false) {
            Ok(value) => Ok(OverlayRevisionId { value }),
            Err(error) => Err(error),
        }
    }

    /// The text.
    pub fn as_str(&self) -> (text: &str)
        ensures
            text@ == self.deep_view(),
            is_bounded_text(text@, MAX_IDENTITY_BYTES as nat, false),
    {
        proof {
            use_type_invariant(self);
        }
        self.value.as_str()
    }
}

impl Record for OverlayRevisionId {
    fn copied(&self) -> (copy: Self) {
        proof {
            use_type_invariant(self);
        }
        OverlayRevisionId { value: self.value.clone() }
    }

    fn same(&self, other: &Self) -> (same: bool) {
        self.value == other.value
    }
}

impl Clone for OverlayRevisionId {
    fn clone(&self) -> (copy: Self)
        ensures
            copy.deep_view() == self.deep_view(),
    {
        self.copied()
    }
}

impl ToJson for OverlayRevisionId {
    open spec fn json(model: Seq<char>) -> Seq<char> {
        json_string(model)
    }

    fn to_json(&self) -> (text: String) {
        text_json(self.value.as_str())
    }
}

/// A repository.
#[derive(Debug, PartialEq, Eq)]
pub struct RepositoryRef {
    pub namespace: RepositoryNamespace,
    pub repository_id: RepositoryId,
}

/// The model of [`RepositoryRef`].
pub struct RepositoryRefView {
    pub namespace: Seq<char>,
    pub repository_id: Seq<char>,
}

impl DeepView for RepositoryRef {
    type V = RepositoryRefView;

    open spec fn deep_view(&self) -> RepositoryRefView {
        RepositoryRefView {
            namespace: self.namespace.deep_view(),
            repository_id: self.repository_id.deep_view(),
        }
    }
}

impl Record for RepositoryRef {
    fn copied(&self) -> (copy: Self) {
        RepositoryRef {
            namespace: self.namespace.copied(),
            repository_id: self.repository_id.copied(),
        }
    }

    fn same(&self, other: &Self) -> (same: bool) {
        self.namespace.same(&other.namespace)
            && self.repository_id.same(&other.repository_id)
    }
}

impl Clone for RepositoryRef {
    fn clone(&self) -> (copy: Self)
        ensures
            copy.deep_view() == self.deep_view(),
    {
        self.copied()
    }
}

impl RepositoryRefView {
    /// The members of the JSON object.
    pub open spec fn members(self) -> Seq<(Seq<char>, Seq<char>)> {
        seq![
            ("namespace"@, <RepositoryNamespace as ToJson>::json(self.namespace)),
            ("repository_id"@, <RepositoryId as ToJson>::json(self.repository_id)),
        ]
    }
}

impl ToJson for RepositoryRef {
    open spec fn json(model: RepositoryRefView) -> Seq<char> {
        json_object(model.members())
    }

    fn to_json(&self) -> (text: String) {
        let object = JsonObject::new()
            .member("namespace", self.namespace.to_json())
            .member("repository_id", self.repository_id.to_json());
        assert(object.members() =~= self.deep_view().members());
        object.finish()
    }
}

/// A place in a source text.
#[derive(Debug, PartialEq, Eq)]
pub struct SourcePosition {
    pub byte_offset: u64,
    pub line: Option<u32>,
    pub column: Option<u32>,
}

/// The model of [`SourcePosition`].
pub struct SourcePositionView {
    pub byte_offset: u64,
    pub line: Option<u32>,
    pub column: Option<u32>,
}

impl DeepView for SourcePosition {
    type V = SourcePositionView;

    open spec fn deep_view(&self) -> SourcePositionView {
        SourcePositionView {
            byte_offset: self.byte_offset.deep_view(),
            line: self.line.deep_view(),
            column: self.column.deep_view(),
        }
    }
}

impl Record for SourcePosition {
    fn copied(&self) -> (copy: Self) {
        SourcePosition {
            byte_offset: self.byte_offset.copied(),
            line: self.line.copied(),
            column: self.column.copied(),
        }
    }

    fn same(&self, other: &Self) -> (same: bool) {
        self.byte_offset.same(&other.byte_offset)
            && self.line.same(&other.line)
            && self.column.same(&other.column)
    }
}

impl Clone for SourcePosition {
    fn clone(&self) -> (copy: Self)
        ensures
            copy.deep_view() == self.deep_view(),
    {
        self.copied()
    }
}

impl SourcePositionView {
    /// The members of the JSON object.
    pub open spec fn members(self) -> Seq<(Seq<char>, Seq<char>)> {
        seq![
            ("byte_offset"@, <u64 as ToJson>::json(self.byte_offset)),
            ("line"@, <Option<u32> as ToJson>::json(self.line)),
            ("column"@, <Option<u32> as ToJson>::json(self.column)),
        ]
    }
}

impl ToJson for SourcePosition {
    open spec fn json(model: SourcePositionView) -> Seq<char> {
        json_object(model.members())
    }

    fn to_json(&self) -> (text: String) {
        let object = JsonObject::new()
            .member("byte_offset", self.byte_offset.to_json())
            .member("line", self.line.to_json())
            .member("column", self.column.to_json());
        assert(object.members() =~= self.deep_view().members());
        object.finish()
    }
}

/// A part of a source text.
#[derive(Debug, PartialEq, Eq)]
pub struct SourceSpan {
    pub start: SourcePosition,
    pub end: SourcePosition,
}

/// The model of [`SourceSpan`].
pub struct SourceSpanView {
    pub start: SourcePositionView,
    pub end: SourcePositionView,
}

impl DeepView for SourceSpan {
    type V = SourceSpanView;

    open spec fn deep_view(&self) -> SourceSpanView {
        SourceSpanView {
            start: self.start.deep_view(),
            end: self.end.deep_view(),
        }
    }
}

impl Record for SourceSpan {
    fn copied(&self) -> (copy: Self) {
        SourceSpan {
            start: self.start.copied(),
            end: self.end.copied(),
        }
    }

    fn same(&self, other: &Self) -> (same: bool) {
        self.start.same(&other.start)
            && self.end.same(&other.end)
    }
}

impl Clone for SourceSpan {
    fn clone(&self) -> (copy: Self)
        ensures
            copy.deep_view() == self.deep_view(),
    {
        self.copied()
    }
}

impl SourceSpanView {
    /// The members of the JSON object.
    pub open spec fn members(self) -> Seq<(Seq<char>, Seq<char>)> {
        seq![
            ("start"@, <SourcePosition as ToJson>::json(self.start)),
            ("end"@, <SourcePosition as ToJson>::json(self.end)),
        ]
    }
}

impl ToJson for SourceSpan {
    open spec fn json(model: SourceSpanView) -> Seq<char> {
        json_object(model.members())
    }

    fn to_json(&self) -> (text: String) {
        let object = JsonObject::new()
            .member("start", self.start.to_json())
            .member("end", self.end.to_json());
        assert(object.members() =~= self.deep_view().members());
        object.finish()
    }
}

/// The file that a graph fact was read from.
#[derive(Debug, PartialEq, Eq)]
pub struct FactEvidence {
    pub path: RepoPath,
    pub content_identity: Digest,
}

/// The model of [`FactEvidence`].
pub struct FactEvidenceView {
    pub path: Seq<char>,
    pub content_identity: DigestView,
}

impl DeepView for FactEvidence {
    type V = FactEvidenceView;

    open spec fn deep_view(&self) -> FactEvidenceView {
        FactEvidenceView {
            path: self.path.deep_view(),
            content_identity: self.content_identity.deep_view(),
        }
    }
}

impl Record for FactEvidence {
    fn copied(&self) -> (copy: Self) {
        FactEvidence {
            path: self.path.copied(),
            content_identity: self.content_identity.copied(),
        }
    }

    fn same(&self, other: &Self) -> (same: bool) {
        self.path.same(&other.path)
            && self.content_identity.same(&other.content_identity)
    }
}

impl Clone for FactEvidence {
    fn clone(&self) -> (copy: Self)
        ensures
            copy.deep_view() == self.deep_view(),
    {
        self.copied()
    }
}

impl FactEvidenceView {
    /// The members of the JSON object.
    pub open spec fn members(self) -> Seq<(Seq<char>, Seq<char>)> {
        seq![
            ("path"@, <RepoPath as ToJson>::json(self.path)),
            ("content_identity"@, <Digest as ToJson>::json(self.content_identity)),
        ]
    }
}

impl ToJson for FactEvidence {
    open spec fn json(model: FactEvidenceView) -> Seq<char> {
        json_object(model.members())
    }

    fn to_json(&self) -> (text: String) {
        let object = JsonObject::new()
            .member("path", self.path.to_json())
            .member("content_identity", self.content_identity.to_json());
        assert(object.members() =~= self.deep_view().members());
        object.finish()
    }
}

/// Where a graph fact comes from.
#[derive(Debug, PartialEq, Eq)]
pub struct FactProvenance {
    pub evidence: Option<FactEvidence>,
}

/// The model of [`FactProvenance`].
pub struct FactProvenanceView {
    pub evidence: Option<FactEvidenceView>,
}

impl DeepView for FactProvenance {
    type V = FactProvenanceView;

    open spec fn deep_view(&self) -> FactProvenanceView {
        FactProvenanceView {
            evidence: self.evidence.deep_view(),
        }
    }
}

impl Record for FactProvenance {
    fn copied(&self) -> (copy: Self) {
        FactProvenance {
            evidence: self.evidence.copied(),
        }
    }

    fn same(&self, other: &Self) -> (same: bool) {
        self.evidence.same(&other.evidence)
    }
}

impl Clone for FactProvenance {
    fn clone(&self) -> (copy: Self)
        ensures
            copy.deep_view() == self.deep_view(),
    {
        self.copied()
    }
}

impl FactProvenanceView {
    /// The members of the JSON object.
    pub open spec fn members(self) -> Seq<(Seq<char>, Seq<char>)> {
        seq![
            ("evidence"@, <Option<FactEvidence> as ToJson>::json(self.evidence)),
        ]
    }
}

impl ToJson for FactProvenance {
    open spec fn json(model: FactProvenanceView) -> Seq<char> {
        json_object(model.members())
    }

    fn to_json(&self) -> (text: String) {
        let object = JsonObject::new()
            .member("evidence", self.evidence.to_json());
        assert(object.members() =~= self.deep_view().members());
        object.finish()
    }
}

/// A node of a graph snapshot.
#[derive(Debug, PartialEq, Eq)]
pub struct GraphNode {
    pub snapshot_id: SnapshotId,
    pub id: NodeId,
    pub kind: String,
    pub semantic_key: Option<SemanticKey>,
    pub provenance: FactProvenance,
}

/// The model of [`GraphNode`].
pub struct GraphNodeView {
    pub snapshot_id: Seq<char>,
    pub id: Seq<char>,
    pub kind: Seq<char>,
    pub semantic_key: Option<Seq<char>>,
    pub provenance: FactProvenanceView,
}

impl DeepView for GraphNode {
    type V = GraphNodeView;

    open spec fn deep_view(&self) -> GraphNodeView {
        GraphNodeView {
            snapshot_id: self.snapshot_id.deep_view(),
            id: self.id.deep_view(),
            kind: self.kind.deep_view(),
            semantic_key: self.semantic_key.deep_view(),
            provenance: self.provenance.deep_view(),
        }
    }
}

impl Record for GraphNode {
    fn copied(&self) -> (copy: Self) {
        GraphNode {
            snapshot_id: self.snapshot_id.copied(),
            id: self.id.copied(),
            kind: self.kind.copied(),
            semantic_key: self.semantic_key.copied(),
            provenance: self.provenance.copied(),
        }
    }

    fn same(&self, other: &Self) -> (same: bool) {
        self.snapshot_id.same(&other.snapshot_id)
            && self.id.same(&other.id)
            && self.kind.same(&other.kind)
            && self.semantic_key.same(&other.semantic_key)
            && self.provenance.same(&other.provenance)
    }
}

impl Clone for GraphNode {
    fn clone(&self) -> (copy: Self)
        ensures
            copy.deep_view() == self.deep_view(),
    {
        self.copied()
    }
}

impl GraphNodeView {
    /// The members of the JSON object.
    pub open spec fn members(self) -> Seq<(Seq<char>, Seq<char>)> {
        seq![
            ("snapshot_id"@, <SnapshotId as ToJson>::json(self.snapshot_id)),
            ("id"@, <NodeId as ToJson>::json(self.id)),
            ("kind"@, <String as ToJson>::json(self.kind)),
            ("semantic_key"@, <Option<SemanticKey> as ToJson>::json(self.semantic_key)),
            ("provenance"@, <FactProvenance as ToJson>::json(self.provenance)),
        ]
    }
}

impl ToJson for GraphNode {
    open spec fn json(model: GraphNodeView) -> Seq<char> {
        json_object(model.members())
    }

    fn to_json(&self) -> (text: String) {
        let object = JsonObject::new()
            .member("snapshot_id", self.snapshot_id.to_json())
            .member("id", self.id.to_json())
            .member("kind", self.kind.to_json())
            .member("semantic_key", self.semantic_key.to_json())
            .member("provenance", self.provenance.to_json());
        assert(object.members() =~= self.deep_view().members());
        object.finish()
    }
}

/// Which way relationships are followed.
#[derive(Debug, Clone, Copy, PartialEq, Eq, PartialOrd, Ord, Hash, Structural)]
pub enum EdgeDirection {
    Outgoing,
    Incoming,
    Both,
}

impl DeepView for EdgeDirection {
    type V = EdgeDirection;

    open spec fn deep_view(&self) -> EdgeDirection {
        *self
    }
}

impl EdgeDirection {
    /// The name in stored and transmitted records.
    pub open spec fn name(self) -> Seq<char> {
        match self {
            EdgeDirection::Outgoing => "outgoing"@,
            EdgeDirection::Incoming => "incoming"@,
            EdgeDirection::Both => "both"@,
        }
    }

    /// The name in stored and transmitted records.
    pub fn as_str(self) -> (name: &'static str)
        ensures
            name@ == self.name(),
    {
        match self {
            EdgeDirection::Outgoing => "outgoing",
            EdgeDirection::Incoming => "incoming",
            EdgeDirection::Both => "both",
        }
    }
}

impl Record for EdgeDirection {
    fn copied(&self) -> (copy: Self) {
        *self
    }

    fn same(&self, other: &Self) -> (same: bool) {
        *self == *other
    }
}

impl ToJson for EdgeDirection {
    open spec fn json(model: EdgeDirection) -> Seq<char> {
        json_string(model.name())
    }

    fn to_json(&self) -> (text: String) {
        text_json(self.as_str())
    }
}

/// How repository context is gathered.
#[derive(Debug, PartialEq, Eq)]
pub struct ContextPolicy {
    pub direction: EdgeDirection,
    pub edge_kinds: Vec<String>,
    pub include_unresolved: bool,
    pub include_external: bool,
}

/// The model of [`ContextPolicy`].
pub struct ContextPolicyView {
    pub direction: EdgeDirection,
    pub edge_kinds: Seq<Seq<char>>,
    pub include_unresolved: bool,
    pub include_external: bool,
}

impl DeepView for ContextPolicy {
    type V = ContextPolicyView;

    open spec fn deep_view(&self) -> ContextPolicyView {
        ContextPolicyView {
            direction: self.direction.deep_view(),
            edge_kinds: self.edge_kinds.deep_view(),
            include_unresolved: self.include_unresolved.deep_view(),
            include_external: self.include_external.deep_view(),
        }
    }
}

impl Record for ContextPolicy {
    fn copied(&self) -> (copy: Self) {
        ContextPolicy {
            direction: self.direction.copied(),
            edge_kinds: self.edge_kinds.copied(),
            include_unresolved: self.include_unresolved.copied(),
            include_external: self.include_external.copied(),
        }
    }

    fn same(&self, other: &Self) -> (same: bool) {
        self.direction.same(&other.direction)
            && self.edge_kinds.same(&other.edge_kinds)
            && self.include_unresolved.same(&other.include_unresolved)
            && self.include_external.same(&other.include_external)
    }
}

impl Clone for ContextPolicy {
    fn clone(&self) -> (copy: Self)
        ensures
            copy.deep_view() == self.deep_view(),
    {
        self.copied()
    }
}

impl ContextPolicyView {
    /// The members of the JSON object.
    pub open spec fn members(self) -> Seq<(Seq<char>, Seq<char>)> {
        seq![
            ("direction"@, <EdgeDirection as ToJson>::json(self.direction)),
            ("edge_kinds"@, <Vec<String> as ToJson>::json(self.edge_kinds)),
            ("include_unresolved"@, <bool as ToJson>::json(self.include_unresolved)),
            ("include_external"@, <bool as ToJson>::json(self.include_external)),
        ]
    }
}

impl ToJson for ContextPolicy {
    open spec fn json(model: ContextPolicyView) -> Seq<char> {
        json_object(model.members())
    }

    fn to_json(&self) -> (text: String) {
        let object = JsonObject::new()
            .member("direction", self.direction.to_json())
            .member("edge_kinds", self.edge_kinds.to_json())
            .member("include_unresolved", self.include_unresolved.to_json())
            .member("include_external", self.include_external.to_json());
        assert(object.members() =~= self.deep_view().members());
        object.finish()
    }
}

/// Where repository context starts.
#[derive(Debug, PartialEq, Eq)]
#[allow(inconsistent_fields)]
pub enum ContextSeed {
    Node(NodeId),
    Path(RepoPath),
    Symbol(SemanticKey),
}

/// The model of [`ContextSeed`].
#[allow(inconsistent_fields)]
pub enum ContextSeedView {
    Node(Seq<char>),
    Path(Seq<char>),
    Symbol(Seq<char>),
}

impl DeepView for ContextSeed {
    type V = ContextSeedView;

    open spec fn deep_view(&self) -> ContextSeedView {
        match self {
            ContextSeed::Node(value) => ContextSeedView::Node(value.deep_view()),
            ContextSeed::Path(value) => ContextSeedView::Path(value.deep_view()),
            ContextSeed::Symbol(value) => ContextSeedView::Symbol(value.deep_view()),
        }
    }
}

impl Record for ContextSeed {
    fn copied(&self) -> (copy: Self) {
        match self {
            ContextSeed::Node(value) => ContextSeed::Node(value.copied()),
            ContextSeed::Path(value) => ContextSeed::Path(value.copied()),
            ContextSeed::Symbol(value) => ContextSeed::Symbol(value.copied()),
        }
    }

    fn same(&self, other: &Self) -> (same: bool) {
        match self {
            ContextSeed::Node(left) => match other {
                ContextSeed::Node(right) => left.same(right),
                _ => false,
            },
            ContextSeed::Path(left) => match other {
                ContextSeed::Path(right) => left.same(right),
                _ => false,
            },
            ContextSeed::Symbol(left) => match other {
                ContextSeed::Symbol(right) => left.same(right),
                _ => false,
            },
        }
    }
}

impl Clone for ContextSeed {
    fn clone(&self) -> (copy: Self)
        ensures
            copy.deep_view() == self.deep_view(),
    {
        self.copied()
    }
}

impl ContextSeedView {
    /// The members of the JSON object.
    pub open spec fn members(self) -> Seq<(Seq<char>, Seq<char>)> {
        match self {
            ContextSeedView::Node(value) => seq![
                ("type"@, json_string("node"@)),
                ("value"@, <NodeId as ToJson>::json(value)),
            ],
            ContextSeedView::Path(value) => seq![
                ("type"@, json_string("path"@)),
                ("value"@, <RepoPath as ToJson>::json(value)),
            ],
            ContextSeedView::Symbol(value) => seq![
                ("type"@, json_string("symbol"@)),
                ("value"@, <SemanticKey as ToJson>::json(value)),
            ],
        }
    }
}

impl ToJson for ContextSeed {
    open spec fn json(model: ContextSeedView) -> Seq<char> {
        json_object(model.members())
    }

    fn to_json(&self) -> (text: String) {
        let object = match self {
            ContextSeed::Node(value) => JsonObject::new()
                .member("type", text_json("node"))
                .member("value", value.to_json()),
            ContextSeed::Path(value) => JsonObject::new()
                .member("type", text_json("path"))
                .member("value", value.to_json()),
            ContextSeed::Symbol(value) => JsonObject::new()
                .member("type", text_json("symbol"))
                .member("value", value.to_json()),
        };
        assert(object.members() =~= self.deep_view().members());
        object.finish()
    }
}

/// Which snapshot a query reads.
#[derive(Debug, PartialEq, Eq)]
#[allow(inconsistent_fields)]
pub enum SnapshotSelector {
    Published(PublishedViewName),
    Snapshot(SnapshotId),
}

/// The model of [`SnapshotSelector`].
#[allow(inconsistent_fields)]
pub enum SnapshotSelectorView {
    Published(Seq<char>),
    Snapshot(Seq<char>),
}

impl DeepView for SnapshotSelector {
    type V = SnapshotSelectorView;

    open spec fn deep_view(&self) -> SnapshotSelectorView {
        match self {
            SnapshotSelector::Published(value) => {
                SnapshotSelectorView::Published(value.deep_view())
            },
            SnapshotSelector::Snapshot(value) => SnapshotSelectorView::Snapshot(value.deep_view()),
        }
    }
}

impl Record for SnapshotSelector {
    fn copied(&self) -> (copy: Self) {
        match self {
            SnapshotSelector::Published(value) => SnapshotSelector::Published(value.copied()),
            SnapshotSelector::Snapshot(value) => SnapshotSelector::Snapshot(value.copied()),
        }
    }

    fn same(&self, other: &Self) -> (same: bool) {
        match self {
            SnapshotSelector::Published(left) => match other {
                SnapshotSelector::Published(right) => left.same(right),
                _ => false,
            },
            SnapshotSelector::Snapshot(left) => match other {
                SnapshotSelector::Snapshot(right) => left.same(right),
                _ => false,
            },
        }
    }
}

impl Clone for SnapshotSelector {
    fn clone(&self) -> (copy: Self)
        ensures
            copy.deep_view() == self.deep_view(),
    {
        self.copied()
    }
}

impl SnapshotSelectorView {
    /// The members of the JSON object.
    pub open spec fn members(self) -> Seq<(Seq<char>, Seq<char>)> {
        match self {
            SnapshotSelectorView::Published(value) => seq![
                ("type"@, json_string("published"@)),
                ("value"@, <PublishedViewName as ToJson>::json(value)),
            ],
            SnapshotSelectorView::Snapshot(value) => seq![
                ("type"@, json_string("snapshot"@)),
                ("value"@, <SnapshotId as ToJson>::json(value)),
            ],
        }
    }
}

impl ToJson for SnapshotSelector {
    open spec fn json(model: SnapshotSelectorView) -> Seq<char> {
        json_object(model.members())
    }

    fn to_json(&self) -> (text: String) {
        let object = match self {
            SnapshotSelector::Published(value) => JsonObject::new()
                .member("type", text_json("published"))
                .member("value", value.to_json()),
            SnapshotSelector::Snapshot(value) => JsonObject::new()
                .member("type", text_json("snapshot"))
                .member("value", value.to_json()),
        };
        assert(object.members() =~= self.deep_view().members());
        object.finish()
    }
}

/// Why a repository item was selected.
#[derive(Debug, Clone, Copy, PartialEq, Eq, PartialOrd, Ord, Hash, Structural)]
pub enum ContextSelectionKind {
    ExactSeed,
    Relationship,
}

impl DeepView for ContextSelectionKind {
    type V = ContextSelectionKind;

    open spec fn deep_view(&self) -> ContextSelectionKind {
        *self
    }
}

impl ContextSelectionKind {
    /// The name in stored and transmitted records.
    pub open spec fn name(self) -> Seq<char> {
        match self {
            ContextSelectionKind::ExactSeed => "exact_seed"@,
            ContextSelectionKind::Relationship => "relationship"@,
        }
    }

    /// The name in stored and transmitted records.
    pub fn as_str(self) -> (name: &'static str)
        ensures
            name@ == self.name(),
    {
        match self {
            ContextSelectionKind::ExactSeed => "exact_seed",
            ContextSelectionKind::Relationship => "relationship",
        }
    }
}

impl Record for ContextSelectionKind {
    fn copied(&self) -> (copy: Self) {
        *self
    }

    fn same(&self, other: &Self) -> (same: bool) {
        *self == *other
    }
}

impl ToJson for ContextSelectionKind {
    open spec fn json(model: ContextSelectionKind) -> Seq<char> {
        json_string(model.name())
    }

    fn to_json(&self) -> (text: String) {
        text_json(self.as_str())
    }
}

/// Why a repository item was selected, and through what.
#[derive(Debug, PartialEq, Eq)]
pub struct ContextSelectionReason {
    pub kind: ContextSelectionKind,
    pub via_node: Option<NodeId>,
    pub via_edge: Option<String>,
}

/// The model of [`ContextSelectionReason`].
pub struct ContextSelectionReasonView {
    pub kind: ContextSelectionKind,
    pub via_node: Option<Seq<char>>,
    pub via_edge: Option<Seq<char>>,
}

impl DeepView for ContextSelectionReason {
    type V = ContextSelectionReasonView;

    open spec fn deep_view(&self) -> ContextSelectionReasonView {
        ContextSelectionReasonView {
            kind: self.kind.deep_view(),
            via_node: self.via_node.deep_view(),
            via_edge: self.via_edge.deep_view(),
        }
    }
}

impl Record for ContextSelectionReason {
    fn copied(&self) -> (copy: Self) {
        ContextSelectionReason {
            kind: self.kind.copied(),
            via_node: self.via_node.copied(),
            via_edge: self.via_edge.copied(),
        }
    }

    fn same(&self, other: &Self) -> (same: bool) {
        self.kind.same(&other.kind)
            && self.via_node.same(&other.via_node)
            && self.via_edge.same(&other.via_edge)
    }
}

impl Clone for ContextSelectionReason {
    fn clone(&self) -> (copy: Self)
        ensures
            copy.deep_view() == self.deep_view(),
    {
        self.copied()
    }
}

impl ContextSelectionReasonView {
    /// The members of the JSON object.
    pub open spec fn members(self) -> Seq<(Seq<char>, Seq<char>)> {
        seq![
            ("kind"@, <ContextSelectionKind as ToJson>::json(self.kind)),
            ("via_node"@, <Option<NodeId> as ToJson>::json(self.via_node)),
            ("via_edge"@, <Option<String> as ToJson>::json(self.via_edge)),
        ]
    }
}

impl ToJson for ContextSelectionReason {
    open spec fn json(model: ContextSelectionReasonView) -> Seq<char> {
        json_object(model.members())
    }

    fn to_json(&self) -> (text: String) {
        let object = JsonObject::new()
            .member("kind", self.kind.to_json())
            .member("via_node", self.via_node.to_json())
            .member("via_edge", self.via_edge.to_json());
        assert(object.members() =~= self.deep_view().members());
        object.finish()
    }
}

/// A repository node of a context.
#[derive(Debug, PartialEq, Eq)]
pub struct ContextItem {
    pub node_id: NodeId,
    pub path: RepoPath,
    pub semantic_key: Option<SemanticKey>,
    pub selection_reasons: Vec<ContextSelectionReason>,
}

/// The model of [`ContextItem`].
pub struct ContextItemView {
    pub node_id: Seq<char>,
    pub path: Seq<char>,
    pub semantic_key: Option<Seq<char>>,
    pub selection_reasons: Seq<ContextSelectionReasonView>,
}

impl DeepView for ContextItem {
    type V = ContextItemView;

    open spec fn deep_view(&self) -> ContextItemView {
        ContextItemView {
            node_id: self.node_id.deep_view(),
            path: self.path.deep_view(),
            semantic_key: self.semantic_key.deep_view(),
            selection_reasons: self.selection_reasons.deep_view(),
        }
    }
}

impl Record for ContextItem {
    fn copied(&self) -> (copy: Self) {
        ContextItem {
            node_id: self.node_id.copied(),
            path: self.path.copied(),
            semantic_key: self.semantic_key.copied(),
            selection_reasons: self.selection_reasons.copied(),
        }
    }

    fn same(&self, other: &Self) -> (same: bool) {
        self.node_id.same(&other.node_id)
            && self.path.same(&other.path)
            && self.semantic_key.same(&other.semantic_key)
            && self.selection_reasons.same(&other.selection_reasons)
    }
}

impl Clone for ContextItem {
    fn clone(&self) -> (copy: Self)
        ensures
            copy.deep_view() == self.deep_view(),
    {
        self.copied()
    }
}

impl ContextItemView {
    /// The members of the JSON object.
    pub open spec fn members(self) -> Seq<(Seq<char>, Seq<char>)> {
        seq![
            ("node_id"@, <NodeId as ToJson>::json(self.node_id)),
            ("path"@, <RepoPath as ToJson>::json(self.path)),
            ("semantic_key"@, <Option<SemanticKey> as ToJson>::json(self.semantic_key)),
            ("selection_reasons"@, <Vec<ContextSelectionReason> as ToJson>::json(self.selection_reasons)),
        ]
    }
}

impl ToJson for ContextItem {
    open spec fn json(model: ContextItemView) -> Seq<char> {
        json_object(model.members())
    }

    fn to_json(&self) -> (text: String) {
        let object = JsonObject::new()
            .member("node_id", self.node_id.to_json())
            .member("path", self.path.to_json())
            .member("semantic_key", self.semantic_key.to_json())
            .member("selection_reasons", self.selection_reasons.to_json());
        assert(object.members() =~= self.deep_view().members());
        object.finish()
    }
}

/// A piece of repository source.
#[derive(Debug, PartialEq, Eq)]
pub struct ContextSnippet {
    pub path: RepoPath,
    pub span: Option<SourceSpan>,
    pub text: String,
}

/// The model of [`ContextSnippet`].
pub struct ContextSnippetView {
    pub path: Seq<char>,
    pub span: Option<SourceSpanView>,
    pub text: Seq<char>,
}

impl DeepView for ContextSnippet {
    type V = ContextSnippetView;

    open spec fn deep_view(&self) -> ContextSnippetView {
        ContextSnippetView {
            path: self.path.deep_view(),
            span: self.span.deep_view(),
            text: self.text.deep_view(),
        }
    }
}

impl Record for ContextSnippet {
    fn copied(&self) -> (copy: Self) {
        ContextSnippet {
            path: self.path.copied(),
            span: self.span.copied(),
            text: self.text.copied(),
        }
    }

    fn same(&self, other: &Self) -> (same: bool) {
        self.path.same(&other.path)
            && self.span.same(&other.span)
            && self.text.same(&other.text)
    }
}

impl Clone for ContextSnippet {
    fn clone(&self) -> (copy: Self)
        ensures
            copy.deep_view() == self.deep_view(),
    {
        self.copied()
    }
}

impl ContextSnippetView {
    /// The members of the JSON object.
    pub open spec fn members(self) -> Seq<(Seq<char>, Seq<char>)> {
        seq![
            ("path"@, <RepoPath as ToJson>::json(self.path)),
            ("span"@, <Option<SourceSpan> as ToJson>::json(self.span)),
            ("text"@, <String as ToJson>::json(self.text)),
        ]
    }
}

impl ToJson for ContextSnippet {
    open spec fn json(model: ContextSnippetView) -> Seq<char> {
        json_object(model.members())
    }

    fn to_json(&self) -> (text: String) {
        let object = JsonObject::new()
            .member("path", self.path.to_json())
            .member("span", self.span.to_json())
            .member("text", self.text.to_json());
        assert(object.members() =~= self.deep_view().members());
        object.finish()
    }
}

/// A relevance score: the number that orders it, and how it is written.
/// A greater `rank` is a greater score.
#[derive(Debug, PartialEq, Eq)]
pub struct Score {
    pub rank: u64,
    pub text: String,
}

/// The model of [`Score`].
pub struct ScoreView {
    pub rank: u64,
    pub text: Seq<char>,
}

impl DeepView for Score {
    type V = ScoreView;

    open spec fn deep_view(&self) -> ScoreView {
        ScoreView {
            rank: self.rank.deep_view(),
            text: self.text.deep_view(),
        }
    }
}

impl Record for Score {
    fn copied(&self) -> (copy: Self) {
        Score {
            rank: self.rank.copied(),
            text: self.text.copied(),
        }
    }

    fn same(&self, other: &Self) -> (same: bool) {
        self.rank.same(&other.rank)
            && self.text.same(&other.text)
    }
}

impl Clone for Score {
    fn clone(&self) -> (copy: Self)
        ensures
            copy.deep_view() == self.deep_view(),
    {
        self.copied()
    }
}

impl ToJson for Score {
    open spec fn json(model: ScoreView) -> Seq<char> {
        model.text
    }

    fn to_json(&self) -> (text: String) {
        self.text.clone()
    }
}

/// A repository node that a search found.
#[derive(Debug, PartialEq, Eq)]
pub struct SearchHit {
    pub node_id: NodeId,
    pub path: RepoPath,
    pub score: Score,
}

/// The model of [`SearchHit`].
pub struct SearchHitView {
    pub node_id: Seq<char>,
    pub path: Seq<char>,
    pub score: ScoreView,
}

impl DeepView for SearchHit {
    type V = SearchHitView;

    open spec fn deep_view(&self) -> SearchHitView {
        SearchHitView {
            node_id: self.node_id.deep_view(),
            path: self.path.deep_view(),
            score: self.score.deep_view(),
        }
    }
}

impl Record for SearchHit {
    fn copied(&self) -> (copy: Self) {
        SearchHit {
            node_id: self.node_id.copied(),
            path: self.path.copied(),
            score: self.score.copied(),
        }
    }

    fn same(&self, other: &Self) -> (same: bool) {
        self.node_id.same(&other.node_id)
            && self.path.same(&other.path)
            && self.score.same(&other.score)
    }
}

impl Clone for SearchHit {
    fn clone(&self) -> (copy: Self)
        ensures
            copy.deep_view() == self.deep_view(),
    {
        self.copied()
    }
}

impl SearchHitView {
    /// The members of the JSON object.
    pub open spec fn members(self) -> Seq<(Seq<char>, Seq<char>)> {
        seq![
            ("node_id"@, <NodeId as ToJson>::json(self.node_id)),
            ("path"@, <RepoPath as ToJson>::json(self.path)),
            ("score"@, <Score as ToJson>::json(self.score)),
        ]
    }
}

impl ToJson for SearchHit {
    open spec fn json(model: SearchHitView) -> Seq<char> {
        json_object(model.members())
    }

    fn to_json(&self) -> (text: String) {
        let object = JsonObject::new()
            .member("node_id", self.node_id.to_json())
            .member("path", self.path.to_json())
            .member("score", self.score.to_json());
        assert(object.members() =~= self.deep_view().members());
        object.finish()
    }
}

/// Why a repository answer is not complete.
#[derive(Debug, Clone, Copy, PartialEq, Eq, PartialOrd, Ord, Hash, Structural)]
pub enum TruncationReason {
    Results,
    Bytes,
    Depth,
    Duration,
    Capability,
}

impl DeepView for TruncationReason {
    type V = TruncationReason;

    open spec fn deep_view(&self) -> TruncationReason {
        *self
    }
}

impl TruncationReason {
    /// The name in stored and transmitted records.
    pub open spec fn name(self) -> Seq<char> {
        match self {
            TruncationReason::Results => "results"@,
            TruncationReason::Bytes => "bytes"@,
            TruncationReason::Depth => "depth"@,
            TruncationReason::Duration => "duration"@,
            TruncationReason::Capability => "capability"@,
        }
    }

    /// The name in stored and transmitted records.
    pub fn as_str(self) -> (name: &'static str)
        ensures
            name@ == self.name(),
    {
        match self {
            TruncationReason::Results => "results",
            TruncationReason::Bytes => "bytes",
            TruncationReason::Depth => "depth",
            TruncationReason::Duration => "duration",
            TruncationReason::Capability => "capability",
        }
    }
}

impl Record for TruncationReason {
    fn copied(&self) -> (copy: Self) {
        *self
    }

    fn same(&self, other: &Self) -> (same: bool) {
        *self == *other
    }
}

impl ToJson for TruncationReason {
    open spec fn json(model: TruncationReason) -> Seq<char> {
        json_string(model.name())
    }

    fn to_json(&self) -> (text: String) {
        text_json(self.as_str())
    }
}

/// How a repository answer was cut short.
#[derive(Debug, PartialEq, Eq)]
pub struct Truncation {
    pub reason: TruncationReason,
    pub returned_results: u32,
    pub returned_bytes: u64,
    pub explored_depth: u32,
}

/// The model of [`Truncation`].
pub struct TruncationView {
    pub reason: TruncationReason,
    pub returned_results: u32,
    pub returned_bytes: u64,
    pub explored_depth: u32,
}

impl DeepView for Truncation {
    type V = TruncationView;

    open spec fn deep_view(&self) -> TruncationView {
        TruncationView {
            reason: self.reason.deep_view(),
            returned_results: self.returned_results.deep_view(),
            returned_bytes: self.returned_bytes.deep_view(),
            explored_depth: self.explored_depth.deep_view(),
        }
    }
}

impl Record for Truncation {
    fn copied(&self) -> (copy: Self) {
        Truncation {
            reason: self.reason.copied(),
            returned_results: self.returned_results.copied(),
            returned_bytes: self.returned_bytes.copied(),
            explored_depth: self.explored_depth.copied(),
        }
    }

    fn same(&self, other: &Self) -> (same: bool) {
        self.reason.same(&other.reason)
            && self.returned_results.same(&other.returned_results)
            && self.returned_bytes.same(&other.returned_bytes)
            && self.explored_depth.same(&other.explored_depth)
    }
}

impl Clone for Truncation {
    fn clone(&self) -> (copy: Self)
        ensures
            copy.deep_view() == self.deep_view(),
    {
        self.copied()
    }
}

impl TruncationView {
    /// The members of the JSON object.
    pub open spec fn members(self) -> Seq<(Seq<char>, Seq<char>)> {
        seq![
            ("reason"@, <TruncationReason as ToJson>::json(self.reason)),
            ("returned_results"@, <u32 as ToJson>::json(self.returned_results)),
            ("returned_bytes"@, <u64 as ToJson>::json(self.returned_bytes)),
            ("explored_depth"@, <u32 as ToJson>::json(self.explored_depth)),
        ]
    }
}

impl ToJson for Truncation {
    open spec fn json(model: TruncationView) -> Seq<char> {
        json_object(model.members())
    }

    fn to_json(&self) -> (text: String) {
        let object = JsonObject::new()
            .member("reason", self.reason.to_json())
            .member("returned_results", self.returned_results.to_json())
            .member("returned_bytes", self.returned_bytes.to_json())
            .member("explored_depth", self.explored_depth.to_json());
        assert(object.members() =~= self.deep_view().members());
        object.finish()
    }
}

/// Where a repository answer continues.
#[derive(Debug, PartialEq, Eq)]
pub struct PageInfo {
    pub next_cursor: Option<String>,
    pub truncation: Option<Truncation>,
}

/// The model of [`PageInfo`].
pub struct PageInfoView {
    pub next_cursor: Option<Seq<char>>,
    pub truncation: Option<TruncationView>,
}

impl DeepView for PageInfo {
    type V = PageInfoView;

    open spec fn deep_view(&self) -> PageInfoView {
        PageInfoView {
            next_cursor: self.next_cursor.deep_view(),
            truncation: self.truncation.deep_view(),
        }
    }
}

impl Record for PageInfo {
    fn copied(&self) -> (copy: Self) {
        PageInfo {
            next_cursor: self.next_cursor.copied(),
            truncation: self.truncation.copied(),
        }
    }

    fn same(&self, other: &Self) -> (same: bool) {
        self.next_cursor.same(&other.next_cursor)
            && self.truncation.same(&other.truncation)
    }
}

impl Clone for PageInfo {
    fn clone(&self) -> (copy: Self)
        ensures
            copy.deep_view() == self.deep_view(),
    {
        self.copied()
    }
}

impl PageInfoView {
    /// The members of the JSON object.
    pub open spec fn members(self) -> Seq<(Seq<char>, Seq<char>)> {
        seq![
            ("next_cursor"@, <Option<String> as ToJson>::json(self.next_cursor)),
            ("truncation"@, <Option<Truncation> as ToJson>::json(self.truncation)),
        ]
    }
}

impl ToJson for PageInfo {
    open spec fn json(model: PageInfoView) -> Seq<char> {
        json_object(model.members())
    }

    fn to_json(&self) -> (text: String) {
        let object = JsonObject::new()
            .member("next_cursor", self.next_cursor.to_json())
            .member("truncation", self.truncation.to_json());
        assert(object.members() =~= self.deep_view().members());
        object.finish()
    }
}

/// Whether a snapshot still describes the repository.
#[derive(Debug, Clone, Copy, PartialEq, Eq, PartialOrd, Ord, Hash, Structural)]
pub enum Freshness {
    Fresh,
    Stale,
    Unknown,
}

impl DeepView for Freshness {
    type V = Freshness;

    open spec fn deep_view(&self) -> Freshness {
        *self
    }
}

impl Freshness {
    /// The name in stored and transmitted records.
    pub open spec fn name(self) -> Seq<char> {
        match self {
            Freshness::Fresh => "fresh"@,
            Freshness::Stale => "stale"@,
            Freshness::Unknown => "unknown"@,
        }
    }

    /// The name in stored and transmitted records.
    pub fn as_str(self) -> (name: &'static str)
        ensures
            name@ == self.name(),
    {
        match self {
            Freshness::Fresh => "fresh",
            Freshness::Stale => "stale",
            Freshness::Unknown => "unknown",
        }
    }
}

impl Record for Freshness {
    fn copied(&self) -> (copy: Self) {
        *self
    }

    fn same(&self, other: &Self) -> (same: bool) {
        *self == *other
    }
}

impl ToJson for Freshness {
    open spec fn json(model: Freshness) -> Seq<char> {
        json_string(model.name())
    }

    fn to_json(&self) -> (text: String) {
        text_json(self.as_str())
    }
}

/// How fresh a snapshot is.
#[derive(Debug, PartialEq, Eq)]
pub struct FreshnessEnvelope {
    pub freshness: Freshness,
}

/// The model of [`FreshnessEnvelope`].
pub struct FreshnessEnvelopeView {
    pub freshness: Freshness,
}

impl DeepView for FreshnessEnvelope {
    type V = FreshnessEnvelopeView;

    open spec fn deep_view(&self) -> FreshnessEnvelopeView {
        FreshnessEnvelopeView {
            freshness: self.freshness.deep_view(),
        }
    }
}

impl Record for FreshnessEnvelope {
    fn copied(&self) -> (copy: Self) {
        FreshnessEnvelope {
            freshness: self.freshness.copied(),
        }
    }

    fn same(&self, other: &Self) -> (same: bool) {
        self.freshness.same(&other.freshness)
    }
}

impl Clone for FreshnessEnvelope {
    fn clone(&self) -> (copy: Self)
        ensures
            copy.deep_view() == self.deep_view(),
    {
        self.copied()
    }
}

impl FreshnessEnvelopeView {
    /// The members of the JSON object.
    pub open spec fn members(self) -> Seq<(Seq<char>, Seq<char>)> {
        seq![
            ("freshness"@, <Freshness as ToJson>::json(self.freshness)),
        ]
    }
}

impl ToJson for FreshnessEnvelope {
    open spec fn json(model: FreshnessEnvelopeView) -> Seq<char> {
        json_object(model.members())
    }

    fn to_json(&self) -> (text: String) {
        let object = JsonObject::new()
            .member("freshness", self.freshness.to_json());
        assert(object.members() =~= self.deep_view().members());
        object.finish()
    }
}

/// What a repository query noticed.
#[derive(Debug, PartialEq, Eq)]
pub struct DiagnosticsEnvelope {
    pub codes: Vec<String>,
}

/// The model of [`DiagnosticsEnvelope`].
pub struct DiagnosticsEnvelopeView {
    pub codes: Seq<Seq<char>>,
}

impl DeepView for DiagnosticsEnvelope {
    type V = DiagnosticsEnvelopeView;

    open spec fn deep_view(&self) -> DiagnosticsEnvelopeView {
        DiagnosticsEnvelopeView {
            codes: self.codes.deep_view(),
        }
    }
}

impl Record for DiagnosticsEnvelope {
    fn copied(&self) -> (copy: Self) {
        DiagnosticsEnvelope {
            codes: self.codes.copied(),
        }
    }

    fn same(&self, other: &Self) -> (same: bool) {
        self.codes.same(&other.codes)
    }
}

impl Clone for DiagnosticsEnvelope {
    fn clone(&self) -> (copy: Self)
        ensures
            copy.deep_view() == self.deep_view(),
    {
        self.copied()
    }
}

impl DiagnosticsEnvelopeView {
    /// The members of the JSON object.
    pub open spec fn members(self) -> Seq<(Seq<char>, Seq<char>)> {
        seq![
            ("codes"@, <Vec<String> as ToJson>::json(self.codes)),
        ]
    }
}

impl ToJson for DiagnosticsEnvelope {
    open spec fn json(model: DiagnosticsEnvelopeView) -> Seq<char> {
        json_object(model.members())
    }

    fn to_json(&self) -> (text: String) {
        let object = JsonObject::new()
            .member("codes", self.codes.to_json());
        assert(object.members() =~= self.deep_view().members());
        object.finish()
    }
}

/// The task view that a repository query read.
#[derive(Debug, PartialEq, Eq)]
pub struct TaskViewEnvelope {
    pub task_view_id: TaskViewId,
    pub overlay_revision_id: Option<OverlayRevisionId>,
}

/// The model of [`TaskViewEnvelope`].
pub struct TaskViewEnvelopeView {
    pub task_view_id: Seq<char>,
    pub overlay_revision_id: Option<Seq<char>>,
}

impl DeepView for TaskViewEnvelope {
    type V = TaskViewEnvelopeView;

    open spec fn deep_view(&self) -> TaskViewEnvelopeView {
        TaskViewEnvelopeView {
            task_view_id: self.task_view_id.deep_view(),
            overlay_revision_id: self.overlay_revision_id.deep_view(),
        }
    }
}

impl Record for TaskViewEnvelope {
    fn copied(&self) -> (copy: Self) {
        TaskViewEnvelope {
            task_view_id: self.task_view_id.copied(),
            overlay_revision_id: self.overlay_revision_id.copied(),
        }
    }

    fn same(&self, other: &Self) -> (same: bool) {
        self.task_view_id.same(&other.task_view_id)
            && self.overlay_revision_id.same(&other.overlay_revision_id)
    }
}

impl Clone for TaskViewEnvelope {
    fn clone(&self) -> (copy: Self)
        ensures
            copy.deep_view() == self.deep_view(),
    {
        self.copied()
    }
}

impl TaskViewEnvelopeView {
    /// The members of the JSON object.
    pub open spec fn members(self) -> Seq<(Seq<char>, Seq<char>)> {
        seq![
            ("task_view_id"@, <TaskViewId as ToJson>::json(self.task_view_id)),
            ("overlay_revision_id"@, <Option<OverlayRevisionId> as ToJson>::json(self.overlay_revision_id)),
        ]
    }
}

impl ToJson for TaskViewEnvelope {
    open spec fn json(model: TaskViewEnvelopeView) -> Seq<char> {
        json_object(model.members())
    }

    fn to_json(&self) -> (text: String) {
        let object = JsonObject::new()
            .member("task_view_id", self.task_view_id.to_json())
            .member("overlay_revision_id", self.overlay_revision_id.to_json());
        assert(object.members() =~= self.deep_view().members());
        object.finish()
    }
}

/// What a repository query may use.
#[derive(Debug, PartialEq, Eq)]
pub struct QueryBudget {
    pub max_results: NonZeroU32,
    pub max_bytes: NonZeroU64,
    pub max_depth: NonZeroU32,
    pub max_duration_ms: NonZeroU64,
    pub max_diagnostics: NonZeroU32,
}

/// The model of [`QueryBudget`].
pub struct QueryBudgetView {
    pub max_results: u32,
    pub max_bytes: u64,
    pub max_depth: u32,
    pub max_duration_ms: u64,
    pub max_diagnostics: u32,
}

impl DeepView for QueryBudget {
    type V = QueryBudgetView;

    open spec fn deep_view(&self) -> QueryBudgetView {
        QueryBudgetView {
            max_results: self.max_results.deep_view(),
            max_bytes: self.max_bytes.deep_view(),
            max_depth: self.max_depth.deep_view(),
            max_duration_ms: self.max_duration_ms.deep_view(),
            max_diagnostics: self.max_diagnostics.deep_view(),
        }
    }
}

impl Record for QueryBudget {
    fn copied(&self) -> (copy: Self) {
        QueryBudget {
            max_results: self.max_results.copied(),
            max_bytes: self.max_bytes.copied(),
            max_depth: self.max_depth.copied(),
            max_duration_ms: self.max_duration_ms.copied(),
            max_diagnostics: self.max_diagnostics.copied(),
        }
    }

    fn same(&self, other: &Self) -> (same: bool) {
        self.max_results.same(&other.max_results)
            && self.max_bytes.same(&other.max_bytes)
            && self.max_depth.same(&other.max_depth)
            && self.max_duration_ms.same(&other.max_duration_ms)
            && self.max_diagnostics.same(&other.max_diagnostics)
    }
}

impl Clone for QueryBudget {
    fn clone(&self) -> (copy: Self)
        ensures
            copy.deep_view() == self.deep_view(),
    {
        self.copied()
    }
}

impl QueryBudgetView {
    /// The members of the JSON object.
    pub open spec fn members(self) -> Seq<(Seq<char>, Seq<char>)> {
        seq![
            ("max_results"@, <NonZeroU32 as ToJson>::json(self.max_results)),
            ("max_bytes"@, <NonZeroU64 as ToJson>::json(self.max_bytes)),
            ("max_depth"@, <NonZeroU32 as ToJson>::json(self.max_depth)),
            ("max_duration_ms"@, <NonZeroU64 as ToJson>::json(self.max_duration_ms)),
            ("max_diagnostics"@, <NonZeroU32 as ToJson>::json(self.max_diagnostics)),
        ]
    }
}

impl ToJson for QueryBudget {
    open spec fn json(model: QueryBudgetView) -> Seq<char> {
        json_object(model.members())
    }

    fn to_json(&self) -> (text: String) {
        let object = JsonObject::new()
            .member("max_results", self.max_results.to_json())
            .member("max_bytes", self.max_bytes.to_json())
            .member("max_depth", self.max_depth.to_json())
            .member("max_duration_ms", self.max_duration_ms.to_json())
            .member("max_diagnostics", self.max_diagnostics.to_json());
        assert(object.members() =~= self.deep_view().members());
        object.finish()
    }
}

/// What a repository query reads, and at what cost.
#[derive(Debug, PartialEq, Eq)]
pub struct QueryScope {
    pub repository: RepositoryRef,
    pub snapshot: SnapshotSelector,
    pub budget: QueryBudget,
}

/// The model of [`QueryScope`].
pub struct QueryScopeView {
    pub repository: RepositoryRefView,
    pub snapshot: SnapshotSelectorView,
    pub budget: QueryBudgetView,
}

impl DeepView for QueryScope {
    type V = QueryScopeView;

    open spec fn deep_view(&self) -> QueryScopeView {
        QueryScopeView {
            repository: self.repository.deep_view(),
            snapshot: self.snapshot.deep_view(),
            budget: self.budget.deep_view(),
        }
    }
}

impl Record for QueryScope {
    fn copied(&self) -> (copy: Self) {
        QueryScope {
            repository: self.repository.copied(),
            snapshot: self.snapshot.copied(),
            budget: self.budget.copied(),
        }
    }

    fn same(&self, other: &Self) -> (same: bool) {
        self.repository.same(&other.repository)
            && self.snapshot.same(&other.snapshot)
            && self.budget.same(&other.budget)
    }
}

impl Clone for QueryScope {
    fn clone(&self) -> (copy: Self)
        ensures
            copy.deep_view() == self.deep_view(),
    {
        self.copied()
    }
}

impl QueryScopeView {
    /// The members of the JSON object.
    pub open spec fn members(self) -> Seq<(Seq<char>, Seq<char>)> {
        seq![
            ("repository"@, <RepositoryRef as ToJson>::json(self.repository)),
            ("snapshot"@, <SnapshotSelector as ToJson>::json(self.snapshot)),
            ("budget"@, <QueryBudget as ToJson>::json(self.budget)),
        ]
    }
}

impl ToJson for QueryScope {
    open spec fn json(model: QueryScopeView) -> Seq<char> {
        json_object(model.members())
    }

    fn to_json(&self) -> (text: String) {
        let object = JsonObject::new()
            .member("repository", self.repository.to_json())
            .member("snapshot", self.snapshot.to_json())
            .member("budget", self.budget.to_json());
        assert(object.members() =~= self.deep_view().members());
        object.finish()
    }
}

/// A search of a repository graph.
#[derive(Debug, PartialEq, Eq)]
pub struct SearchRequest {
    pub scope: QueryScope,
    pub text: String,
    pub node_kinds: Vec<String>,
    pub paths: Vec<RepoPath>,
    pub cursor: Option<String>,
}

/// The model of [`SearchRequest`].
pub struct SearchRequestView {
    pub scope: QueryScopeView,
    pub text: Seq<char>,
    pub node_kinds: Seq<Seq<char>>,
    pub paths: Seq<Seq<char>>,
    pub cursor: Option<Seq<char>>,
}

impl DeepView for SearchRequest {
    type V = SearchRequestView;

    open spec fn deep_view(&self) -> SearchRequestView {
        SearchRequestView {
            scope: self.scope.deep_view(),
            text: self.text.deep_view(),
            node_kinds: self.node_kinds.deep_view(),
            paths: self.paths.deep_view(),
            cursor: self.cursor.deep_view(),
        }
    }
}

impl Record for SearchRequest {
    fn copied(&self) -> (copy: Self) {
        SearchRequest {
            scope: self.scope.copied(),
            text: self.text.copied(),
            node_kinds: self.node_kinds.copied(),
            paths: self.paths.copied(),
            cursor: self.cursor.copied(),
        }
    }

    fn same(&self, other: &Self) -> (same: bool) {
        self.scope.same(&other.scope)
            && self.text.same(&other.text)
            && self.node_kinds.same(&other.node_kinds)
            && self.paths.same(&other.paths)
            && self.cursor.same(&other.cursor)
    }
}

impl Clone for SearchRequest {
    fn clone(&self) -> (copy: Self)
        ensures
            copy.deep_view() == self.deep_view(),
    {
        self.copied()
    }
}

impl SearchRequestView {
    /// The members of the JSON object.
    pub open spec fn members(self) -> Seq<(Seq<char>, Seq<char>)> {
        seq![
            ("scope"@, <QueryScope as ToJson>::json(self.scope)),
            ("text"@, <String as ToJson>::json(self.text)),
            ("node_kinds"@, <Vec<String> as ToJson>::json(self.node_kinds)),
            ("paths"@, <Vec<RepoPath> as ToJson>::json(self.paths)),
            ("cursor"@, <Option<String> as ToJson>::json(self.cursor)),
        ]
    }
}

impl ToJson for SearchRequest {
    open spec fn json(model: SearchRequestView) -> Seq<char> {
        json_object(model.members())
    }

    fn to_json(&self) -> (text: String) {
        let object = JsonObject::new()
            .member("scope", self.scope.to_json())
            .member("text", self.text.to_json())
            .member("node_kinds", self.node_kinds.to_json())
            .member("paths", self.paths.to_json())
            .member("cursor", self.cursor.to_json());
        assert(object.members() =~= self.deep_view().members());
        object.finish()
    }
}

/// A question for repository context.
#[derive(Debug, PartialEq, Eq)]
pub struct ContextRequest {
    pub scope: QueryScope,
    pub seeds: Vec<ContextSeed>,
    pub policy: ContextPolicy,
    pub cursor: Option<String>,
}

/// The model of [`ContextRequest`].
pub struct ContextRequestView {
    pub scope: QueryScopeView,
    pub seeds: Seq<ContextSeedView>,
    pub policy: ContextPolicyView,
    pub cursor: Option<Seq<char>>,
}

impl DeepView for ContextRequest {
    type V = ContextRequestView;

    open spec fn deep_view(&self) -> ContextRequestView {
        ContextRequestView {
            scope: self.scope.deep_view(),
            seeds: self.seeds.deep_view(),
            policy: self.policy.deep_view(),
            cursor: self.cursor.deep_view(),
        }
    }
}

impl Record for ContextRequest {
    fn copied(&self) -> (copy: Self) {
        ContextRequest {
            scope: self.scope.copied(),
            seeds: self.seeds.copied(),
            policy: self.policy.copied(),
            cursor: self.cursor.copied(),
        }
    }

    fn same(&self, other: &Self) -> (same: bool) {
        self.scope.same(&other.scope)
            && self.seeds.same(&other.seeds)
            && self.policy.same(&other.policy)
            && self.cursor.same(&other.cursor)
    }
}

impl Clone for ContextRequest {
    fn clone(&self) -> (copy: Self)
        ensures
            copy.deep_view() == self.deep_view(),
    {
        self.copied()
    }
}

impl ContextRequestView {
    /// The members of the JSON object.
    pub open spec fn members(self) -> Seq<(Seq<char>, Seq<char>)> {
        seq![
            ("scope"@, <QueryScope as ToJson>::json(self.scope)),
            ("seeds"@, <Vec<ContextSeed> as ToJson>::json(self.seeds)),
            ("policy"@, <ContextPolicy as ToJson>::json(self.policy)),
            ("cursor"@, <Option<String> as ToJson>::json(self.cursor)),
        ]
    }
}

impl ToJson for ContextRequest {
    open spec fn json(model: ContextRequestView) -> Seq<char> {
        json_object(model.members())
    }

    fn to_json(&self) -> (text: String) {
        let object = JsonObject::new()
            .member("scope", self.scope.to_json())
            .member("seeds", self.seeds.to_json())
            .member("policy", self.policy.to_json())
            .member("cursor", self.cursor.to_json());
        assert(object.members() =~= self.deep_view().members());
        object.finish()
    }
}

/// What a search of a repository graph found.
#[derive(Debug, PartialEq, Eq)]
pub struct SearchResponse {
    pub repository: RepositoryRef,
    pub snapshot_id: SnapshotId,
    pub task_view: Option<TaskViewEnvelope>,
    pub freshness: FreshnessEnvelope,
    pub diagnostics: DiagnosticsEnvelope,
    pub page: PageInfo,
    pub hits: Vec<SearchHit>,
}

/// The model of [`SearchResponse`].
pub struct SearchResponseView {
    pub repository: RepositoryRefView,
    pub snapshot_id: Seq<char>,
    pub task_view: Option<TaskViewEnvelopeView>,
    pub freshness: FreshnessEnvelopeView,
    pub diagnostics: DiagnosticsEnvelopeView,
    pub page: PageInfoView,
    pub hits: Seq<SearchHitView>,
}

impl DeepView for SearchResponse {
    type V = SearchResponseView;

    open spec fn deep_view(&self) -> SearchResponseView {
        SearchResponseView {
            repository: self.repository.deep_view(),
            snapshot_id: self.snapshot_id.deep_view(),
            task_view: self.task_view.deep_view(),
            freshness: self.freshness.deep_view(),
            diagnostics: self.diagnostics.deep_view(),
            page: self.page.deep_view(),
            hits: self.hits.deep_view(),
        }
    }
}

impl Record for SearchResponse {
    fn copied(&self) -> (copy: Self) {
        SearchResponse {
            repository: self.repository.copied(),
            snapshot_id: self.snapshot_id.copied(),
            task_view: self.task_view.copied(),
            freshness: self.freshness.copied(),
            diagnostics: self.diagnostics.copied(),
            page: self.page.copied(),
            hits: self.hits.copied(),
        }
    }

    fn same(&self, other: &Self) -> (same: bool) {
        self.repository.same(&other.repository)
            && self.snapshot_id.same(&other.snapshot_id)
            && self.task_view.same(&other.task_view)
            && self.freshness.same(&other.freshness)
            && self.diagnostics.same(&other.diagnostics)
            && self.page.same(&other.page)
            && self.hits.same(&other.hits)
    }
}

impl Clone for SearchResponse {
    fn clone(&self) -> (copy: Self)
        ensures
            copy.deep_view() == self.deep_view(),
    {
        self.copied()
    }
}

impl SearchResponseView {
    /// The members of the JSON object.
    pub open spec fn members(self) -> Seq<(Seq<char>, Seq<char>)> {
        seq![
            ("repository"@, <RepositoryRef as ToJson>::json(self.repository)),
            ("snapshot_id"@, <SnapshotId as ToJson>::json(self.snapshot_id)),
            ("task_view"@, <Option<TaskViewEnvelope> as ToJson>::json(self.task_view)),
            ("freshness"@, <FreshnessEnvelope as ToJson>::json(self.freshness)),
            ("diagnostics"@, <DiagnosticsEnvelope as ToJson>::json(self.diagnostics)),
            ("page"@, <PageInfo as ToJson>::json(self.page)),
            ("hits"@, <Vec<SearchHit> as ToJson>::json(self.hits)),
        ]
    }
}

impl ToJson for SearchResponse {
    open spec fn json(model: SearchResponseView) -> Seq<char> {
        json_object(model.members())
    }

    fn to_json(&self) -> (text: String) {
        let object = JsonObject::new()
            .member("repository", self.repository.to_json())
            .member("snapshot_id", self.snapshot_id.to_json())
            .member("task_view", self.task_view.to_json())
            .member("freshness", self.freshness.to_json())
            .member("diagnostics", self.diagnostics.to_json())
            .member("page", self.page.to_json())
            .member("hits", self.hits.to_json());
        assert(object.members() =~= self.deep_view().members());
        object.finish()
    }
}

/// The repository context around some seeds.
#[derive(Debug, PartialEq, Eq)]
pub struct ContextResponse {
    pub repository: RepositoryRef,
    pub snapshot_id: SnapshotId,
    pub task_view: Option<TaskViewEnvelope>,
    pub freshness: FreshnessEnvelope,
    pub diagnostics: DiagnosticsEnvelope,
    pub page: PageInfo,
    pub items: Vec<ContextItem>,
    pub snippets: Vec<ContextSnippet>,
}

/// The model of [`ContextResponse`].
pub struct ContextResponseView {
    pub repository: RepositoryRefView,
    pub snapshot_id: Seq<char>,
    pub task_view: Option<TaskViewEnvelopeView>,
    pub freshness: FreshnessEnvelopeView,
    pub diagnostics: DiagnosticsEnvelopeView,
    pub page: PageInfoView,
    pub items: Seq<ContextItemView>,
    pub snippets: Seq<ContextSnippetView>,
}

impl DeepView for ContextResponse {
    type V = ContextResponseView;

    open spec fn deep_view(&self) -> ContextResponseView {
        ContextResponseView {
            repository: self.repository.deep_view(),
            snapshot_id: self.snapshot_id.deep_view(),
            task_view: self.task_view.deep_view(),
            freshness: self.freshness.deep_view(),
            diagnostics: self.diagnostics.deep_view(),
            page: self.page.deep_view(),
            items: self.items.deep_view(),
            snippets: self.snippets.deep_view(),
        }
    }
}

impl Record for ContextResponse {
    fn copied(&self) -> (copy: Self) {
        ContextResponse {
            repository: self.repository.copied(),
            snapshot_id: self.snapshot_id.copied(),
            task_view: self.task_view.copied(),
            freshness: self.freshness.copied(),
            diagnostics: self.diagnostics.copied(),
            page: self.page.copied(),
            items: self.items.copied(),
            snippets: self.snippets.copied(),
        }
    }

    fn same(&self, other: &Self) -> (same: bool) {
        self.repository.same(&other.repository)
            && self.snapshot_id.same(&other.snapshot_id)
            && self.task_view.same(&other.task_view)
            && self.freshness.same(&other.freshness)
            && self.diagnostics.same(&other.diagnostics)
            && self.page.same(&other.page)
            && self.items.same(&other.items)
            && self.snippets.same(&other.snippets)
    }
}

impl Clone for ContextResponse {
    fn clone(&self) -> (copy: Self)
        ensures
            copy.deep_view() == self.deep_view(),
    {
        self.copied()
    }
}

impl ContextResponseView {
    /// The members of the JSON object.
    pub open spec fn members(self) -> Seq<(Seq<char>, Seq<char>)> {
        seq![
            ("repository"@, <RepositoryRef as ToJson>::json(self.repository)),
            ("snapshot_id"@, <SnapshotId as ToJson>::json(self.snapshot_id)),
            ("task_view"@, <Option<TaskViewEnvelope> as ToJson>::json(self.task_view)),
            ("freshness"@, <FreshnessEnvelope as ToJson>::json(self.freshness)),
            ("diagnostics"@, <DiagnosticsEnvelope as ToJson>::json(self.diagnostics)),
            ("page"@, <PageInfo as ToJson>::json(self.page)),
            ("items"@, <Vec<ContextItem> as ToJson>::json(self.items)),
            ("snippets"@, <Vec<ContextSnippet> as ToJson>::json(self.snippets)),
        ]
    }
}

impl ToJson for ContextResponse {
    open spec fn json(model: ContextResponseView) -> Seq<char> {
        json_object(model.members())
    }

    fn to_json(&self) -> (text: String) {
        let object = JsonObject::new()
            .member("repository", self.repository.to_json())
            .member("snapshot_id", self.snapshot_id.to_json())
            .member("task_view", self.task_view.to_json())
            .member("freshness", self.freshness.to_json())
            .member("diagnostics", self.diagnostics.to_json())
            .member("page", self.page.to_json())
            .member("items", self.items.to_json())
            .member("snippets", self.snippets.to_json());
        assert(object.members() =~= self.deep_view().members());
        object.finish()
    }
}

/// The state of a repository graph.
#[derive(Debug, PartialEq, Eq)]
pub struct StatusResponse {
    pub repository: RepositoryRef,
    pub snapshot_id: Option<SnapshotId>,
    pub task_view: Option<TaskViewEnvelope>,
    pub freshness: FreshnessEnvelope,
    pub diagnostics: DiagnosticsEnvelope,
    pub page: PageInfo,
}

/// The model of [`StatusResponse`].
pub struct StatusResponseView {
    pub repository: RepositoryRefView,
    pub snapshot_id: Option<Seq<char>>,
    pub task_view: Option<TaskViewEnvelopeView>,
    pub freshness: FreshnessEnvelopeView,
    pub diagnostics: DiagnosticsEnvelopeView,
    pub page: PageInfoView,
}

impl DeepView for StatusResponse {
    type V = StatusResponseView;

    open spec fn deep_view(&self) -> StatusResponseView {
        StatusResponseView {
            repository: self.repository.deep_view(),
            snapshot_id: self.snapshot_id.deep_view(),
            task_view: self.task_view.deep_view(),
            freshness: self.freshness.deep_view(),
            diagnostics: self.diagnostics.deep_view(),
            page: self.page.deep_view(),
        }
    }
}

impl Record for StatusResponse {
    fn copied(&self) -> (copy: Self) {
        StatusResponse {
            repository: self.repository.copied(),
            snapshot_id: self.snapshot_id.copied(),
            task_view: self.task_view.copied(),
            freshness: self.freshness.copied(),
            diagnostics: self.diagnostics.copied(),
            page: self.page.copied(),
        }
    }

    fn same(&self, other: &Self) -> (same: bool) {
        self.repository.same(&other.repository)
            && self.snapshot_id.same(&other.snapshot_id)
            && self.task_view.same(&other.task_view)
            && self.freshness.same(&other.freshness)
            && self.diagnostics.same(&other.diagnostics)
            && self.page.same(&other.page)
    }
}

impl Clone for StatusResponse {
    fn clone(&self) -> (copy: Self)
        ensures
            copy.deep_view() == self.deep_view(),
    {
        self.copied()
    }
}

impl StatusResponseView {
    /// The members of the JSON object.
    pub open spec fn members(self) -> Seq<(Seq<char>, Seq<char>)> {
        seq![
            ("repository"@, <RepositoryRef as ToJson>::json(self.repository)),
            ("snapshot_id"@, <Option<SnapshotId> as ToJson>::json(self.snapshot_id)),
            ("task_view"@, <Option<TaskViewEnvelope> as ToJson>::json(self.task_view)),
            ("freshness"@, <FreshnessEnvelope as ToJson>::json(self.freshness)),
            ("diagnostics"@, <DiagnosticsEnvelope as ToJson>::json(self.diagnostics)),
            ("page"@, <PageInfo as ToJson>::json(self.page)),
        ]
    }
}

impl ToJson for StatusResponse {
    open spec fn json(model: StatusResponseView) -> Seq<char> {
        json_object(model.members())
    }

    fn to_json(&self) -> (text: String) {
        let object = JsonObject::new()
            .member("repository", self.repository.to_json())
            .member("snapshot_id", self.snapshot_id.to_json())
            .member("task_view", self.task_view.to_json())
            .member("freshness", self.freshness.to_json())
            .member("diagnostics", self.diagnostics.to_json())
            .member("page", self.page.to_json());
        assert(object.members() =~= self.deep_view().members());
        object.finish()
    }
}

/// Why a repository query failed.
#[derive(Debug, Clone, Copy, PartialEq, Eq, PartialOrd, Ord, Hash, Structural)]
pub enum QueryErrorCode {
    NotBuilt,
    IndexBuilding,
    IndexFailed,
    SnapshotNotFound,
    StaleCursor,
    BudgetExceeded,
    ContentChanged,
    InvalidRequest,
    Backend,
}

impl DeepView for QueryErrorCode {
    type V = QueryErrorCode;

    open spec fn deep_view(&self) -> QueryErrorCode {
        *self
    }
}

impl QueryErrorCode {
    /// The name in stored and transmitted records.
    pub open spec fn name(self) -> Seq<char> {
        match self {
            QueryErrorCode::NotBuilt => "not_built"@,
            QueryErrorCode::IndexBuilding => "index_building"@,
            QueryErrorCode::IndexFailed => "index_failed"@,
            QueryErrorCode::SnapshotNotFound => "snapshot_not_found"@,
            QueryErrorCode::StaleCursor => "stale_cursor"@,
            QueryErrorCode::BudgetExceeded => "budget_exceeded"@,
            QueryErrorCode::ContentChanged => "content_changed"@,
            QueryErrorCode::InvalidRequest => "invalid_request"@,
            QueryErrorCode::Backend => "backend"@,
        }
    }

    /// The name in stored and transmitted records.
    pub fn as_str(self) -> (name: &'static str)
        ensures
            name@ == self.name(),
    {
        match self {
            QueryErrorCode::NotBuilt => "not_built",
            QueryErrorCode::IndexBuilding => "index_building",
            QueryErrorCode::IndexFailed => "index_failed",
            QueryErrorCode::SnapshotNotFound => "snapshot_not_found",
            QueryErrorCode::StaleCursor => "stale_cursor",
            QueryErrorCode::BudgetExceeded => "budget_exceeded",
            QueryErrorCode::ContentChanged => "content_changed",
            QueryErrorCode::InvalidRequest => "invalid_request",
            QueryErrorCode::Backend => "backend",
        }
    }
}

impl Record for QueryErrorCode {
    fn copied(&self) -> (copy: Self) {
        *self
    }

    fn same(&self, other: &Self) -> (same: bool) {
        *self == *other
    }
}

impl ToJson for QueryErrorCode {
    open spec fn json(model: QueryErrorCode) -> Seq<char> {
        json_string(model.name())
    }

    fn to_json(&self) -> (text: String) {
        text_json(self.as_str())
    }
}

/// The most that any query may use.
#[derive(Debug, PartialEq, Eq)]
pub struct QueryLimitsConfig {
    pub max_results: u32,
    pub max_bytes: u64,
    pub max_snippet_bytes: u64,
    pub max_depth: u32,
    pub max_duration_ms: u64,
    pub max_diagnostics: u32,
}

/// The model of [`QueryLimitsConfig`].
pub struct QueryLimitsConfigView {
    pub max_results: u32,
    pub max_bytes: u64,
    pub max_snippet_bytes: u64,
    pub max_depth: u32,
    pub max_duration_ms: u64,
    pub max_diagnostics: u32,
}

impl DeepView for QueryLimitsConfig {
    type V = QueryLimitsConfigView;

    open spec fn deep_view(&self) -> QueryLimitsConfigView {
        QueryLimitsConfigView {
            max_results: self.max_results.deep_view(),
            max_bytes: self.max_bytes.deep_view(),
            max_snippet_bytes: self.max_snippet_bytes.deep_view(),
            max_depth: self.max_depth.deep_view(),
            max_duration_ms: self.max_duration_ms.deep_view(),
            max_diagnostics: self.max_diagnostics.deep_view(),
        }
    }
}

impl Record for QueryLimitsConfig {
    fn copied(&self) -> (copy: Self) {
        QueryLimitsConfig {
            max_results: self.max_results.copied(),
            max_bytes: self.max_bytes.copied(),
            max_snippet_bytes: self.max_snippet_bytes.copied(),
            max_depth: self.max_depth.copied(),
            max_duration_ms: self.max_duration_ms.copied(),
            max_diagnostics: self.max_diagnostics.copied(),
        }
    }

    fn same(&self, other: &Self) -> (same: bool) {
        self.max_results.same(&other.max_results)
            && self.max_bytes.same(&other.max_bytes)
            && self.max_snippet_bytes.same(&other.max_snippet_bytes)
            && self.max_depth.same(&other.max_depth)
            && self.max_duration_ms.same(&other.max_duration_ms)
            && self.max_diagnostics.same(&other.max_diagnostics)
    }
}

impl Clone for QueryLimitsConfig {
    fn clone(&self) -> (copy: Self)
        ensures
            copy.deep_view() == self.deep_view(),
    {
        self.copied()
    }
}

impl QueryLimitsConfigView {
    /// The members of the JSON object.
    pub open spec fn members(self) -> Seq<(Seq<char>, Seq<char>)> {
        seq![
            ("max_results"@, <u32 as ToJson>::json(self.max_results)),
            ("max_bytes"@, <u64 as ToJson>::json(self.max_bytes)),
            ("max_snippet_bytes"@, <u64 as ToJson>::json(self.max_snippet_bytes)),
            ("max_depth"@, <u32 as ToJson>::json(self.max_depth)),
            ("max_duration_ms"@, <u64 as ToJson>::json(self.max_duration_ms)),
            ("max_diagnostics"@, <u32 as ToJson>::json(self.max_diagnostics)),
        ]
    }
}

impl ToJson for QueryLimitsConfig {
    open spec fn json(model: QueryLimitsConfigView) -> Seq<char> {
        json_object(model.members())
    }

    fn to_json(&self) -> (text: String) {
        let object = JsonObject::new()
            .member("max_results", self.max_results.to_json())
            .member("max_bytes", self.max_bytes.to_json())
            .member("max_snippet_bytes", self.max_snippet_bytes.to_json())
            .member("max_depth", self.max_depth.to_json())
            .member("max_duration_ms", self.max_duration_ms.to_json())
            .member("max_diagnostics", self.max_diagnostics.to_json());
        assert(object.members() =~= self.deep_view().members());
        object.finish()
    }
}

impl Default for QueryLimitsConfig {
    fn default() -> (limits: Self)
        ensures
            limits.deep_view() == (QueryLimitsConfigView {
                max_results: 50,
                max_bytes: 262_144,
                max_snippet_bytes: 32_768,
                max_depth: 4,
                max_duration_ms: 2_000,
                max_diagnostics: 50,
            }),
    {
        QueryLimitsConfig {
            max_results: 50,
            max_bytes: 262_144,
            max_snippet_bytes: 32_768,
            max_depth: 4,
            max_duration_ms: 2_000,
            max_diagnostics: 50,
        }
    }
}

}
