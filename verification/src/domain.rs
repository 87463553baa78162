//! The records of a project's memory: identities, entities, relationships, revisions and builds.
use vstd::prelude::*;
use crate::diagnostics::{MemoryDiagnostic, MemoryDiagnosticView};
use crate::digest::{
    digest_of, hex_digits_are_plain, is_sha256_text, text_digest, Digest, DigestView,
};
use crate::json::{json_object, json_string, text_json, JsonObject, ToJson};
use crate::record::Record;
use crate::text::joined;
use crate::repository::{
    NodeId, RepoPath, RepositoryRef, RepositoryRefView, SemanticKey, SnapshotId, SourceSpan,
    SourceSpanView,
};
use crate::value::{
    is_bounded_text, is_plain, plain_text_is_bounded, validate_bounded_text, MemoryValueError,
};

verus! {

/// How many bytes an identity may have.
pub const MAX_ID_BYTES: usize = 512;

/// How many bytes a title may have.
pub const MAX_TITLE_BYTES: usize = 1_024;

/// How many bytes a search text may have.
pub const MAX_QUERY_TEXT_BYTES: usize = 4_096;

/// How many bytes a curated text may have.
pub const MAX_MEMORY_TEXT_BYTES: usize = 65_536;

/// The namespace of a project.
#[derive(Debug, PartialEq, Eq, PartialOrd, Ord, Hash)]
pub struct ProjectNamespace {
    value: String,
}

impl DeepView for ProjectNamespace {
    type V = Seq<char>;

    closed spec fn deep_view(&self) -> Seq<char> {
        self.value@
    }
}

impl ProjectNamespace {
    #[verifier::type_invariant]
    spec fn bounded(self) -> bool {
        is_bounded_text(self.value@, MAX_ID_BYTES as nat, false)
    }

    /// The value with this text, where the text is within the bounds.
    pub fn new(value: &str) -> (result: Result<Self, MemoryValueError>)
        ensures
            is_bounded_text(value@, MAX_ID_BYTES as nat, false) ==> result is Ok
                && result->Ok_0.deep_view() == value@,
            !is_bounded_text(value@, MAX_ID_BYTES as nat, false) ==> result is Err
                && result->Err_0.describes("project namespace"@, MAX_ID_BYTES),
    {
        match validate_bounded_text(value, "project namespace", MAX_ID_BYTES, false) {
            Ok(value) => Ok(ProjectNamespace { value }),
            Err(error) => Err(error),
        }
    }

    /// The text.
    pub fn as_str(&self) -> (text: &str)
        ensures
            text@ == self.deep_view(),
            is_bounded_text(text@, MAX_ID_BYTES as nat, false),
    {
        proof {
            use_type_invariant(self);
        }
        self.value.as_str()
    }
}

impl Record for ProjectNamespace {
    fn copied(&self) -> (copy: Self) {
        proof {
            use_type_invariant(self);
        }
        ProjectNamespace { value: self.value.clone() }
    }

    fn same(&self, other: &Self) -> (same: bool) {
        self.value == other.value
    }
}

impl Clone for ProjectNamespace {
    fn clone(&self) -> (copy: Self)
        ensures
            copy.deep_view() == self.deep_view(),
    {
        self.copied()
    }
}

impl ToJson for ProjectNamespace {
    open spec fn json(model: Seq<char>) -> Seq<char> {
        json_string(model)
    }

    fn to_json(&self) -> (text: String) {
        text_json(self.value.as_str())
    }
}

/// The identity of a project in its namespace.
#[derive(Debug, PartialEq, Eq, PartialOrd, Ord, Hash)]
pub struct ProjectId {
    value: String,
}

impl DeepView for ProjectId {
    type V = Seq<char>;

    closed spec fn deep_view(&self) -> Seq<char> {
        self.value@
    }
}

impl ProjectId {
    #[verifier::type_invariant]
    spec fn bounded(self) -> bool {
        is_bounded_text(self.value@, MAX_ID_BYTES as nat, false)
    }

    /// The value with this text, where the text is within the bounds.
    pub fn new(value: &str) -> (result: Result<Self, MemoryValueError>)
        ensures
            is_bounded_text(value@, MAX_ID_BYTES as nat, false) ==> result is Ok
                && result->Ok_0.deep_view() == value@,
            !is_bounded_text(value@, MAX_ID_BYTES as nat, false) ==> result is Err
                && result->Err_0.describes("project id"@, MAX_ID_BYTES),
    {
        match validate_bounded_text(value, "project id", MAX_ID_BYTES, false) {
            Ok(value) => Ok(ProjectId { value }),
            Err(error) => Err(error),
        }
    }

    /// The text.
    pub fn as_str(&self) -> (text: &str)
        ensures
            text@ == self.deep_view(),
            is_bounded_text(text@, MAX_ID_BYTES as nat, false),
    {
        proof {
            use_type_invariant(self);
        }
        self.value.as_str()
    }
}

impl Record for ProjectId {
    fn copied(&self) -> (copy: Self) {
        proof {
            use_type_invariant(self);
        }
        ProjectId { value: self.value.clone() }
    }

    fn same(&self, other: &Self) -> (same: bool) {
        self.value == other.value
    }
}

impl Clone for ProjectId {
    fn clone(&self) -> (copy: Self)
        ensures
            copy.deep_view() == self.deep_view(),
    {
        self.copied()
    }
}

impl ToJson for ProjectId {
    open spec fn json(model: Seq<char>) -> Seq<char> {
        json_string(model)
    }

    fn to_json(&self) -> (text: String) {
        text_json(self.value.as_str())
    }
}

/// The identity of a memory revision.
#[derive(Debug, PartialEq, Eq, PartialOrd, Ord, Hash)]
pub struct MemoryRevisionId {
    value: String,
}

impl DeepView for MemoryRevisionId {
    type V = Seq<char>;

    closed spec fn deep_view(&self) -> Seq<char> {
        self.value@
    }
}

impl MemoryRevisionId {
    #[verifier::type_invariant]
    spec fn bounded(self) -> bool {
        is_bounded_text(self.value@, MAX_ID_BYTES as nat, false)
    }

    /// The value with this text, where the text is within the bounds.
    pub fn new(value: &str) -> (result: Result<Self, MemoryValueError>)
        ensures
            is_bounded_text(value@, MAX_ID_BYTES as nat, false) ==> result is Ok
                && result->Ok_0.deep_view() == value@,
            !is_bounded_text(value@, MAX_ID_BYTES as nat, false) ==> result is Err
                && result->Err_0.describes("memory revision id"@, MAX_ID_BYTES),
    {
        match validate_bounded_text(value, "memory revision id", MAX_ID_BYTES, false) {
            Ok(value) => Ok(MemoryRevisionId { value }),
            Err(error) => Err(error),
        }
    }

    /// The text.
    pub fn as_str(&self) -> (text: &str)
        ensures
            text@ == self.deep_view(),
            is_bounded_text(text@, MAX_ID_BYTES as nat, false),
    {
        proof {
            use_type_invariant(self);
        }
        self.value.as_str()
    }
}

impl Record for MemoryRevisionId {
    fn copied(&self) -> (copy: Self) {
        proof {
            use_type_invariant(self);
        }
        MemoryRevisionId { value: self.value.clone() }
    }

    fn same(&self, other: &Self) -> (same: bool) {
        self.value == other.value
    }
}

impl Clone for MemoryRevisionId {
    fn clone(&self) -> (copy: Self)
        ensures
            copy.deep_view() == self.deep_view(),
    {
        self.copied()
    }
}

impl ToJson for MemoryRevisionId {
    open spec fn json(model: Seq<char>) -> Seq<char> {
        json_string(model)
    }

    fn to_json(&self) -> (text: String) {
        text_json(self.value.as_str())
    }
}

/// The identity of a build.
#[derive(Debug, PartialEq, Eq, PartialOrd, Ord, Hash)]
pub struct MemoryBuildId {
    value: String,
}

impl DeepView for MemoryBuildId {
    type V = Seq<char>;

    closed spec fn deep_view(&self) -> Seq<char> {
        self.value@
    }
}

impl MemoryBuildId {
    #[verifier::type_invariant]
    spec fn bounded(self) -> bool {
        is_bounded_text(self.value@, MAX_ID_BYTES as nat, false)
    }

    /// The value with this text, where the text is within the bounds.
    pub fn new(value: &str) -> (result: Result<Self, MemoryValueError>)
        ensures
            is_bounded_text(value@, MAX_ID_BYTES as nat, false) ==> result is Ok
                && result->Ok_0.deep_view() == value@,
            !is_bounded_text(value@, MAX_ID_BYTES as nat, false) ==> result is Err
                && result->Err_0.describes("memory build id"@, MAX_ID_BYTES),
    {
        match validate_bounded_text(value, "memory build id", MAX_ID_BYTES, false) {
            Ok(value) => Ok(MemoryBuildId { value }),
            Err(error) => Err(error),
        }
    }

    /// The text.
    pub fn as_str(&self) -> (text: &str)
        ensures
            text@ == self.deep_view(),
            is_bounded_text(text@, MAX_ID_BYTES as nat, false),
    {
        proof {
            use_type_invariant(self);
        }
        self.value.as_str()
    }
}

impl Record for MemoryBuildId {
    fn copied(&self) -> (copy: Self) {
        proof {
            use_type_invariant(self);
        }
        MemoryBuildId { value: self.value.clone() }
    }

    fn same(&self, other: &Self) -> (same: bool) {
        self.value == other.value
    }
}

impl Clone for MemoryBuildId {
    fn clone(&self) -> (copy: Self)
        ensures
            copy.deep_view() == self.deep_view(),
    {
        self.copied()
    }
}

impl ToJson for MemoryBuildId {
    open spec fn json(model: Seq<char>) -> Seq<char> {
        json_string(model)
    }

    fn to_json(&self) -> (text: String) {
        text_json(self.value.as_str())
    }
}

/// The identity of an entity.
#[derive(Debug, PartialEq, Eq, PartialOrd, Ord, Hash)]
pub struct MemoryEntityId {
    value: String,
}

impl DeepView for MemoryEntityId {
    type V = Seq<char>;

    closed spec fn deep_view(&self) -> Seq<char> {
        self.value@
    }
}

impl MemoryEntityId {
    #[verifier::type_invariant]
    spec fn bounded(self) -> bool {
        is_bounded_text(self.value@, MAX_ID_BYTES as nat, false)
    }

    /// The value with this text, where the text is within the bounds.
    pub fn new(value: &str) -> (result: Result<Self, MemoryValueError>)
        ensures
            is_bounded_text(value@, MAX_ID_BYTES as nat, false) ==> result is Ok
                && result->Ok_0.deep_view() == value@,
            !is_bounded_text(value@, MAX_ID_BYTES as nat, false) ==> result is Err
                && result->Err_0.describes("memory entity id"@, MAX_ID_BYTES),
    {
        match validate_bounded_text(value, "memory entity id", MAX_ID_BYTES, false) {
            Ok(value) => Ok(MemoryEntityId { value }),
            Err(error) => Err(error),
        }
    }

    /// The text.
    pub fn as_str(&self) -> (text: &str)
        ensures
            text@ == self.deep_view(),
            is_bounded_text(text@, MAX_ID_BYTES as nat, false),
    {
        proof {
            use_type_invariant(self);
        }
        self.value.as_str()
    }
}

impl Record for MemoryEntityId {
    fn copied(&self) -> (copy: Self) {
        proof {
            use_type_invariant(self);
        }
        MemoryEntityId { value: self.value.clone() }
    }

    fn same(&self, other: &Self) -> (same: bool) {
        self.value == other.value
    }
}

impl Clone for MemoryEntityId {
    fn clone(&self) -> (copy: Self)
        ensures
            copy.deep_view() == self.deep_view(),
    {
        self.copied()
    }
}

impl ToJson for MemoryEntityId {
    open spec fn json(model: Seq<char>) -> Seq<char> {
        json_string(model)
    }

    fn to_json(&self) -> (text: String) {
        text_json(self.value.as_str())
    }
}

/// The identity of a relationship.
#[derive(Debug, PartialEq, Eq, PartialOrd, Ord, Hash)]
pub struct MemoryRelationshipId {
    value: String,
}

impl DeepView for MemoryRelationshipId {
    type V = Seq<char>;

    closed spec fn deep_view(&self) -> Seq<char> {
        self.value@
    }
}

impl MemoryRelationshipId {
    #[verifier::type_invariant]
    spec fn bounded(self) -> bool {
        is_bounded_text(self.value@, MAX_ID_BYTES as nat, false)
    }

    /// The value with this text, where the text is within the bounds.
    pub fn new(value: &str) -> (result: Result<Self, MemoryValueError>)
        ensures
            is_bounded_text(value@, MAX_ID_BYTES as nat, false) ==> result is Ok
                && result->Ok_0.deep_view() == value@,
            !is_bounded_text(value@, MAX_ID_BYTES as nat, false) ==> result is Err
                && result->Err_0.describes("memory relationship id"@, MAX_ID_BYTES),
    {
        match validate_bounded_text(value, "memory relationship id", MAX_ID_BYTES, false) {
            Ok(value) => Ok(MemoryRelationshipId { value }),
            Err(error) => Err(error),
        }
    }

    /// The text.
    pub fn as_str(&self) -> (text: &str)
        ensures
            text@ == self.deep_view(),
            is_bounded_text(text@, MAX_ID_BYTES as nat, false),
    {
        proof {
            use_type_invariant(self);
        }
        self.value.as_str()
    }
}

impl Record for MemoryRelationshipId {
    fn copied(&self) -> (copy: Self) {
        proof {
            use_type_invariant(self);
        }
        MemoryRelationshipId { value: self.value.clone() }
    }

    fn same(&self, other: &Self) -> (same: bool) {
        self.value == other.value
    }
}

impl Clone for MemoryRelationshipId {
    fn clone(&self) -> (copy: Self)
        ensures
            copy.deep_view() == self.deep_view(),
    {
        self.copied()
    }
}

impl ToJson for MemoryRelationshipId {
    open spec fn json(model: Seq<char>) -> Seq<char> {
        json_string(model)
    }

    fn to_json(&self) -> (text: String) {
        text_json(self.value.as_str())
    }
}

/// The identity of a set of repository links.
#[derive(Debug, PartialEq, Eq, PartialOrd, Ord, Hash)]
pub struct MemoryRepositoryLinkSetId {
    value: String,
}

impl DeepView for MemoryRepositoryLinkSetId {
    type V = Seq<char>;

    closed spec fn deep_view(&self) -> Seq<char> {
        self.value@
    }
}

impl MemoryRepositoryLinkSetId {
    #[verifier::type_invariant]
    spec fn bounded(self) -> bool {
        is_bounded_text(self.value@, MAX_ID_BYTES as nat, false)
    }

    /// The value with this text, where the text is within the bounds.
    pub fn new(value: &str) -> (result: Result<Self, MemoryValueError>)
        ensures
            is_bounded_text(value@, MAX_ID_BYTES as nat, false) ==> result is Ok
                && result->Ok_0.deep_view() == value@,
            !is_bounded_text(value@, MAX_ID_BYTES as nat, false) ==> result is Err
                && result->Err_0.describes("memory repository link set id"@, MAX_ID_BYTES),
    {
        match validate_bounded_text(value, "memory repository link set id", MAX_ID_BYTES, false) {
            Ok(value) => Ok(MemoryRepositoryLinkSetId { value }),
            Err(error) => Err(error),
        }
    }

    /// The text.
    pub fn as_str(&self) -> (text: &str)
        ensures
            text@ == self.deep_view(),
            is_bounded_text(text@, MAX_ID_BYTES as nat, false),
    {
        proof {
            use_type_invariant(self);
        }
        self.value.as_str()
    }
}

impl Record for MemoryRepositoryLinkSetId {
    fn copied(&self) -> (copy: Self) {
        proof {
            use_type_invariant(self);
        }
        MemoryRepositoryLinkSetId { value: self.value.clone() }
    }

    fn same(&self, other: &Self) -> (same: bool) {
        self.value == other.value
    }
}

impl Clone for MemoryRepositoryLinkSetId {
    fn clone(&self) -> (copy: Self)
        ensures
            copy.deep_view() == self.deep_view(),
    {
        self.copied()
    }
}

impl ToJson for MemoryRepositoryLinkSetId {
    open spec fn json(model: Seq<char>) -> Seq<char> {
        json_string(model)
    }

    fn to_json(&self) -> (text: String) {
        text_json(self.value.as_str())
    }
}

/// The identity of an extractor.
#[derive(Debug, PartialEq, Eq, PartialOrd, Ord, Hash)]
pub struct MemoryExtractorId {
    value: String,
}

impl DeepView for MemoryExtractorId {
    type V = Seq<char>;

    closed spec fn deep_view(&self) -> Seq<char> {
        self.value@
    }
}

impl MemoryExtractorId {
    #[verifier::type_invariant]
    spec fn bounded(self) -> bool {
        is_bounded_text(self.value@, MAX_ID_BYTES as nat, false)
    }

    /// The value with this text, where the text is within the bounds.
    pub fn new(value: &str) -> (result: Result<Self, MemoryValueError>)
        ensures
            is_bounded_text(value@, MAX_ID_BYTES as nat, false) ==> result is Ok
                && result->Ok_0.deep_view() == value@,
            !is_bounded_text(value@, MAX_ID_BYTES as nat, false) ==> result is Err
                && result->Err_0.describes("memory extractor id"@, MAX_ID_BYTES),
    {
        match validate_bounded_text(value, "memory extractor id", MAX_ID_BYTES, false) {
            Ok(value) => Ok(MemoryExtractorId { value }),
            Err(error) => Err(error),
        }
    }

    /// The text.
    pub fn as_str(&self) -> (text: &str)
        ensures
            text@ == self.deep_view(),
            is_bounded_text(text@, MAX_ID_BYTES as nat, false),
    {
        proof {
            use_type_invariant(self);
        }
        self.value.as_str()
    }
}

impl Record for MemoryExtractorId {
    fn copied(&self) -> (copy: Self) {
        proof {
            use_type_invariant(self);
        }
        MemoryExtractorId { value: self.value.clone() }
    }

    fn same(&self, other: &Self) -> (same: bool) {
        self.value == other.value
    }
}

impl Clone for MemoryExtractorId {
    fn clone(&self) -> (copy: Self)
        ensures
            copy.deep_view() == self.deep_view(),
    {
        self.copied()
    }
}

impl ToJson for MemoryExtractorId {
    open spec fn json(model: Seq<char>) -> Seq<char> {
        json_string(model)
    }

    fn to_json(&self) -> (text: String) {
        text_json(self.value.as_str())
    }
}

/// The name of a published view.
#[derive(Debug, PartialEq, Eq, PartialOrd, Ord, Hash)]
pub struct MemoryViewName {
    value: String,
}

impl DeepView for MemoryViewName {
    type V = Seq<char>;

    closed spec fn deep_view(&self) -> Seq<char> {
        self.value@
    }
}

impl MemoryViewName {
    #[verifier::type_invariant]
    spec fn bounded(self) -> bool {
        is_bounded_text(self.value@, MAX_ID_BYTES as nat, false)
    }

    /// The value with this text, where the text is within the bounds.
    pub fn new(value: &str) -> (result: Result<Self, MemoryValueError>)
        ensures
            is_bounded_text(value@, MAX_ID_BYTES as nat, false) ==> result is Ok
                && result->Ok_0.deep_view() == value@,
            !is_bounded_text(value@, MAX_ID_BYTES as nat, false) ==> result is Err
                && result->Err_0.describes("memory view name"@, MAX_ID_BYTES),
    {
        match validate_bounded_text(value, "memory view name", MAX_ID_BYTES, false) {
            Ok(value) => Ok(MemoryViewName { value }),
            Err(error) => Err(error),
        }
    }

    /// The text.
    pub fn as_str(&self) -> (text: &str)
        ensures
            text@ == self.deep_view(),
            is_bounded_text(text@, MAX_ID_BYTES as nat, false),
    {
        proof {
            use_type_invariant(self);
        }
        self.value.as_str()
    }
}

impl Record for MemoryViewName {
    fn copied(&self) -> (copy: Self) {
        proof {
            use_type_invariant(self);
        }
        MemoryViewName { value: self.value.clone() }
    }

    fn same(&self, other: &Self) -> (same: bool) {
        self.value == other.value
    }
}

impl Clone for MemoryViewName {
    fn clone(&self) -> (copy: Self)
        ensures
            copy.deep_view() == self.deep_view(),
    {
        self.copied()
    }
}

impl ToJson for MemoryViewName {
    open spec fn json(model: Seq<char>) -> Seq<char> {
        json_string(model)
    }

    fn to_json(&self) -> (text: String) {
        text_json(self.value.as_str())
    }
}

/// The identity of a record outside the memory: a milestone, a task, a run, a check or an archive.
#[derive(Debug, PartialEq, Eq, PartialOrd, Ord, Hash)]
pub struct MemoryRecordId {
    value: String,
}

impl DeepView for MemoryRecordId {
    type V = Seq<char>;

    closed spec fn deep_view(&self) -> Seq<char> {
        self.value@
    }
}

impl MemoryRecordId {
    #[verifier::type_invariant]
    spec fn bounded(self) -> bool {
        is_bounded_text(self.value@, MAX_ID_BYTES as nat, false)
    }

    /// The value with this text, where the text is within the bounds.
    pub fn new(value: &str) -> (result: Result<Self, MemoryValueError>)
        ensures
            is_bounded_text(value@, MAX_ID_BYTES as nat, false) ==> result is Ok
                && result->Ok_0.deep_view() == value@,
            !is_bounded_text(value@, MAX_ID_BYTES as nat, false) ==> result is Err
                && result->Err_0.describes("memory record id"@, MAX_ID_BYTES),
    {
        match validate_bounded_text(value, "memory record id", MAX_ID_BYTES, false) {
            Ok(value) => Ok(MemoryRecordId { value }),
            Err(error) => Err(error),
        }
    }

    /// The text.
    pub fn as_str(&self) -> (text: &str)
        ensures
            text@ == self.deep_view(),
            is_bounded_text(text@, MAX_ID_BYTES as nat, false),
    {
        proof {
            use_type_invariant(self);
        }
        self.value.as_str()
    }
}

impl Record for MemoryRecordId {
    fn copied(&self) -> (copy: Self) {
        proof {
            use_type_invariant(self);
        }
        MemoryRecordId { value: self.value.clone() }
    }

    fn same(&self, other: &Self) -> (same: bool) {
        self.value == other.value
    }
}

impl Clone for MemoryRecordId {
    fn clone(&self) -> (copy: Self)
        ensures
            copy.deep_view() == self.deep_view(),
    {
        self.copied()
    }
}

impl ToJson for MemoryRecordId {
    open spec fn json(model: Seq<char>) -> Seq<char> {
        json_string(model)
    }

    fn to_json(&self) -> (text: String) {
        text_json(self.value.as_str())
    }
}

/// A short word for a state or a version.
#[derive(Debug, PartialEq, Eq, PartialOrd, Ord, Hash)]
pub struct MemoryStatusToken {
    value: String,
}

impl DeepView for MemoryStatusToken {
    type V = Seq<char>;

    closed spec fn deep_view(&self) -> Seq<char> {
        self.value@
    }
}

impl MemoryStatusToken {
    #[verifier::type_invariant]
    spec fn bounded(self) -> bool {
        is_bounded_text(self.value@, MAX_ID_BYTES as nat, false)
    }

    /// The value with this text, where the text is within the bounds.
    pub fn new(value: &str) -> (result: Result<Self, MemoryValueError>)
        ensures
            is_bounded_text(value@, MAX_ID_BYTES as nat, false) ==> result is Ok
                && result->Ok_0.deep_view() == value@,
            !is_bounded_text(value@, MAX_ID_BYTES as nat, false) ==> result is Err
                && result->Err_0.describes("memory status"@, MAX_ID_BYTES),
    {
        match validate_bounded_text(value, "memory status", MAX_ID_BYTES, false) {
            Ok(value) => Ok(MemoryStatusToken { value }),
            Err(error) => Err(error),
        }
    }

    /// The text.
    pub fn as_str(&self) -> (text: &str)
        ensures
            text@ == self.deep_view(),
            is_bounded_text(text@, MAX_ID_BYTES as nat, false),
    {
        proof {
            use_type_invariant(self);
        }
        self.value.as_str()
    }
}

impl Record for MemoryStatusToken {
    fn copied(&self) -> (copy: Self) {
        proof {
            use_type_invariant(self);
        }
        MemoryStatusToken { value: self.value.clone() }
    }

    fn same(&self, other: &Self) -> (same: bool) {
        self.value == other.value
    }
}

impl Clone for MemoryStatusToken {
    fn clone(&self) -> (copy: Self)
        ensures
            copy.deep_view() == self.deep_view(),
    {
        self.copied()
    }
}

impl ToJson for MemoryStatusToken {
    open spec fn json(model: Seq<char>) -> Seq<char> {
        json_string(model)
    }

    fn to_json(&self) -> (text: String) {
        text_json(self.value.as_str())
    }
}

/// Where a memory answer continues.
#[derive(Debug, PartialEq, Eq, PartialOrd, Ord, Hash)]
pub struct MemoryPageCursor {
    value: String,
}

impl DeepView for MemoryPageCursor {
    type V = Seq<char>;

    closed spec fn deep_view(&self) -> Seq<char> {
        self.value@
    }
}

impl MemoryPageCursor {
    #[verifier::type_invariant]
    spec fn bounded(self) -> bool {
        is_bounded_text(self.value@, MAX_ID_BYTES as nat, false)
    }

    /// The value with this text, where the text is within the bounds.
    pub fn new(value: &str) -> (result: Result<Self, MemoryValueError>)
        ensures
            is_bounded_text(value@, MAX_ID_BYTES as nat, false) ==> result is Ok
                && result->Ok_0.deep_view() == value@,
            !is_bounded_text(value@, MAX_ID_BYTES as nat, false) ==> result is Err
                && result->Err_0.describes("memory page cursor"@, MAX_ID_BYTES),
    {
        match validate_bounded_text(value, "memory page cursor", MAX_ID_BYTES, false) {
            Ok(value) => Ok(MemoryPageCursor { value }),
            Err(error) => Err(error),
        }
    }

    /// The text.
    pub fn as_str(&self) -> (text: &str)
        ensures
            text@ == self.deep_view(),
            is_bounded_text(text@, MAX_ID_BYTES as nat, false),
    {
        proof {
            use_type_invariant(self);
        }
        self.value.as_str()
    }
}

impl Record for MemoryPageCursor {
    fn copied(&self) -> (copy: Self) {
        proof {
            use_type_invariant(self);
        }
        MemoryPageCursor { value: self.value.clone() }
    }

    fn same(&self, other: &Self) -> (same: bool) {
        self.value == other.value
    }
}

impl Clone for MemoryPageCursor {
    fn clone(&self) -> (copy: Self)
        ensures
            copy.deep_view() == self.deep_view(),
    {
        self.copied()
    }
}

impl ToJson for MemoryPageCursor {
    open spec fn json(model: Seq<char>) -> Seq<char> {
        json_string(model)
    }

    fn to_json(&self) -> (text: String) {
        text_json(self.value.as_str())
    }
}

/// Where a federated answer continues.
#[derive(Debug, PartialEq, Eq, PartialOrd, Ord, Hash)]
pub struct FederationPageCursor {
    value: String,
}

impl DeepView for FederationPageCursor {
    type V = Seq<char>;

    closed spec fn deep_view(&self) -> Seq<char> {
        self.value@
    }
}

impl FederationPageCursor {
    #[verifier::type_invariant]
    spec fn bounded(self) -> bool {
        is_bounded_text(self.value@, MAX_ID_BYTES as nat, false)
    }

    /// The value with this text, where the text is within the bounds.
    pub fn new(value: &str) -> (result: Result<Self, MemoryValueError>)
        ensures
            is_bounded_text(value@, MAX_ID_BYTES as nat, false) ==> result is Ok
                && result->Ok_0.deep_view() == value@,
            !is_bounded_text(value@, MAX_ID_BYTES as nat, false) ==> result is Err
                && result->Err_0.describes("federation page cursor"@, MAX_ID_BYTES),
    {
        match validate_bounded_text(value, "federation page cursor", MAX_ID_BYTES, false) {
            Ok(value) => Ok(FederationPageCursor { value }),
            Err(error) => Err(error),
        }
    }

    /// The text.
    pub fn as_str(&self) -> (text: &str)
        ensures
            text@ == self.deep_view(),
            is_bounded_text(text@, MAX_ID_BYTES as nat, false),
    {
        proof {
            use_type_invariant(self);
        }
        self.value.as_str()
    }
}

impl Record for FederationPageCursor {
    fn copied(&self) -> (copy: Self) {
        proof {
            use_type_invariant(self);
        }
        FederationPageCursor { value: self.value.clone() }
    }

    fn same(&self, other: &Self) -> (same: bool) {
        self.value == other.value
    }
}

impl Clone for FederationPageCursor {
    fn clone(&self) -> (copy: Self)
        ensures
            copy.deep_view() == self.deep_view(),
    {
        self.copied()
    }
}

impl ToJson for FederationPageCursor {
    open spec fn json(model: Seq<char>) -> Seq<char> {
        json_string(model)
    }

    fn to_json(&self) -> (text: String) {
        text_json(self.value.as_str())
    }
}

/// A title.
#[derive(Debug, PartialEq, Eq, PartialOrd, Ord, Hash)]
pub struct MemoryTitle {
    value: String,
}

impl DeepView for MemoryTitle {
    type V = Seq<char>;

    closed spec fn deep_view(&self) -> Seq<char> {
        self.value@
    }
}

impl MemoryTitle {
    #[verifier::type_invariant]
    spec fn bounded(self) -> bool {
        is_bounded_text(self.value@, MAX_TITLE_BYTES as nat, false)
    }

    /// The value with this text, where the text is within the bounds.
    pub fn new(value: &str) -> (result: Result<Self, MemoryValueError>)
        ensures
            is_bounded_text(value@, MAX_TITLE_BYTES as nat, false) ==> result is Ok
                && result->Ok_0.deep_view() == value@,
            !is_bounded_text(value@, MAX_TITLE_BYTES as nat, false) ==> result is Err
                && result->Err_0.describes("memory title"@, MAX_TITLE_BYTES),
    {
        match validate_bounded_text(value, "memory title", MAX_TITLE_BYTES, false) {
            Ok(value) => Ok(MemoryTitle { value }),
            Err(error) => Err(error),
        }
    }

    /// The text.
    pub fn as_str(&self) -> (text: &str)
        ensures
            text@ == self.deep_view(),
            is_bounded_text(text@, MAX_TITLE_BYTES as nat, false),
    {
        proof {
            use_type_invariant(self);
        }
        self.value.as_str()
    }
}

impl Record for MemoryTitle {
    fn copied(&self) -> (copy: Self) {
        proof {
            use_type_invariant(self);
        }
        MemoryTitle { value: self.value.clone() }
    }

    fn same(&self, other: &Self) -> (same: bool) {
        self.value == other.value
    }
}

impl Clone for MemoryTitle {
    fn clone(&self) -> (copy: Self)
        ensures
            copy.deep_view() == self.deep_view(),
    {
        self.copied()
    }
}

impl ToJson for MemoryTitle {
    open spec fn json(model: Seq<char>) -> Seq<char> {
        json_string(model)
    }

    fn to_json(&self) -> (text: String) {
        text_json(self.value.as_str())
    }
}

/// A search text.
#[derive(Debug, PartialEq, Eq, PartialOrd, Ord, Hash)]
pub struct MemoryQueryText {
    value: String,
}

impl DeepView for MemoryQueryText {
    type V = Seq<char>;

    closed spec fn deep_view(&self) -> Seq<char> {
        self.value@
    }
}

impl MemoryQueryText {
    #[verifier::type_invariant]
    spec fn bounded(self) -> bool {
        is_bounded_text(self.value@, MAX_QUERY_TEXT_BYTES as nat, false)
    }

    /// The value with this text, where the text is within the bounds.
    pub fn new(value: &str) -> (result: Result<Self, MemoryValueError>)
        ensures
            is_bounded_text(value@, MAX_QUERY_TEXT_BYTES as nat, false) ==> result is Ok
                && result->Ok_0.deep_view() == value@,
            !is_bounded_text(value@, MAX_QUERY_TEXT_BYTES as nat, false) ==> result is Err
                && result->Err_0.describes("memory query text"@, MAX_QUERY_TEXT_BYTES),
    {
        match validate_bounded_text(value, "memory query text", MAX_QUERY_TEXT_BYTES, false) {
            Ok(value) => Ok(MemoryQueryText { value }),
            Err(error) => Err(error),
        }
    }

    /// The text.
    pub fn as_str(&self) -> (text: &str)
        ensures
            text@ == self.deep_view(),
            is_bounded_text(text@, MAX_QUERY_TEXT_BYTES as nat, false),
    {
        proof {
            use_type_invariant(self);
        }
        self.value.as_str()
    }
}

impl Record for MemoryQueryText {
    fn copied(&self) -> (copy: Self) {
        proof {
            use_type_invariant(self);
        }
        MemoryQueryText { value: self.value.clone() }
    }

    fn same(&self, other: &Self) -> (same: bool) {
        self.value == other.value
    }
}

impl Clone for MemoryQueryText {
    fn clone(&self) -> (copy: Self)
        ensures
            copy.deep_view() == self.deep_view(),
    {
        self.copied()
    }
}

impl ToJson for MemoryQueryText {
    open spec fn json(model: Seq<char>) -> Seq<char> {
        json_string(model)
    }

    fn to_json(&self) -> (text: String) {
        text_json(self.value.as_str())
    }
}

/// A curated text.
#[derive(Debug, PartialEq, Eq, PartialOrd, Ord, Hash)]
pub struct MemoryText {
    value: String,
}

impl DeepView for MemoryText {
    type V = Seq<char>;

    closed spec fn deep_view(&self) -> Seq<char> {
        self.value@
    }
}

impl MemoryText {
    #[verifier::type_invariant]
    spec fn bounded(self) -> bool {
        is_bounded_text(self.value@, MAX_MEMORY_TEXT_BYTES as nat, true)
    }

    /// The value with this text, where the text is within the bounds.
    pub fn new(value: &str) -> (result: Result<Self, MemoryValueError>)
        ensures
            is_bounded_text(value@, MAX_MEMORY_TEXT_BYTES as nat, true) ==> result is Ok
                && result->Ok_0.deep_view() == value@,
            !is_bounded_text(value@, MAX_MEMORY_TEXT_BYTES as nat, true) ==> result is Err
                && result->Err_0.describes("memory text"@, MAX_MEMORY_TEXT_BYTES),
    {
        match validate_bounded_text(value, "memory text", MAX_MEMORY_TEXT_BYTES, true) {
            Ok(value) => Ok(MemoryText { value }),
            Err(error) => Err(error),
        }
    }

    /// The text.
    pub fn as_str(&self) -> (text: &str)
        ensures
            text@ == self.deep_view(),
            is_bounded_text(text@, MAX_MEMORY_TEXT_BYTES as nat, true),
    {
        proof {
            use_type_invariant(self);
        }
        self.value.as_str()
    }
}

impl Record for MemoryText {
    fn copied(&self) -> (copy: Self) {
        proof {
            use_type_invariant(self);
        }
        MemoryText { value: self.value.clone() }
    }

    fn same(&self, other: &Self) -> (same: bool) {
        self.value == other.value
    }
}

impl Clone for MemoryText {
    fn clone(&self) -> (copy: Self)
        ensures
            copy.deep_view() == self.deep_view(),
    {
        self.copied()
    }
}

impl ToJson for MemoryText {
    open spec fn json(model: Seq<char>) -> Seq<char> {
        json_string(model)
    }

    fn to_json(&self) -> (text: String) {
        text_json(self.value.as_str())
    }
}

impl MemoryRevisionId {
    /// The identity made of a short prefix and the digest of a text.
    pub fn of_digest(prefix: &str, text: &str) -> (id: Self)
        requires
            is_id_prefix(prefix@),
        ensures
            id.deep_view() == prefix@ + text_digest(text@),
            is_sha256_text(text_digest(text@)),
    {
        MemoryRevisionId { value: digest_identity(prefix, text) }
    }
}

impl MemoryBuildId {
    /// The identity made of a short prefix and the digest of a text.
    pub fn of_digest(prefix: &str, text: &str) -> (id: Self)
        requires
            is_id_prefix(prefix@),
        ensures
            id.deep_view() == prefix@ + text_digest(text@),
            is_sha256_text(text_digest(text@)),
    {
        MemoryBuildId { value: digest_identity(prefix, text) }
    }
}

impl MemoryEntityId {
    /// The identity made of a short prefix and the digest of a text.
    pub fn of_digest(prefix: &str, text: &str) -> (id: Self)
        requires
            is_id_prefix(prefix@),
        ensures
            id.deep_view() == prefix@ + text_digest(text@),
            is_sha256_text(text_digest(text@)),
    {
        MemoryEntityId { value: digest_identity(prefix, text) }
    }
}

impl MemoryRelationshipId {
    /// The identity made of a short prefix and the digest of a text.
    pub fn of_digest(prefix: &str, text: &str) -> (id: Self)
        requires
            is_id_prefix(prefix@),
        ensures
            id.deep_view() == prefix@ + text_digest(text@),
            is_sha256_text(text_digest(text@)),
    {
        MemoryRelationshipId { value: digest_identity(prefix, text) }
    }
}

impl MemoryRepositoryLinkSetId {
    /// The identity made of a short prefix and the digest of a text.
    pub fn of_digest(prefix: &str, text: &str) -> (id: Self)
        requires
            is_id_prefix(prefix@),
        ensures
            id.deep_view() == prefix@ + text_digest(text@),
            is_sha256_text(text_digest(text@)),
    {
        MemoryRepositoryLinkSetId { value: digest_identity(prefix, text) }
    }
}

/// Whether a text can stand before a digest in an identity.
pub open spec fn is_id_prefix(prefix: Seq<char>) -> bool {
    &&& prefix.len() <= 64
    &&& forall|i: int| 0 <= i < prefix.len() ==> is_plain(#[trigger] prefix[i])
}

fn digest_identity(prefix: &str, text: &str) -> (identity: String)
    requires
        is_id_prefix(prefix@),
    ensures
        is_sha256_text(text_digest(text@)),
        identity@ == prefix@ + text_digest(text@),
        is_bounded_text(identity@, MAX_ID_BYTES as nat, false),
{
    let digest = digest_of(text);
    let identity = joined(prefix, digest.as_str());
    proof {
        hex_digits_are_plain(digest@);
        assert forall|i: int|
            0 <= i < identity@.len() implies is_plain(#[trigger] identity@[i]) by {
            if i < prefix@.len() {
                assert(identity@[i] == prefix@[i]);
            } else {
                assert(identity@[i] == digest@[i - prefix@.len()]);
            }
        }
        plain_text_is_bounded(identity@, MAX_ID_BYTES as nat, false);
    }
    identity
}

/// A project.
#[derive(Debug, PartialEq, Eq)]
pub struct ProjectRef {
    pub namespace: ProjectNamespace,
    pub project_id: ProjectId,
}

/// The model of [`ProjectRef`].
pub struct ProjectRefView {
    pub namespace: Seq<char>,
    pub project_id: Seq<char>,
}

impl DeepView for ProjectRef {
    type V = ProjectRefView;

    open spec fn deep_view(&self) -> ProjectRefView {
        ProjectRefView {
            namespace: self.namespace.deep_view(),
            project_id: self.project_id.deep_view(),
        }
    }
}

impl Record for ProjectRef {
    fn copied(&self) -> (copy: Self) {
        ProjectRef {
            namespace: self.namespace.copied(),
            project_id: self.project_id.copied(),
        }
    }

    fn same(&self, other: &Self) -> (same: bool) {
        self.namespace.same(&other.namespace)
            && self.project_id.same(&other.project_id)
    }
}

impl Clone for ProjectRef {
    fn clone(&self) -> (copy: Self)
        ensures
            copy.deep_view() == self.deep_view(),
    {
        self.copied()
    }
}

impl ProjectRefView {
    /// The members of the JSON object.
    pub open spec fn members(self) -> Seq<(Seq<char>, Seq<char>)> {
        seq![
            ("namespace"@, <ProjectNamespace as ToJson>::json(self.namespace)),
            ("project_id"@, <ProjectId as ToJson>::json(self.project_id)),
        ]
    }
}

impl ToJson for ProjectRef {
    open spec fn json(model: ProjectRefView) -> Seq<char> {
        json_object(model.members())
    }

    fn to_json(&self) -> (text: String) {
        let object = JsonObject::new()
            .member("namespace", self.namespace.to_json())
            .member("project_id", self.project_id.to_json());
        assert(object.members() =~= self.deep_view().members());
        object.finish()
    }
}

/// What kind of source a fact comes from.
#[derive(Debug, Clone, Copy, PartialEq, Eq, PartialOrd, Ord, Hash, Structural)]
pub enum MemorySourceCategory {
    SpecificationStructure,
    ApprovedOutcome,
    ArchiveManifest,
    RuntimeProvenance,
    TaskBody,
    SubmissionBody,
    ReviewBody,
    PatchBody,
    CheckLogBody,
    QuestionBody,
    AnswerBody,
    ConsultationBody,
    IntegrationErrorBody,
}

impl DeepView for MemorySourceCategory {
    type V = MemorySourceCategory;

    open spec fn deep_view(&self) -> MemorySourceCategory {
        *self
    }
}

impl MemorySourceCategory {
    /// The name in stored and transmitted records.
    pub open spec fn name(self) -> Seq<char> {
        match self {
            MemorySourceCategory::SpecificationStructure => "specification_structure"@,
            MemorySourceCategory::ApprovedOutcome => "approved_outcome"@,
            MemorySourceCategory::ArchiveManifest => "archive_manifest"@,
            MemorySourceCategory::RuntimeProvenance => "runtime_provenance"@,
            MemorySourceCategory::TaskBody => "task_body"@,
            MemorySourceCategory::SubmissionBody => "submission_body"@,
            MemorySourceCategory::ReviewBody => "review_body"@,
            MemorySourceCategory::PatchBody => "patch_body"@,
            MemorySourceCategory::CheckLogBody => "check_log_body"@,
            MemorySourceCategory::QuestionBody => "question_body"@,
            MemorySourceCategory::AnswerBody => "answer_body"@,
            MemorySourceCategory::ConsultationBody => "consultation_body"@,
            MemorySourceCategory::IntegrationErrorBody => "integration_error_body"@,
        }
    }

    /// The name in stored and transmitted records.
    pub fn as_str(self) -> (name: &'static str)
        ensures
            name@ == self.name(),
    {
        match self {
            MemorySourceCategory::SpecificationStructure => "specification_structure",
            MemorySourceCategory::ApprovedOutcome => "approved_outcome",
            MemorySourceCategory::ArchiveManifest => "archive_manifest",
            MemorySourceCategory::RuntimeProvenance => "runtime_provenance",
            MemorySourceCategory::TaskBody => "task_body",
            MemorySourceCategory::SubmissionBody => "submission_body",
            MemorySourceCategory::ReviewBody => "review_body",
            MemorySourceCategory::PatchBody => "patch_body",
            MemorySourceCategory::CheckLogBody => "check_log_body",
            MemorySourceCategory::QuestionBody => "question_body",
            MemorySourceCategory::AnswerBody => "answer_body",
            MemorySourceCategory::ConsultationBody => "consultation_body",
            MemorySourceCategory::IntegrationErrorBody => "integration_error_body",
        }
    }

    /// The place in the order of the variants.
    pub open spec fn rank(self) -> u8 {
        match self {
            MemorySourceCategory::SpecificationStructure => 0,
            MemorySourceCategory::ApprovedOutcome => 1,
            MemorySourceCategory::ArchiveManifest => 2,
            MemorySourceCategory::RuntimeProvenance => 3,
            MemorySourceCategory::TaskBody => 4,
            MemorySourceCategory::SubmissionBody => 5,
            MemorySourceCategory::ReviewBody => 6,
            MemorySourceCategory::PatchBody => 7,
            MemorySourceCategory::CheckLogBody => 8,
            MemorySourceCategory::QuestionBody => 9,
            MemorySourceCategory::AnswerBody => 10,
            MemorySourceCategory::ConsultationBody => 11,
            MemorySourceCategory::IntegrationErrorBody => 12,
        }
    }

    /// The place in the order of the variants.
    pub fn place(self) -> (place: u8)
        ensures
            place == self.rank(),
    {
        match self {
            MemorySourceCategory::SpecificationStructure => 0,
            MemorySourceCategory::ApprovedOutcome => 1,
            MemorySourceCategory::ArchiveManifest => 2,
            MemorySourceCategory::RuntimeProvenance => 3,
            MemorySourceCategory::TaskBody => 4,
            MemorySourceCategory::SubmissionBody => 5,
            MemorySourceCategory::ReviewBody => 6,
            MemorySourceCategory::PatchBody => 7,
            MemorySourceCategory::CheckLogBody => 8,
            MemorySourceCategory::QuestionBody => 9,
            MemorySourceCategory::AnswerBody => 10,
            MemorySourceCategory::ConsultationBody => 11,
            MemorySourceCategory::IntegrationErrorBody => 12,
        }
    }
}

impl Record for MemorySourceCategory {
    fn copied(&self) -> (copy: Self) {
        *self
    }

    fn same(&self, other: &Self) -> (same: bool) {
        *self == *other
    }
}

impl ToJson for MemorySourceCategory {
    open spec fn json(model: MemorySourceCategory) -> Seq<char> {
        json_string(model.name())
    }

    fn to_json(&self) -> (text: String) {
        text_json(self.as_str())
    }
}

impl MemorySourceCategory {
    /// Every category, in order.
    pub const ALL: [MemorySourceCategory; 13] = [
        MemorySourceCategory::SpecificationStructure,
        MemorySourceCategory::ApprovedOutcome,
        MemorySourceCategory::ArchiveManifest,
        MemorySourceCategory::RuntimeProvenance,
        MemorySourceCategory::TaskBody,
        MemorySourceCategory::SubmissionBody,
        MemorySourceCategory::ReviewBody,
        MemorySourceCategory::PatchBody,
        MemorySourceCategory::CheckLogBody,
        MemorySourceCategory::QuestionBody,
        MemorySourceCategory::AnswerBody,
        MemorySourceCategory::ConsultationBody,
        MemorySourceCategory::IntegrationErrorBody,
    ];
}

/// Where a source is, in terms that every checkout of the project shares.
#[derive(Debug, PartialEq, Eq)]
#[allow(inconsistent_fields)]
pub enum MemorySourceLocator {
    TrackedFile {
        path: RepoPath,
    },
    ArchiveManifest {
        archive_id: MemoryRecordId,
    },
    RuntimeRecords {
        record_type: MemoryStatusToken,
    },
}

/// The model of [`MemorySourceLocator`].
#[allow(inconsistent_fields)]
pub enum MemorySourceLocatorView {
    TrackedFile {
        path: Seq<char>,
    },
    ArchiveManifest {
        archive_id: Seq<char>,
    },
    RuntimeRecords {
        record_type: Seq<char>,
    },
}

impl DeepView for MemorySourceLocator {
    type V = MemorySourceLocatorView;

    open spec fn deep_view(&self) -> MemorySourceLocatorView {
        match self {
            MemorySourceLocator::TrackedFile { path } => MemorySourceLocatorView::TrackedFile {
                path: path.deep_view(),
            },
            MemorySourceLocator::ArchiveManifest { archive_id } => {
                MemorySourceLocatorView::ArchiveManifest { archive_id: archive_id.deep_view() }
            },
            MemorySourceLocator::RuntimeRecords { record_type } => {
                MemorySourceLocatorView::RuntimeRecords { record_type: record_type.deep_view() }
            },
        }
    }
}

impl Record for MemorySourceLocator {
    fn copied(&self) -> (copy: Self) {
        match self {
            MemorySourceLocator::TrackedFile { path } => MemorySourceLocator::TrackedFile {
                path: path.copied(),
            },
            MemorySourceLocator::ArchiveManifest { archive_id } => {
                MemorySourceLocator::ArchiveManifest { archive_id: archive_id.copied() }
            },
            MemorySourceLocator::RuntimeRecords { record_type } => {
                MemorySourceLocator::RuntimeRecords { record_type: record_type.copied() }
            },
        }
    }

    fn same(&self, other: &Self) -> (same: bool) {
        match self {
            MemorySourceLocator::TrackedFile { path: left_path } => match other {
                MemorySourceLocator::TrackedFile { path: right_path } => left_path.same(right_path),
                _ => false,
            },
            MemorySourceLocator::ArchiveManifest { archive_id: left_archive_id } => match other {
                MemorySourceLocator::ArchiveManifest { archive_id: right_archive_id } => {
                    left_archive_id.same(right_archive_id)
                },
                _ => false,
            },
            MemorySourceLocator::RuntimeRecords { record_type: left_record_type } => match other {
                MemorySourceLocator::RuntimeRecords { record_type: right_record_type } => {
                    left_record_type.same(right_record_type)
                },
                _ => false,
            },
        }
    }
}

impl Clone for MemorySourceLocator {
    fn clone(&self) -> (copy: Self)
        ensures
            copy.deep_view() == self.deep_view(),
    {
        self.copied()
    }
}

impl MemorySourceLocatorView {
    /// The members of the JSON object.
    pub open spec fn members(self) -> Seq<(Seq<char>, Seq<char>)> {
        match self {
            MemorySourceLocatorView::TrackedFile { path } => seq![
                ("type"@, json_string("tracked_file"@)),
                ("path"@, <RepoPath as ToJson>::json(path)),
            ],
            MemorySourceLocatorView::ArchiveManifest { archive_id } => seq![
                ("type"@, json_string("archive_manifest"@)),
                ("archive_id"@, <MemoryRecordId as ToJson>::json(archive_id)),
            ],
            MemorySourceLocatorView::RuntimeRecords { record_type } => seq![
                ("type"@, json_string("runtime_records"@)),
                ("record_type"@, <MemoryStatusToken as ToJson>::json(record_type)),
            ],
        }
    }
}

impl ToJson for MemorySourceLocator {
    open spec fn json(model: MemorySourceLocatorView) -> Seq<char> {
        json_object(model.members())
    }

    fn to_json(&self) -> (text: String) {
        let object = match self {
            MemorySourceLocator::TrackedFile { path } => JsonObject::new()
                .member("type", text_json("tracked_file"))
                .member("path", path.to_json()),
            MemorySourceLocator::ArchiveManifest { archive_id } => {
                JsonObject::new()
                    .member("type", text_json("archive_manifest"))
                    .member("archive_id", archive_id.to_json())
            },
            MemorySourceLocator::RuntimeRecords { record_type } => {
                JsonObject::new()
                    .member("type", text_json("runtime_records"))
                    .member("record_type", record_type.to_json())
            },
        };
        assert(object.members() =~= self.deep_view().members());
        object.finish()
    }
}

/// Where in its source a fact stands.
#[derive(Debug, PartialEq, Eq)]
#[allow(inconsistent_fields)]
pub enum MemoryEvidenceLocator {
    Span(SourceSpan),
    Record(MemoryRecordId),
}

/// The model of [`MemoryEvidenceLocator`].
#[allow(inconsistent_fields)]
pub enum MemoryEvidenceLocatorView {
    Span(SourceSpanView),
    Record(Seq<char>),
}

impl DeepView for MemoryEvidenceLocator {
    type V = MemoryEvidenceLocatorView;

    open spec fn deep_view(&self) -> MemoryEvidenceLocatorView {
        match self {
            MemoryEvidenceLocator::Span(value) => {
                MemoryEvidenceLocatorView::Span(value.deep_view())
            },
            MemoryEvidenceLocator::Record(value) => {
                MemoryEvidenceLocatorView::Record(value.deep_view())
            },
        }
    }
}

impl Record for MemoryEvidenceLocator {
    fn copied(&self) -> (copy: Self) {
        match self {
            MemoryEvidenceLocator::Span(value) => MemoryEvidenceLocator::Span(value.copied()),
            MemoryEvidenceLocator::Record(value) => MemoryEvidenceLocator::Record(value.copied()),
        }
    }

    fn same(&self, other: &Self) -> (same: bool) {
        match self {
            MemoryEvidenceLocator::Span(left) => match other {
                MemoryEvidenceLocator::Span(right) => left.same(right),
                _ => false,
            },
            MemoryEvidenceLocator::Record(left) => match other {
                MemoryEvidenceLocator::Record(right) => left.same(right),
                _ => false,
            },
        }
    }
}

impl Clone for MemoryEvidenceLocator {
    fn clone(&self) -> (copy: Self)
        ensures
            copy.deep_view() == self.deep_view(),
    {
        self.copied()
    }
}

impl MemoryEvidenceLocatorView {
    /// The members of the JSON object.
    pub open spec fn members(self) -> Seq<(Seq<char>, Seq<char>)> {
        match self {
            MemoryEvidenceLocatorView::Span(value) => seq![
                ("type"@, json_string("span"@)),
                ("value"@, <SourceSpan as ToJson>::json(value)),
            ],
            MemoryEvidenceLocatorView::Record(value) => seq![
                ("type"@, json_string("record"@)),
                ("value"@, <MemoryRecordId as ToJson>::json(value)),
            ],
        }
    }
}

impl ToJson for MemoryEvidenceLocator {
    open spec fn json(model: MemoryEvidenceLocatorView) -> Seq<char> {
        json_object(model.members())
    }

    fn to_json(&self) -> (text: String) {
        let object = match self {
            MemoryEvidenceLocator::Span(value) => JsonObject::new()
                .member("type", text_json("span"))
                .member("value", value.to_json()),
            MemoryEvidenceLocator::Record(value) => JsonObject::new()
                .member("type", text_json("record"))
                .member("value", value.to_json()),
        };
        assert(object.members() =~= self.deep_view().members());
        object.finish()
    }
}

/// Which extractor made a fact.
#[derive(Debug, PartialEq, Eq)]
pub struct MemoryExtractorIdentity {
    pub id: MemoryExtractorId,
    pub version: MemoryStatusToken,
    pub contract_version: u32,
}

/// The model of [`MemoryExtractorIdentity`].
pub struct MemoryExtractorIdentityView {
    pub id: Seq<char>,
    pub version: Seq<char>,
    pub contract_version: u32,
}

impl DeepView for MemoryExtractorIdentity {
    type V = MemoryExtractorIdentityView;

    open spec fn deep_view(&self) -> MemoryExtractorIdentityView {
        MemoryExtractorIdentityView {
            id: self.id.deep_view(),
            version: self.version.deep_view(),
            contract_version: self.contract_version.deep_view(),
        }
    }
}

impl Record for MemoryExtractorIdentity {
    fn copied(&self) -> (copy: Self) {
        MemoryExtractorIdentity {
            id: self.id.copied(),
            version: self.version.copied(),
            contract_version: self.contract_version.copied(),
        }
    }

    fn same(&self, other: &Self) -> (same: bool) {
        self.id.same(&other.id)
            && self.version.same(&other.version)
            && self.contract_version.same(&other.contract_version)
    }
}

impl Clone for MemoryExtractorIdentity {
    fn clone(&self) -> (copy: Self)
        ensures
            copy.deep_view() == self.deep_view(),
    {
        self.copied()
    }
}

impl MemoryExtractorIdentityView {
    /// The members of the JSON object.
    pub open spec fn members(self) -> Seq<(Seq<char>, Seq<char>)> {
        seq![
            ("id"@, <MemoryExtractorId as ToJson>::json(self.id)),
            ("version"@, <MemoryStatusToken as ToJson>::json(self.version)),
            ("contract_version"@, <u32 as ToJson>::json(self.contract_version)),
        ]
    }
}

impl ToJson for MemoryExtractorIdentity {
    open spec fn json(model: MemoryExtractorIdentityView) -> Seq<char> {
        json_object(model.members())
    }

    fn to_json(&self) -> (text: String) {
        let object = JsonObject::new()
            .member("id", self.id.to_json())
            .member("version", self.version.to_json())
            .member("contract_version", self.contract_version.to_json());
        assert(object.members() =~= self.deep_view().members());
        object.finish()
    }
}

impl MemoryExtractorIdentity {
    /// The identity of an extractor that keeps the current contract.
    pub fn current(id: MemoryExtractorId, version: MemoryStatusToken) -> (identity: Self)
        ensures
            identity.deep_view() == (MemoryExtractorIdentityView {
                id: id.deep_view(),
                version: version.deep_view(),
                contract_version: crate::MEMORY_EXTRACTOR_CONTRACT_VERSION,
            }),
    {
        MemoryExtractorIdentity {
            id,
            version,
            contract_version: crate::MEMORY_EXTRACTOR_CONTRACT_VERSION,
        }
    }
}

/// Whether a relationship's target was found.
#[derive(Debug, Clone, Copy, PartialEq, Eq, PartialOrd, Ord, Hash, Structural)]
pub enum MemoryResolutionState {
    Resolved,
    Unresolved,
    Stale,
}

impl DeepView for MemoryResolutionState {
    type V = MemoryResolutionState;

    open spec fn deep_view(&self) -> MemoryResolutionState {
        *self
    }
}

impl MemoryResolutionState {
    /// The name in stored and transmitted records.
    pub open spec fn name(self) -> Seq<char> {
        match self {
            MemoryResolutionState::Resolved => "resolved"@,
            MemoryResolutionState::Unresolved => "unresolved"@,
            MemoryResolutionState::Stale => "stale"@,
        }
    }

    /// The name in stored and transmitted records.
    pub fn as_str(self) -> (name: &'static str)
        ensures
            name@ == self.name(),
    {
        match self {
            MemoryResolutionState::Resolved => "resolved",
            MemoryResolutionState::Unresolved => "unresolved",
            MemoryResolutionState::Stale => "stale",
        }
    }
}

impl Record for MemoryResolutionState {
    fn copied(&self) -> (copy: Self) {
        *self
    }

    fn same(&self, other: &Self) -> (same: bool) {
        *self == *other
    }
}

impl ToJson for MemoryResolutionState {
    open spec fn json(model: MemoryResolutionState) -> Seq<char> {
        json_string(model.name())
    }

    fn to_json(&self) -> (text: String) {
        text_json(self.as_str())
    }
}

/// How certain a fact is.
#[derive(Debug, Clone, Copy, PartialEq, Eq, PartialOrd, Ord, Hash, Structural)]
pub enum MemoryConfidence {
    Exact,
    High,
    Medium,
    Low,
}

impl DeepView for MemoryConfidence {
    type V = MemoryConfidence;

    open spec fn deep_view(&self) -> MemoryConfidence {
        *self
    }
}

impl MemoryConfidence {
    /// The name in stored and transmitted records.
    pub open spec fn name(self) -> Seq<char> {
        match self {
            MemoryConfidence::Exact => "exact"@,
            MemoryConfidence::High => "high"@,
            MemoryConfidence::Medium => "medium"@,
            MemoryConfidence::Low => "low"@,
        }
    }

    /// The name in stored and transmitted records.
    pub fn as_str(self) -> (name: &'static str)
        ensures
            name@ == self.name(),
    {
        match self {
            MemoryConfidence::Exact => "exact",
            MemoryConfidence::High => "high",
            MemoryConfidence::Medium => "medium",
            MemoryConfidence::Low => "low",
        }
    }
}

impl Record for MemoryConfidence {
    fn copied(&self) -> (copy: Self) {
        *self
    }

    fn same(&self, other: &Self) -> (same: bool) {
        *self == *other
    }
}

impl ToJson for MemoryConfidence {
    open spec fn json(model: MemoryConfidence) -> Seq<char> {
        json_string(model.name())
    }

    fn to_json(&self) -> (text: String) {
        text_json(self.as_str())
    }
}

/// When a fact's source was seen and when the fact was indexed, in RFC 3339 notation.
#[derive(Debug, PartialEq, Eq)]
pub struct MemoryIndexTimestamps {
    pub source_observed_at: String,
    pub indexed_at: String,
}

/// The model of [`MemoryIndexTimestamps`].
pub struct MemoryIndexTimestampsView {
    pub source_observed_at: Seq<char>,
    pub indexed_at: Seq<char>,
}

impl DeepView for MemoryIndexTimestamps {
    type V = MemoryIndexTimestampsView;

    open spec fn deep_view(&self) -> MemoryIndexTimestampsView {
        MemoryIndexTimestampsView {
            source_observed_at: self.source_observed_at.deep_view(),
            indexed_at: self.indexed_at.deep_view(),
        }
    }
}

impl Record for MemoryIndexTimestamps {
    fn copied(&self) -> (copy: Self) {
        MemoryIndexTimestamps {
            source_observed_at: self.source_observed_at.copied(),
            indexed_at: self.indexed_at.copied(),
        }
    }

    fn same(&self, other: &Self) -> (same: bool) {
        self.source_observed_at.same(&other.source_observed_at)
            && self.indexed_at.same(&other.indexed_at)
    }
}

impl Clone for MemoryIndexTimestamps {
    fn clone(&self) -> (copy: Self)
        ensures
            copy.deep_view() == self.deep_view(),
    {
        self.copied()
    }
}

impl MemoryIndexTimestampsView {
    /// The members of the JSON object.
    pub open spec fn members(self) -> Seq<(Seq<char>, Seq<char>)> {
        seq![
            ("source_observed_at"@, <String as ToJson>::json(self.source_observed_at)),
            ("indexed_at"@, <String as ToJson>::json(self.indexed_at)),
        ]
    }
}

impl ToJson for MemoryIndexTimestamps {
    open spec fn json(model: MemoryIndexTimestampsView) -> Seq<char> {
        json_object(model.members())
    }

    fn to_json(&self) -> (text: String) {
        let object = JsonObject::new()
            .member("source_observed_at", self.source_observed_at.to_json())
            .member("indexed_at", self.indexed_at.to_json());
        assert(object.members() =~= self.deep_view().members());
        object.finish()
    }
}

/// Where a fact comes from.
/// 
/// Locators are portable: absolute paths and free-form messages cannot stand here.
#[derive(Debug, PartialEq, Eq)]
pub struct MemoryProvenance {
    pub source_category: MemorySourceCategory,
    pub source_locator: MemorySourceLocator,
    pub source_fingerprint: Digest,
    pub extractor: MemoryExtractorIdentity,
    pub evidence: MemoryEvidenceLocator,
    pub resolution: MemoryResolutionState,
    pub confidence: MemoryConfidence,
    pub timestamps: MemoryIndexTimestamps,
}

/// The model of [`MemoryProvenance`].
pub struct MemoryProvenanceView {
    pub source_category: MemorySourceCategory,
    pub source_locator: MemorySourceLocatorView,
    pub source_fingerprint: DigestView,
    pub extractor: MemoryExtractorIdentityView,
    pub evidence: MemoryEvidenceLocatorView,
    pub resolution: MemoryResolutionState,
    pub confidence: MemoryConfidence,
    pub timestamps: MemoryIndexTimestampsView,
}

impl DeepView for MemoryProvenance {
    type V = MemoryProvenanceView;

    open spec fn deep_view(&self) -> MemoryProvenanceView {
        MemoryProvenanceView {
            source_category: self.source_category.deep_view(),
            source_locator: self.source_locator.deep_view(),
            source_fingerprint: self.source_fingerprint.deep_view(),
            extractor: self.extractor.deep_view(),
            evidence: self.evidence.deep_view(),
            resolution: self.resolution.deep_view(),
            confidence: self.confidence.deep_view(),
            timestamps: self.timestamps.deep_view(),
        }
    }
}

impl Record for MemoryProvenance {
    fn copied(&self) -> (copy: Self) {
        MemoryProvenance {
            source_category: self.source_category.copied(),
            source_locator: self.source_locator.copied(),
            source_fingerprint: self.source_fingerprint.copied(),
            extractor: self.extractor.copied(),
            evidence: self.evidence.copied(),
            resolution: self.resolution.copied(),
            confidence: self.confidence.copied(),
            timestamps: self.timestamps.copied(),
        }
    }

    fn same(&self, other: &Self) -> (same: bool) {
        self.source_category.same(&other.source_category)
            && self.source_locator.same(&other.source_locator)
            && self.source_fingerprint.same(&other.source_fingerprint)
            && self.extractor.same(&other.extractor)
            && self.evidence.same(&other.evidence)
            && self.resolution.same(&other.resolution)
            && self.confidence.same(&other.confidence)
            && self.timestamps.same(&other.timestamps)
    }
}

impl Clone for MemoryProvenance {
    fn clone(&self) -> (copy: Self)
        ensures
            copy.deep_view() == self.deep_view(),
    {
        self.copied()
    }
}

impl MemoryProvenanceView {
    /// The members of the JSON object.
    pub open spec fn members(self) -> Seq<(Seq<char>, Seq<char>)> {
        seq![
            ("source_category"@, <MemorySourceCategory as ToJson>::json(self.source_category)),
            ("source_locator"@, <MemorySourceLocator as ToJson>::json(self.source_locator)),
            ("source_fingerprint"@, <Digest as ToJson>::json(self.source_fingerprint)),
            ("extractor"@, <MemoryExtractorIdentity as ToJson>::json(self.extractor)),
            ("evidence"@, <MemoryEvidenceLocator as ToJson>::json(self.evidence)),
            ("resolution"@, <MemoryResolutionState as ToJson>::json(self.resolution)),
            ("confidence"@, <MemoryConfidence as ToJson>::json(self.confidence)),
            ("timestamps"@, <MemoryIndexTimestamps as ToJson>::json(self.timestamps)),
        ]
    }
}

impl ToJson for MemoryProvenance {
    open spec fn json(model: MemoryProvenanceView) -> Seq<char> {
        json_object(model.members())
    }

    fn to_json(&self) -> (text: String) {
        let object = JsonObject::new()
            .member("source_category", self.source_category.to_json())
            .member("source_locator", self.source_locator.to_json())
            .member("source_fingerprint", self.source_fingerprint.to_json())
            .member("extractor", self.extractor.to_json())
            .member("evidence", self.evidence.to_json())
            .member("resolution", self.resolution.to_json())
            .member("confidence", self.confidence.to_json())
            .member("timestamps", self.timestamps.to_json());
        assert(object.members() =~= self.deep_view().members());
        object.finish()
    }
}

/// Whether a milestone is done.
#[derive(Debug, Clone, Copy, PartialEq, Eq, PartialOrd, Ord, Hash, Structural)]
pub enum MilestoneCompletion {
    Pending,
    Complete,
}

impl DeepView for MilestoneCompletion {
    type V = MilestoneCompletion;

    open spec fn deep_view(&self) -> MilestoneCompletion {
        *self
    }
}

impl MilestoneCompletion {
    /// The name in stored and transmitted records.
    pub open spec fn name(self) -> Seq<char> {
        match self {
            MilestoneCompletion::Pending => "pending"@,
            MilestoneCompletion::Complete => "complete"@,
        }
    }

    /// The name in stored and transmitted records.
    pub fn as_str(self) -> (name: &'static str)
        ensures
            name@ == self.name(),
    {
        match self {
            MilestoneCompletion::Pending => "pending",
            MilestoneCompletion::Complete => "complete",
        }
    }
}

impl Record for MilestoneCompletion {
    fn copied(&self) -> (copy: Self) {
        *self
    }

    fn same(&self, other: &Self) -> (same: bool) {
        *self == *other
    }
}

impl ToJson for MilestoneCompletion {
    open spec fn json(model: MilestoneCompletion) -> Seq<char> {
        json_string(model.name())
    }

    fn to_json(&self) -> (text: String) {
        text_json(self.as_str())
    }
}

/// What an entity says.
#[derive(Debug, PartialEq, Eq)]
#[allow(inconsistent_fields)]
pub enum MemoryEntityData {
    Specification {
        title: MemoryTitle,
    },
    Milestone {
        milestone_id: MemoryRecordId,
        title: MemoryTitle,
        completion: MilestoneCompletion,
    },
    Outcome {
        text: MemoryText,
    },
    Decision {
        text: MemoryText,
    },
    Deviation {
        text: MemoryText,
    },
    ValidationEvidence {
        text: Option<MemoryText>,
        check_id: Option<MemoryRecordId>,
        status: Option<MemoryStatusToken>,
    },
    FollowUpWork {
        text: MemoryText,
        milestone_id: Option<MemoryRecordId>,
    },
    ArchiveReference {
        archive_id: MemoryRecordId,
        spec_path: RepoPath,
        archived_at: MemoryStatusToken,
        task_count: u64,
        run_count: u64,
    },
    TaskReference {
        task_id: MemoryRecordId,
        milestone_id: Option<MemoryRecordId>,
        status: MemoryStatusToken,
        baseline_snapshot_id: Option<SnapshotId>,
        repository_snapshot_id: Option<SnapshotId>,
    },
    RunReference {
        run_id: MemoryRecordId,
        task_id: MemoryRecordId,
        status: MemoryStatusToken,
        check_ids: Vec<MemoryRecordId>,
        baseline_snapshot_id: Option<SnapshotId>,
        repository_snapshot_id: Option<SnapshotId>,
    },
}

/// The model of [`MemoryEntityData`].
#[allow(inconsistent_fields)]
pub enum MemoryEntityDataView {
    Specification {
        title: Seq<char>,
    },
    Milestone {
        milestone_id: Seq<char>,
        title: Seq<char>,
        completion: MilestoneCompletion,
    },
    Outcome {
        text: Seq<char>,
    },
    Decision {
        text: Seq<char>,
    },
    Deviation {
        text: Seq<char>,
    },
    ValidationEvidence {
        text: Option<Seq<char>>,
        check_id: Option<Seq<char>>,
        status: Option<Seq<char>>,
    },
    FollowUpWork {
        text: Seq<char>,
        milestone_id: Option<Seq<char>>,
    },
    ArchiveReference {
        archive_id: Seq<char>,
        spec_path: Seq<char>,
        archived_at: Seq<char>,
        task_count: u64,
        run_count: u64,
    },
    TaskReference {
        task_id: Seq<char>,
        milestone_id: Option<Seq<char>>,
        status: Seq<char>,
        baseline_snapshot_id: Option<Seq<char>>,
        repository_snapshot_id: Option<Seq<char>>,
    },
    RunReference {
        run_id: Seq<char>,
        task_id: Seq<char>,
        status: Seq<char>,
        check_ids: Seq<Seq<char>>,
        baseline_snapshot_id: Option<Seq<char>>,
        repository_snapshot_id: Option<Seq<char>>,
    },
}

impl DeepView for MemoryEntityData {
    type V = MemoryEntityDataView;

    open spec fn deep_view(&self) -> MemoryEntityDataView {
        match self {
            MemoryEntityData::Specification { title } => MemoryEntityDataView::Specification {
                title: title.deep_view(),
            },
            MemoryEntityData::Milestone { milestone_id, title, completion } => {
                MemoryEntityDataView::Milestone {
                    milestone_id: milestone_id.deep_view(),
                    title: title.deep_view(),
                    completion: completion.deep_view(),
                }
            },
            MemoryEntityData::Outcome { text } => MemoryEntityDataView::Outcome {
                text: text.deep_view(),
            },
            MemoryEntityData::Decision { text } => MemoryEntityDataView::Decision {
                text: text.deep_view(),
            },
            MemoryEntityData::Deviation { text } => MemoryEntityDataView::Deviation {
                text: text.deep_view(),
            },
            MemoryEntityData::ValidationEvidence { text, check_id, status } => {
                MemoryEntityDataView::ValidationEvidence {
                    text: text.deep_view(),
                    check_id: check_id.deep_view(),
                    status: status.deep_view(),
                }
            },
            MemoryEntityData::FollowUpWork { text, milestone_id } => {
                MemoryEntityDataView::FollowUpWork {
                    text: text.deep_view(),
                    milestone_id: milestone_id.deep_view(),
                }
            },
            MemoryEntityData::ArchiveReference {
                archive_id,
                spec_path,
                archived_at,
                task_count,
                run_count,
            } => MemoryEntityDataView::ArchiveReference {
                archive_id: archive_id.deep_view(),
                spec_path: spec_path.deep_view(),
                archived_at: archived_at.deep_view(),
                task_count: task_count.deep_view(),
                run_count: run_count.deep_view(),
            },
            MemoryEntityData::TaskReference {
                task_id,
                milestone_id,
                status,
                baseline_snapshot_id,
                repository_snapshot_id,
            } => MemoryEntityDataView::TaskReference {
                task_id: task_id.deep_view(),
                milestone_id: milestone_id.deep_view(),
                status: status.deep_view(),
                baseline_snapshot_id: baseline_snapshot_id.deep_view(),
                repository_snapshot_id: repository_snapshot_id.deep_view(),
            },
            MemoryEntityData::RunReference {
                run_id,
                task_id,
                status,
                check_ids,
                baseline_snapshot_id,
                repository_snapshot_id,
            } => MemoryEntityDataView::RunReference {
                run_id: run_id.deep_view(),
                task_id: task_id.deep_view(),
                status: status.deep_view(),
                check_ids: check_ids.deep_view(),
                baseline_snapshot_id: baseline_snapshot_id.deep_view(),
                repository_snapshot_id: repository_snapshot_id.deep_view(),
            },
        }
    }
}

impl Record for MemoryEntityData {
    fn copied(&self) -> (copy: Self) {
        match self {
            MemoryEntityData::Specification { title } => MemoryEntityData::Specification {
                title: title.copied(),
            },
            MemoryEntityData::Milestone { milestone_id, title, completion } => {
                MemoryEntityData::Milestone {
                    milestone_id: milestone_id.copied(),
                    title: title.copied(),
                    completion: completion.copied(),
                }
            },
            MemoryEntityData::Outcome { text } => MemoryEntityData::Outcome { text: text.copied() },
            MemoryEntityData::Decision { text } => MemoryEntityData::Decision {
                text: text.copied(),
            },
            MemoryEntityData::Deviation { text } => MemoryEntityData::Deviation {
                text: text.copied(),
            },
            MemoryEntityData::ValidationEvidence { text, check_id, status } => {
                MemoryEntityData::ValidationEvidence {
                    text: text.copied(),
                    check_id: check_id.copied(),
                    status: status.copied(),
                }
            },
            MemoryEntityData::FollowUpWork { text, milestone_id } => {
                MemoryEntityData::FollowUpWork {
                    text: text.copied(),
                    milestone_id: milestone_id.copied(),
                }
            },
            MemoryEntityData::ArchiveReference {
                archive_id,
                spec_path,
                archived_at,
                task_count,
                run_count,
            } => MemoryEntityData::ArchiveReference {
                archive_id: archive_id.copied(),
                spec_path: spec_path.copied(),
                archived_at: archived_at.copied(),
                task_count: task_count.copied(),
                run_count: run_count.copied(),
            },
            MemoryEntityData::TaskReference {
                task_id,
                milestone_id,
                status,
                baseline_snapshot_id,
                repository_snapshot_id,
            } => MemoryEntityData::TaskReference {
                task_id: task_id.copied(),
                milestone_id: milestone_id.copied(),
                status: status.copied(),
                baseline_snapshot_id: baseline_snapshot_id.copied(),
                repository_snapshot_id: repository_snapshot_id.copied(),
            },
            MemoryEntityData::RunReference {
                run_id,
                task_id,
                status,
                check_ids,
                baseline_snapshot_id,
                repository_snapshot_id,
            } => MemoryEntityData::RunReference {
                run_id: run_id.copied(),
                task_id: task_id.copied(),
                status: status.copied(),
                check_ids: check_ids.copied(),
                baseline_snapshot_id: baseline_snapshot_id.copied(),
                repository_snapshot_id: repository_snapshot_id.copied(),
            },
        }
    }

    fn same(&self, other: &Self) -> (same: bool) {
        match self {
            MemoryEntityData::Specification { title: left_title } => match other {
                MemoryEntityData::Specification { title: right_title } => {
                    left_title.same(right_title)
                },
                _ => false,
            },
            MemoryEntityData::Milestone {
                milestone_id: left_milestone_id,
                title: left_title,
                completion: left_completion,
            } => match other {
                MemoryEntityData::Milestone {
                    milestone_id: right_milestone_id,
                    title: right_title,
                    completion: right_completion,
                } => {
                    left_milestone_id.same(right_milestone_id)
                        && left_title.same(right_title)
                        && left_completion.same(right_completion)
                },
                _ => false,
            },
            MemoryEntityData::Outcome { text: left_text } => match other {
                MemoryEntityData::Outcome { text: right_text } => left_text.same(right_text),
                _ => false,
            },
            MemoryEntityData::Decision { text: left_text } => match other {
                MemoryEntityData::Decision { text: right_text } => left_text.same(right_text),
                _ => false,
            },
            MemoryEntityData::Deviation { text: left_text } => match other {
                MemoryEntityData::Deviation { text: right_text } => left_text.same(right_text),
                _ => false,
            },
            MemoryEntityData::ValidationEvidence {
                text: left_text,
                check_id: left_check_id,
                status: left_status,
            } => match other {
                MemoryEntityData::ValidationEvidence {
                    text: right_text,
                    check_id: right_check_id,
                    status: right_status,
                } => {
                    left_text.same(right_text)
                        && left_check_id.same(right_check_id)
                        && left_status.same(right_status)
                },
                _ => false,
            },
            MemoryEntityData::FollowUpWork {
                text: left_text,
                milestone_id: left_milestone_id,
            } => match other {
                MemoryEntityData::FollowUpWork {
                    text: right_text,
                    milestone_id: right_milestone_id,
                } => {
                    left_text.same(right_text) && left_milestone_id.same(right_milestone_id)
                },
                _ => false,
            },
            MemoryEntityData::ArchiveReference {
                archive_id: left_archive_id,
                spec_path: left_spec_path,
                archived_at: left_archived_at,
                task_count: left_task_count,
                run_count: left_run_count,
            } => match other {
                MemoryEntityData::ArchiveReference {
                    archive_id: right_archive_id,
                    spec_path: right_spec_path,
                    archived_at: right_archived_at,
                    task_count: right_task_count,
                    run_count: right_run_count,
                } => {
                    left_archive_id.same(right_archive_id)
                        && left_spec_path.same(right_spec_path)
                        && left_archived_at.same(right_archived_at)
                        && left_task_count.same(right_task_count)
                        && left_run_count.same(right_run_count)
                },
                _ => false,
            },
            MemoryEntityData::TaskReference {
                task_id: left_task_id,
                milestone_id: left_milestone_id,
                status: left_status,
                baseline_snapshot_id: left_baseline_snapshot_id,
                repository_snapshot_id: left_repository_snapshot_id,
            } => match other {
                MemoryEntityData::TaskReference {
                    task_id: right_task_id,
                    milestone_id: right_milestone_id,
                    status: right_status,
                    baseline_snapshot_id: right_baseline_snapshot_id,
                    repository_snapshot_id: right_repository_snapshot_id,
                } => {
                    left_task_id.same(right_task_id)
                        && left_milestone_id.same(right_milestone_id)
                        && left_status.same(right_status)
                        && left_baseline_snapshot_id.same(right_baseline_snapshot_id)
                        && left_repository_snapshot_id.same(right_repository_snapshot_id)
                },
                _ => false,
            },
            MemoryEntityData::RunReference {
                run_id: left_run_id,
                task_id: left_task_id,
                status: left_status,
                check_ids: left_check_ids,
                baseline_snapshot_id: left_baseline_snapshot_id,
                repository_snapshot_id: left_repository_snapshot_id,
            } => match other {
                MemoryEntityData::RunReference {
                    run_id: right_run_id,
                    task_id: right_task_id,
                    status: right_status,
                    check_ids: right_check_ids,
                    baseline_snapshot_id: right_baseline_snapshot_id,
                    repository_snapshot_id: right_repository_snapshot_id,
                } => {
                    left_run_id.same(right_run_id)
                        && left_task_id.same(right_task_id)
                        && left_status.same(right_status)
                        && left_check_ids.same(right_check_ids)
                        && left_baseline_snapshot_id.same(right_baseline_snapshot_id)
                        && left_repository_snapshot_id.same(right_repository_snapshot_id)
                },
                _ => false,
            },
        }
    }
}

impl Clone for MemoryEntityData {
    fn clone(&self) -> (copy: Self)
        ensures
            copy.deep_view() == self.deep_view(),
    {
        self.copied()
    }
}

impl MemoryEntityDataView {
    /// The members of the JSON object.
    pub open spec fn members(self) -> Seq<(Seq<char>, Seq<char>)> {
        match self {
            MemoryEntityDataView::Specification { title } => seq![
                ("type"@, json_string("specification"@)),
                ("title"@, <MemoryTitle as ToJson>::json(title)),
            ],
            MemoryEntityDataView::Milestone { milestone_id, title, completion } => seq![
                ("type"@, json_string("milestone"@)),
                ("milestone_id"@, <MemoryRecordId as ToJson>::json(milestone_id)),
                ("title"@, <MemoryTitle as ToJson>::json(title)),
                ("completion"@, <MilestoneCompletion as ToJson>::json(completion)),
            ],
            MemoryEntityDataView::Outcome { text } => seq![
                ("type"@, json_string("outcome"@)),
                ("text"@, <MemoryText as ToJson>::json(text)),
            ],
            MemoryEntityDataView::Decision { text } => seq![
                ("type"@, json_string("decision"@)),
                ("text"@, <MemoryText as ToJson>::json(text)),
            ],
            MemoryEntityDataView::Deviation { text } => seq![
                ("type"@, json_string("deviation"@)),
                ("text"@, <MemoryText as ToJson>::json(text)),
            ],
            MemoryEntityDataView::ValidationEvidence { text, check_id, status } => seq![
                ("type"@, json_string("validation_evidence"@)),
                ("text"@, <Option<MemoryText> as ToJson>::json(text)),
                ("check_id"@, <Option<MemoryRecordId> as ToJson>::json(check_id)),
                ("status"@, <Option<MemoryStatusToken> as ToJson>::json(status)),
            ],
            MemoryEntityDataView::FollowUpWork { text, milestone_id } => seq![
                ("type"@, json_string("follow_up_work"@)),
                ("text"@, <MemoryText as ToJson>::json(text)),
                ("milestone_id"@, <Option<MemoryRecordId> as ToJson>::json(milestone_id)),
            ],
            MemoryEntityDataView::ArchiveReference {
                archive_id,
                spec_path,
                archived_at,
                task_count,
                run_count,
            } => seq![
                ("type"@, json_string("archive_reference"@)),
                ("archive_id"@, <MemoryRecordId as ToJson>::json(archive_id)),
                ("spec_path"@, <RepoPath as ToJson>::json(spec_path)),
                ("archived_at"@, <MemoryStatusToken as ToJson>::json(archived_at)),
                ("task_count"@, <u64 as ToJson>::json(task_count)),
                ("run_count"@, <u64 as ToJson>::json(run_count)),
            ],
            MemoryEntityDataView::TaskReference {
                task_id,
                milestone_id,
                status,
                baseline_snapshot_id,
                repository_snapshot_id,
            } => seq![
                ("type"@, json_string("task_reference"@)),
                ("task_id"@, <MemoryRecordId as ToJson>::json(task_id)),
                ("milestone_id"@, <Option<MemoryRecordId> as ToJson>::json(milestone_id)),
                ("status"@, <MemoryStatusToken as ToJson>::json(status)),
                ("baseline_snapshot_id"@, <Option<SnapshotId> as ToJson>::json(baseline_snapshot_id)),
                ("repository_snapshot_id"@, <Option<SnapshotId> as ToJson>::json(repository_snapshot_id)),
            ],
            MemoryEntityDataView::RunReference {
                run_id,
                task_id,
                status,
                check_ids,
                baseline_snapshot_id,
                repository_snapshot_id,
            } => seq![
                ("type"@, json_string("run_reference"@)),
                ("run_id"@, <MemoryRecordId as ToJson>::json(run_id)),
                ("task_id"@, <MemoryRecordId as ToJson>::json(task_id)),
                ("status"@, <MemoryStatusToken as ToJson>::json(status)),
                ("check_ids"@, <Vec<MemoryRecordId> as ToJson>::json(check_ids)),
                ("baseline_snapshot_id"@, <Option<SnapshotId> as ToJson>::json(baseline_snapshot_id)),
                ("repository_snapshot_id"@, <Option<SnapshotId> as ToJson>::json(repository_snapshot_id)),
            ],
        }
    }
}

impl ToJson for MemoryEntityData {
    open spec fn json(model: MemoryEntityDataView) -> Seq<char> {
        json_object(model.members())
    }

    fn to_json(&self) -> (text: String) {
        let object = match self {
            MemoryEntityData::Specification { title } => JsonObject::new()
                .member("type", text_json("specification"))
                .member("title", title.to_json()),
            MemoryEntityData::Milestone { milestone_id, title, completion } => {
                JsonObject::new()
                    .member("type", text_json("milestone"))
                    .member("milestone_id", milestone_id.to_json())
                    .member("title", title.to_json())
                    .member("completion", completion.to_json())
            },
            MemoryEntityData::Outcome { text } => JsonObject::new()
                .member("type", text_json("outcome"))
                .member("text", text.to_json()),
            MemoryEntityData::Decision { text } => JsonObject::new()
                .member("type", text_json("decision"))
                .member("text", text.to_json()),
            MemoryEntityData::Deviation { text } => JsonObject::new()
                .member("type", text_json("deviation"))
                .member("text", text.to_json()),
            MemoryEntityData::ValidationEvidence { text, check_id, status } => {
                JsonObject::new()
                    .member("type", text_json("validation_evidence"))
                    .member("text", text.to_json())
                    .member("check_id", check_id.to_json())
                    .member("status", status.to_json())
            },
            MemoryEntityData::FollowUpWork { text, milestone_id } => {
                JsonObject::new()
                    .member("type", text_json("follow_up_work"))
                    .member("text", text.to_json())
                    .member("milestone_id", milestone_id.to_json())
            },
            MemoryEntityData::ArchiveReference {
                archive_id,
                spec_path,
                archived_at,
                task_count,
                run_count,
            } => JsonObject::new()
                .member("type", text_json("archive_reference"))
                .member("archive_id", archive_id.to_json())
                .member("spec_path", spec_path.to_json())
                .member("archived_at", archived_at.to_json())
                .member("task_count", task_count.to_json())
                .member("run_count", run_count.to_json()),
            MemoryEntityData::TaskReference {
                task_id,
                milestone_id,
                status,
                baseline_snapshot_id,
                repository_snapshot_id,
            } => JsonObject::new()
                .member("type", text_json("task_reference"))
                .member("task_id", task_id.to_json())
                .member("milestone_id", milestone_id.to_json())
                .member("status", status.to_json())
                .member("baseline_snapshot_id", baseline_snapshot_id.to_json())
                .member("repository_snapshot_id", repository_snapshot_id.to_json()),
            MemoryEntityData::RunReference {
                run_id,
                task_id,
                status,
                check_ids,
                baseline_snapshot_id,
                repository_snapshot_id,
            } => JsonObject::new()
                .member("type", text_json("run_reference"))
                .member("run_id", run_id.to_json())
                .member("task_id", task_id.to_json())
                .member("status", status.to_json())
                .member("check_ids", check_ids.to_json())
                .member("baseline_snapshot_id", baseline_snapshot_id.to_json())
                .member("repository_snapshot_id", repository_snapshot_id.to_json()),
        };
        assert(object.members() =~= self.deep_view().members());
        object.finish()
    }
}

/// What kind of entity it is.
#[derive(Debug, Clone, Copy, PartialEq, Eq, PartialOrd, Ord, Hash, Structural)]
pub enum MemoryEntityKind {
    Specification,
    Milestone,
    Outcome,
    Decision,
    Deviation,
    ValidationEvidence,
    FollowUpWork,
    ArchiveReference,
    TaskReference,
    RunReference,
}

impl DeepView for MemoryEntityKind {
    type V = MemoryEntityKind;

    open spec fn deep_view(&self) -> MemoryEntityKind {
        *self
    }
}

impl MemoryEntityKind {
    /// The name in stored and transmitted records.
    pub open spec fn name(self) -> Seq<char> {
        match self {
            MemoryEntityKind::Specification => "specification"@,
            MemoryEntityKind::Milestone => "milestone"@,
            MemoryEntityKind::Outcome => "outcome"@,
            MemoryEntityKind::Decision => "decision"@,
            MemoryEntityKind::Deviation => "deviation"@,
            MemoryEntityKind::ValidationEvidence => "validation_evidence"@,
            MemoryEntityKind::FollowUpWork => "follow_up_work"@,
            MemoryEntityKind::ArchiveReference => "archive_reference"@,
            MemoryEntityKind::TaskReference => "task_reference"@,
            MemoryEntityKind::RunReference => "run_reference"@,
        }
    }

    /// The name in stored and transmitted records.
    pub fn as_str(self) -> (name: &'static str)
        ensures
            name@ == self.name(),
    {
        match self {
            MemoryEntityKind::Specification => "specification",
            MemoryEntityKind::Milestone => "milestone",
            MemoryEntityKind::Outcome => "outcome",
            MemoryEntityKind::Decision => "decision",
            MemoryEntityKind::Deviation => "deviation",
            MemoryEntityKind::ValidationEvidence => "validation_evidence",
            MemoryEntityKind::FollowUpWork => "follow_up_work",
            MemoryEntityKind::ArchiveReference => "archive_reference",
            MemoryEntityKind::TaskReference => "task_reference",
            MemoryEntityKind::RunReference => "run_reference",
        }
    }

    /// The place in the order of the variants.
    pub open spec fn rank(self) -> u8 {
        match self {
            MemoryEntityKind::Specification => 0,
            MemoryEntityKind::Milestone => 1,
            MemoryEntityKind::Outcome => 2,
            MemoryEntityKind::Decision => 3,
            MemoryEntityKind::Deviation => 4,
            MemoryEntityKind::ValidationEvidence => 5,
            MemoryEntityKind::FollowUpWork => 6,
            MemoryEntityKind::ArchiveReference => 7,
            MemoryEntityKind::TaskReference => 8,
            MemoryEntityKind::RunReference => 9,
        }
    }

    /// The place in the order of the variants.
    pub fn place(self) -> (place: u8)
        ensures
            place == self.rank(),
    {
        match self {
            MemoryEntityKind::Specification => 0,
            MemoryEntityKind::Milestone => 1,
            MemoryEntityKind::Outcome => 2,
            MemoryEntityKind::Decision => 3,
            MemoryEntityKind::Deviation => 4,
            MemoryEntityKind::ValidationEvidence => 5,
            MemoryEntityKind::FollowUpWork => 6,
            MemoryEntityKind::ArchiveReference => 7,
            MemoryEntityKind::TaskReference => 8,
            MemoryEntityKind::RunReference => 9,
        }
    }
}

impl Record for MemoryEntityKind {
    fn copied(&self) -> (copy: Self) {
        *self
    }

    fn same(&self, other: &Self) -> (same: bool) {
        *self == *other
    }
}

impl ToJson for MemoryEntityKind {
    open spec fn json(model: MemoryEntityKind) -> Seq<char> {
        json_string(model.name())
    }

    fn to_json(&self) -> (text: String) {
        text_json(self.as_str())
    }
}

impl MemoryEntityDataView {
    /// The kind of the entity.
    pub open spec fn kind(self) -> MemoryEntityKind {
        match self {
            MemoryEntityDataView::Specification { .. } => MemoryEntityKind::Specification,
            MemoryEntityDataView::Milestone { .. } => MemoryEntityKind::Milestone,
            MemoryEntityDataView::Outcome { .. } => MemoryEntityKind::Outcome,
            MemoryEntityDataView::Decision { .. } => MemoryEntityKind::Decision,
            MemoryEntityDataView::Deviation { .. } => MemoryEntityKind::Deviation,
            MemoryEntityDataView::ValidationEvidence { .. } => MemoryEntityKind::ValidationEvidence,
            MemoryEntityDataView::FollowUpWork { .. } => MemoryEntityKind::FollowUpWork,
            MemoryEntityDataView::ArchiveReference { .. } => MemoryEntityKind::ArchiveReference,
            MemoryEntityDataView::TaskReference { .. } => MemoryEntityKind::TaskReference,
            MemoryEntityDataView::RunReference { .. } => MemoryEntityKind::RunReference,
        }
    }
}

impl MemoryEntityData {
    /// The kind of the entity.
    pub fn kind(&self) -> (kind: MemoryEntityKind)
        ensures
            kind == self.deep_view().kind(),
    {
        match self {
            MemoryEntityData::Specification { .. } => MemoryEntityKind::Specification,
            MemoryEntityData::Milestone { .. } => MemoryEntityKind::Milestone,
            MemoryEntityData::Outcome { .. } => MemoryEntityKind::Outcome,
            MemoryEntityData::Decision { .. } => MemoryEntityKind::Decision,
            MemoryEntityData::Deviation { .. } => MemoryEntityKind::Deviation,
            MemoryEntityData::ValidationEvidence { .. } => MemoryEntityKind::ValidationEvidence,
            MemoryEntityData::FollowUpWork { .. } => MemoryEntityKind::FollowUpWork,
            MemoryEntityData::ArchiveReference { .. } => MemoryEntityKind::ArchiveReference,
            MemoryEntityData::TaskReference { .. } => MemoryEntityKind::TaskReference,
            MemoryEntityData::RunReference { .. } => MemoryEntityKind::RunReference,
        }
    }
}

/// A fact of a revision.
#[derive(Debug, PartialEq, Eq)]
pub struct MemoryEntity {
    pub project: ProjectRef,
    pub memory_revision_id: MemoryRevisionId,
    pub id: MemoryEntityId,
    pub data: MemoryEntityData,
    pub provenance: MemoryProvenance,
}

/// The model of [`MemoryEntity`].
pub struct MemoryEntityView {
    pub project: ProjectRefView,
    pub memory_revision_id: Seq<char>,
    pub id: Seq<char>,
    pub data: MemoryEntityDataView,
    pub provenance: MemoryProvenanceView,
}

impl DeepView for MemoryEntity {
    type V = MemoryEntityView;

    open spec fn deep_view(&self) -> MemoryEntityView {
        MemoryEntityView {
            project: self.project.deep_view(),
            memory_revision_id: self.memory_revision_id.deep_view(),
            id: self.id.deep_view(),
            data: self.data.deep_view(),
            provenance: self.provenance.deep_view(),
        }
    }
}

impl Record for MemoryEntity {
    fn copied(&self) -> (copy: Self) {
        MemoryEntity {
            project: self.project.copied(),
            memory_revision_id: self.memory_revision_id.copied(),
            id: self.id.copied(),
            data: self.data.copied(),
            provenance: self.provenance.copied(),
        }
    }

    fn same(&self, other: &Self) -> (same: bool) {
        self.project.same(&other.project)
            && self.memory_revision_id.same(&other.memory_revision_id)
            && self.id.same(&other.id)
            && self.data.same(&other.data)
            && self.provenance.same(&other.provenance)
    }
}

impl Clone for MemoryEntity {
    fn clone(&self) -> (copy: Self)
        ensures
            copy.deep_view() == self.deep_view(),
    {
        self.copied()
    }
}

impl MemoryEntityView {
    /// The members of the JSON object.
    pub open spec fn members(self) -> Seq<(Seq<char>, Seq<char>)> {
        seq![
            ("project"@, <ProjectRef as ToJson>::json(self.project)),
            ("memory_revision_id"@, <MemoryRevisionId as ToJson>::json(self.memory_revision_id)),
            ("id"@, <MemoryEntityId as ToJson>::json(self.id)),
            ("data"@, <MemoryEntityData as ToJson>::json(self.data)),
            ("provenance"@, <MemoryProvenance as ToJson>::json(self.provenance)),
        ]
    }
}

impl ToJson for MemoryEntity {
    open spec fn json(model: MemoryEntityView) -> Seq<char> {
        json_object(model.members())
    }

    fn to_json(&self) -> (text: String) {
        let object = JsonObject::new()
            .member("project", self.project.to_json())
            .member("memory_revision_id", self.memory_revision_id.to_json())
            .member("id", self.id.to_json())
            .member("data", self.data.to_json())
            .member("provenance", self.provenance.to_json());
        assert(object.members() =~= self.deep_view().members());
        object.finish()
    }
}

/// How an entity relates to its target.
#[derive(Debug, Clone, Copy, PartialEq, Eq, PartialOrd, Ord, Hash, Structural)]
pub enum MemoryRelationshipKind {
    Contains,
    Implements,
    Validates,
    Supersedes,
    Concerns,
    Touches,
    FollowsUp,
}

impl DeepView for MemoryRelationshipKind {
    type V = MemoryRelationshipKind;

    open spec fn deep_view(&self) -> MemoryRelationshipKind {
        *self
    }
}

impl MemoryRelationshipKind {
    /// The name in stored and transmitted records.
    pub open spec fn name(self) -> Seq<char> {
        match self {
            MemoryRelationshipKind::Contains => "contains"@,
            MemoryRelationshipKind::Implements => "implements"@,
            MemoryRelationshipKind::Validates => "validates"@,
            MemoryRelationshipKind::Supersedes => "supersedes"@,
            MemoryRelationshipKind::Concerns => "concerns"@,
            MemoryRelationshipKind::Touches => "touches"@,
            MemoryRelationshipKind::FollowsUp => "follows_up"@,
        }
    }

    /// The name in stored and transmitted records.
    pub fn as_str(self) -> (name: &'static str)
        ensures
            name@ == self.name(),
    {
        match self {
            MemoryRelationshipKind::Contains => "contains",
            MemoryRelationshipKind::Implements => "implements",
            MemoryRelationshipKind::Validates => "validates",
            MemoryRelationshipKind::Supersedes => "supersedes",
            MemoryRelationshipKind::Concerns => "concerns",
            MemoryRelationshipKind::Touches => "touches",
            MemoryRelationshipKind::FollowsUp => "follows_up",
        }
    }

    /// The place in the order of the variants.
    pub open spec fn rank(self) -> u8 {
        match self {
            MemoryRelationshipKind::Contains => 0,
            MemoryRelationshipKind::Implements => 1,
            MemoryRelationshipKind::Validates => 2,
            MemoryRelationshipKind::Supersedes => 3,
            MemoryRelationshipKind::Concerns => 4,
            MemoryRelationshipKind::Touches => 5,
            MemoryRelationshipKind::FollowsUp => 6,
        }
    }

    /// The place in the order of the variants.
    pub fn place(self) -> (place: u8)
        ensures
            place == self.rank(),
    {
        match self {
            MemoryRelationshipKind::Contains => 0,
            MemoryRelationshipKind::Implements => 1,
            MemoryRelationshipKind::Validates => 2,
            MemoryRelationshipKind::Supersedes => 3,
            MemoryRelationshipKind::Concerns => 4,
            MemoryRelationshipKind::Touches => 5,
            MemoryRelationshipKind::FollowsUp => 6,
        }
    }
}

impl Record for MemoryRelationshipKind {
    fn copied(&self) -> (copy: Self) {
        *self
    }

    fn same(&self, other: &Self) -> (same: bool) {
        *self == *other
    }
}

impl ToJson for MemoryRelationshipKind {
    open spec fn json(model: MemoryRelationshipKind) -> Seq<char> {
        json_string(model.name())
    }

    fn to_json(&self) -> (text: String) {
        text_json(self.as_str())
    }
}

/// What a relationship points at.
#[derive(Debug, PartialEq, Eq)]
#[allow(inconsistent_fields)]
pub enum MemoryRelationshipTarget {
    MemoryEntity {
        entity_id: MemoryEntityId,
    },
    RepositoryNode {
        repository: RepositoryRef,
        snapshot_id: SnapshotId,
        node_id: NodeId,
        semantic_key: Option<SemanticKey>,
    },
    RepositoryPath {
        repository: RepositoryRef,
        path: RepoPath,
        snapshot_id: Option<SnapshotId>,
    },
    RepositorySymbol {
        repository: RepositoryRef,
        semantic_key: SemanticKey,
        snapshot_id: Option<SnapshotId>,
    },
    Task {
        task_id: MemoryRecordId,
    },
    Run {
        run_id: MemoryRecordId,
    },
    Milestone {
        milestone_id: MemoryRecordId,
    },
}

/// The model of [`MemoryRelationshipTarget`].
#[allow(inconsistent_fields)]
pub enum MemoryRelationshipTargetView {
    MemoryEntity {
        entity_id: Seq<char>,
    },
    RepositoryNode {
        repository: RepositoryRefView,
        snapshot_id: Seq<char>,
        node_id: Seq<char>,
        semantic_key: Option<Seq<char>>,
    },
    RepositoryPath {
        repository: RepositoryRefView,
        path: Seq<char>,
        snapshot_id: Option<Seq<char>>,
    },
    RepositorySymbol {
        repository: RepositoryRefView,
        semantic_key: Seq<char>,
        snapshot_id: Option<Seq<char>>,
    },
    Task {
        task_id: Seq<char>,
    },
    Run {
        run_id: Seq<char>,
    },
    Milestone {
        milestone_id: Seq<char>,
    },
}

impl DeepView for MemoryRelationshipTarget {
    type V = MemoryRelationshipTargetView;

    open spec fn deep_view(&self) -> MemoryRelationshipTargetView {
        match self {
            MemoryRelationshipTarget::MemoryEntity { entity_id } => {
                MemoryRelationshipTargetView::MemoryEntity { entity_id: entity_id.deep_view() }
            },
            MemoryRelationshipTarget::RepositoryNode {
                repository,
                snapshot_id,
                node_id,
                semantic_key,
            } => MemoryRelationshipTargetView::RepositoryNode {
                repository: repository.deep_view(),
                snapshot_id: snapshot_id.deep_view(),
                node_id: node_id.deep_view(),
                semantic_key: semantic_key.deep_view(),
            },
            MemoryRelationshipTarget::RepositoryPath { repository, path, snapshot_id } => {
                MemoryRelationshipTargetView::RepositoryPath {
                    repository: repository.deep_view(),
                    path: path.deep_view(),
                    snapshot_id: snapshot_id.deep_view(),
                }
            },
            MemoryRelationshipTarget::RepositorySymbol {
                repository,
                semantic_key,
                snapshot_id,
            } => MemoryRelationshipTargetView::RepositorySymbol {
                repository: repository.deep_view(),
                semantic_key: semantic_key.deep_view(),
                snapshot_id: snapshot_id.deep_view(),
            },
            MemoryRelationshipTarget::Task { task_id } => MemoryRelationshipTargetView::Task {
                task_id: task_id.deep_view(),
            },
            MemoryRelationshipTarget::Run { run_id } => MemoryRelationshipTargetView::Run {
                run_id: run_id.deep_view(),
            },
            MemoryRelationshipTarget::Milestone { milestone_id } => {
                MemoryRelationshipTargetView::Milestone { milestone_id: milestone_id.deep_view() }
            },
        }
    }
}

impl Record for MemoryRelationshipTarget {
    fn copied(&self) -> (copy: Self) {
        match self {
            MemoryRelationshipTarget::MemoryEntity { entity_id } => {
                MemoryRelationshipTarget::MemoryEntity { entity_id: entity_id.copied() }
            },
            MemoryRelationshipTarget::RepositoryNode {
                repository,
                snapshot_id,
                node_id,
                semantic_key,
            } => MemoryRelationshipTarget::RepositoryNode {
                repository: repository.copied(),
                snapshot_id: snapshot_id.copied(),
                node_id: node_id.copied(),
                semantic_key: semantic_key.copied(),
            },
            MemoryRelationshipTarget::RepositoryPath { repository, path, snapshot_id } => {
                MemoryRelationshipTarget::RepositoryPath {
                    repository: repository.copied(),
                    path: path.copied(),
                    snapshot_id: snapshot_id.copied(),
                }
            },
            MemoryRelationshipTarget::RepositorySymbol {
                repository,
                semantic_key,
                snapshot_id,
            } => MemoryRelationshipTarget::RepositorySymbol {
                repository: repository.copied(),
                semantic_key: semantic_key.copied(),
                snapshot_id: snapshot_id.copied(),
            },
            MemoryRelationshipTarget::Task { task_id } => MemoryRelationshipTarget::Task {
                task_id: task_id.copied(),
            },
            MemoryRelationshipTarget::Run { run_id } => MemoryRelationshipTarget::Run {
                run_id: run_id.copied(),
            },
            MemoryRelationshipTarget::Milestone { milestone_id } => {
                MemoryRelationshipTarget::Milestone { milestone_id: milestone_id.copied() }
            },
        }
    }

    fn same(&self, other: &Self) -> (same: bool) {
        match self {
            MemoryRelationshipTarget::MemoryEntity { entity_id: left_entity_id } => match other {
                MemoryRelationshipTarget::MemoryEntity { entity_id: right_entity_id } => {
                    left_entity_id.same(right_entity_id)
                },
                _ => false,
            },
            MemoryRelationshipTarget::RepositoryNode {
                repository: left_repository,
                snapshot_id: left_snapshot_id,
                node_id: left_node_id,
                semantic_key: left_semantic_key,
            } => match other {
                MemoryRelationshipTarget::RepositoryNode {
                    repository: right_repository,
                    snapshot_id: right_snapshot_id,
                    node_id: right_node_id,
                    semantic_key: right_semantic_key,
                } => {
                    left_repository.same(right_repository)
                        && left_snapshot_id.same(right_snapshot_id)
                        && left_node_id.same(right_node_id)
                        && left_semantic_key.same(right_semantic_key)
                },
                _ => false,
            },
            MemoryRelationshipTarget::RepositoryPath {
                repository: left_repository,
                path: left_path,
                snapshot_id: left_snapshot_id,
            } => match other {
                MemoryRelationshipTarget::RepositoryPath {
                    repository: right_repository,
                    path: right_path,
                    snapshot_id: right_snapshot_id,
                } => {
                    left_repository.same(right_repository)
                        && left_path.same(right_path)
                        && left_snapshot_id.same(right_snapshot_id)
                },
                _ => false,
            },
            MemoryRelationshipTarget::RepositorySymbol {
                repository: left_repository,
                semantic_key: left_semantic_key,
                snapshot_id: left_snapshot_id,
            } => match other {
                MemoryRelationshipTarget::RepositorySymbol {
                    repository: right_repository,
                    semantic_key: right_semantic_key,
                    snapshot_id: right_snapshot_id,
                } => {
                    left_repository.same(right_repository)
                        && left_semantic_key.same(right_semantic_key)
                        && left_snapshot_id.same(right_snapshot_id)
                },
                _ => false,
            },
            MemoryRelationshipTarget::Task { task_id: left_task_id } => match other {
                MemoryRelationshipTarget::Task { task_id: right_task_id } => {
                    left_task_id.same(right_task_id)
                },
                _ => false,
            },
            MemoryRelationshipTarget::Run { run_id: left_run_id } => match other {
                MemoryRelationshipTarget::Run { run_id: right_run_id } => {
                    left_run_id.same(right_run_id)
                },
                _ => false,
            },
            MemoryRelationshipTarget::Milestone { milestone_id: left_milestone_id } => match other {
                MemoryRelationshipTarget::Milestone { milestone_id: right_milestone_id } => {
                    left_milestone_id.same(right_milestone_id)
                },
                _ => false,
            },
        }
    }
}

impl Clone for MemoryRelationshipTarget {
    fn clone(&self) -> (copy: Self)
        ensures
            copy.deep_view() == self.deep_view(),
    {
        self.copied()
    }
}

impl MemoryRelationshipTargetView {
    /// The members of the JSON object.
    pub open spec fn members(self) -> Seq<(Seq<char>, Seq<char>)> {
        match self {
            MemoryRelationshipTargetView::MemoryEntity { entity_id } => seq![
                ("type"@, json_string("memory_entity"@)),
                ("entity_id"@, <MemoryEntityId as ToJson>::json(entity_id)),
            ],
            MemoryRelationshipTargetView::RepositoryNode {
                repository,
                snapshot_id,
                node_id,
                semantic_key,
            } => seq![
                ("type"@, json_string("repository_node"@)),
                ("repository"@, <RepositoryRef as ToJson>::json(repository)),
                ("snapshot_id"@, <SnapshotId as ToJson>::json(snapshot_id)),
                ("node_id"@, <NodeId as ToJson>::json(node_id)),
                ("semantic_key"@, <Option<SemanticKey> as ToJson>::json(semantic_key)),
            ],
            MemoryRelationshipTargetView::RepositoryPath { repository, path, snapshot_id } => seq![
                ("type"@, json_string("repository_path"@)),
                ("repository"@, <RepositoryRef as ToJson>::json(repository)),
                ("path"@, <RepoPath as ToJson>::json(path)),
                ("snapshot_id"@, <Option<SnapshotId> as ToJson>::json(snapshot_id)),
            ],
            MemoryRelationshipTargetView::RepositorySymbol {
                repository,
                semantic_key,
                snapshot_id,
            } => seq![
                ("type"@, json_string("repository_symbol"@)),
                ("repository"@, <RepositoryRef as ToJson>::json(repository)),
                ("semantic_key"@, <SemanticKey as ToJson>::json(semantic_key)),
                ("snapshot_id"@, <Option<SnapshotId> as ToJson>::json(snapshot_id)),
            ],
            MemoryRelationshipTargetView::Task { task_id } => seq![
                ("type"@, json_string("task"@)),
                ("task_id"@, <MemoryRecordId as ToJson>::json(task_id)),
            ],
            MemoryRelationshipTargetView::Run { run_id } => seq![
                ("type"@, json_string("run"@)),
                ("run_id"@, <MemoryRecordId as ToJson>::json(run_id)),
            ],
            MemoryRelationshipTargetView::Milestone { milestone_id } => seq![
                ("type"@, json_string("milestone"@)),
                ("milestone_id"@, <MemoryRecordId as ToJson>::json(milestone_id)),
            ],
        }
    }
}

impl ToJson for MemoryRelationshipTarget {
    open spec fn json(model: MemoryRelationshipTargetView) -> Seq<char> {
        json_object(model.members())
    }

    fn to_json(&self) -> (text: String) {
        let object = match self {
            MemoryRelationshipTarget::MemoryEntity { entity_id } => {
                JsonObject::new()
                    .member("type", text_json("memory_entity"))
                    .member("entity_id", entity_id.to_json())
            },
            MemoryRelationshipTarget::RepositoryNode {
                repository,
                snapshot_id,
                node_id,
                semantic_key,
            } => JsonObject::new()
                .member("type", text_json("repository_node"))
                .member("repository", repository.to_json())
                .member("snapshot_id", snapshot_id.to_json())
                .member("node_id", node_id.to_json())
                .member("semantic_key", semantic_key.to_json()),
            MemoryRelationshipTarget::RepositoryPath { repository, path, snapshot_id } => {
                JsonObject::new()
                    .member("type", text_json("repository_path"))
                    .member("repository", repository.to_json())
                    .member("path", path.to_json())
                    .member("snapshot_id", snapshot_id.to_json())
            },
            MemoryRelationshipTarget::RepositorySymbol {
                repository,
                semantic_key,
                snapshot_id,
            } => JsonObject::new()
                .member("type", text_json("repository_symbol"))
                .member("repository", repository.to_json())
                .member("semantic_key", semantic_key.to_json())
                .member("snapshot_id", snapshot_id.to_json()),
            MemoryRelationshipTarget::Task { task_id } => JsonObject::new()
                .member("type", text_json("task"))
                .member("task_id", task_id.to_json()),
            MemoryRelationshipTarget::Run { run_id } => JsonObject::new()
                .member("type", text_json("run"))
                .member("run_id", run_id.to_json()),
            MemoryRelationshipTarget::Milestone { milestone_id } => {
                JsonObject::new()
                    .member("type", text_json("milestone"))
                    .member("milestone_id", milestone_id.to_json())
            },
        };
        assert(object.members() =~= self.deep_view().members());
        object.finish()
    }
}

/// A relationship of a revision.
#[derive(Debug, PartialEq, Eq)]
pub struct MemoryRelationship {
    pub project: ProjectRef,
    pub memory_revision_id: MemoryRevisionId,
    pub id: MemoryRelationshipId,
    pub kind: MemoryRelationshipKind,
    pub source: MemoryEntityId,
    pub target: MemoryRelationshipTarget,
    pub provenance: MemoryProvenance,
}

/// The model of [`MemoryRelationship`].
pub struct MemoryRelationshipView {
    pub project: ProjectRefView,
    pub memory_revision_id: Seq<char>,
    pub id: Seq<char>,
    pub kind: MemoryRelationshipKind,
    pub source: Seq<char>,
    pub target: MemoryRelationshipTargetView,
    pub provenance: MemoryProvenanceView,
}

impl DeepView for MemoryRelationship {
    type V = MemoryRelationshipView;

    open spec fn deep_view(&self) -> MemoryRelationshipView {
        MemoryRelationshipView {
            project: self.project.deep_view(),
            memory_revision_id: self.memory_revision_id.deep_view(),
            id: self.id.deep_view(),
            kind: self.kind.deep_view(),
            source: self.source.deep_view(),
            target: self.target.deep_view(),
            provenance: self.provenance.deep_view(),
        }
    }
}

impl Record for MemoryRelationship {
    fn copied(&self) -> (copy: Self) {
        MemoryRelationship {
            project: self.project.copied(),
            memory_revision_id: self.memory_revision_id.copied(),
            id: self.id.copied(),
            kind: self.kind.copied(),
            source: self.source.copied(),
            target: self.target.copied(),
            provenance: self.provenance.copied(),
        }
    }

    fn same(&self, other: &Self) -> (same: bool) {
        self.project.same(&other.project)
            && self.memory_revision_id.same(&other.memory_revision_id)
            && self.id.same(&other.id)
            && self.kind.same(&other.kind)
            && self.source.same(&other.source)
            && self.target.same(&other.target)
            && self.provenance.same(&other.provenance)
    }
}

impl Clone for MemoryRelationship {
    fn clone(&self) -> (copy: Self)
        ensures
            copy.deep_view() == self.deep_view(),
    {
        self.copied()
    }
}

impl MemoryRelationshipView {
    /// The members of the JSON object.
    pub open spec fn members(self) -> Seq<(Seq<char>, Seq<char>)> {
        seq![
            ("project"@, <ProjectRef as ToJson>::json(self.project)),
            ("memory_revision_id"@, <MemoryRevisionId as ToJson>::json(self.memory_revision_id)),
            ("id"@, <MemoryRelationshipId as ToJson>::json(self.id)),
            ("kind"@, <MemoryRelationshipKind as ToJson>::json(self.kind)),
            ("source"@, <MemoryEntityId as ToJson>::json(self.source)),
            ("target"@, <MemoryRelationshipTarget as ToJson>::json(self.target)),
            ("provenance"@, <MemoryProvenance as ToJson>::json(self.provenance)),
        ]
    }
}

impl ToJson for MemoryRelationship {
    open spec fn json(model: MemoryRelationshipView) -> Seq<char> {
        json_object(model.members())
    }

    fn to_json(&self) -> (text: String) {
        let object = JsonObject::new()
            .member("project", self.project.to_json())
            .member("memory_revision_id", self.memory_revision_id.to_json())
            .member("id", self.id.to_json())
            .member("kind", self.kind.to_json())
            .member("source", self.source.to_json())
            .member("target", self.target.to_json())
            .member("provenance", self.provenance.to_json());
        assert(object.members() =~= self.deep_view().members());
        object.finish()
    }
}

/// How far a build has come.
#[derive(Debug, Clone, Copy, PartialEq, Eq, PartialOrd, Ord, Hash, Structural)]
pub enum MemoryBuildState {
    Building,
    Complete,
    Published,
    Failed,
    Superseded,
}

impl DeepView for MemoryBuildState {
    type V = MemoryBuildState;

    open spec fn deep_view(&self) -> MemoryBuildState {
        *self
    }
}

impl MemoryBuildState {
    /// The name in stored and transmitted records.
    pub open spec fn name(self) -> Seq<char> {
        match self {
            MemoryBuildState::Building => "building"@,
            MemoryBuildState::Complete => "complete"@,
            MemoryBuildState::Published => "published"@,
            MemoryBuildState::Failed => "failed"@,
            MemoryBuildState::Superseded => "superseded"@,
        }
    }

    /// The name in stored and transmitted records.
    pub fn as_str(self) -> (name: &'static str)
        ensures
            name@ == self.name(),
    {
        match self {
            MemoryBuildState::Building => "building",
            MemoryBuildState::Complete => "complete",
            MemoryBuildState::Published => "published",
            MemoryBuildState::Failed => "failed",
            MemoryBuildState::Superseded => "superseded",
        }
    }
}

impl Record for MemoryBuildState {
    fn copied(&self) -> (copy: Self) {
        *self
    }

    fn same(&self, other: &Self) -> (same: bool) {
        *self == *other
    }
}

impl ToJson for MemoryBuildState {
    open spec fn json(model: MemoryBuildState) -> Seq<char> {
        json_string(model.name())
    }

    fn to_json(&self) -> (text: String) {
        text_json(self.as_str())
    }
}

/// A revision of the memory, with all that its identity is made of.
/// 
/// `source_set_digest` covers the fingerprints of the authorized sources only. Times of day and
/// settings of the storage are no part of the identity.
#[derive(Debug, PartialEq, Eq)]
pub struct MemoryRevision {
    pub id: MemoryRevisionId,
    pub project: ProjectRef,
    pub source_set_digest: Digest,
    pub policy_digest: Digest,
    pub memory_model_version: u32,
    pub extractor_set_digest: Digest,
    pub completed_by: MemoryBuildId,
}

/// The model of [`MemoryRevision`].
pub struct MemoryRevisionView {
    pub id: Seq<char>,
    pub project: ProjectRefView,
    pub source_set_digest: DigestView,
    pub policy_digest: DigestView,
    pub memory_model_version: u32,
    pub extractor_set_digest: DigestView,
    pub completed_by: Seq<char>,
}

impl DeepView for MemoryRevision {
    type V = MemoryRevisionView;

    open spec fn deep_view(&self) -> MemoryRevisionView {
        MemoryRevisionView {
            id: self.id.deep_view(),
            project: self.project.deep_view(),
            source_set_digest: self.source_set_digest.deep_view(),
            policy_digest: self.policy_digest.deep_view(),
            memory_model_version: self.memory_model_version.deep_view(),
            extractor_set_digest: self.extractor_set_digest.deep_view(),
            completed_by: self.completed_by.deep_view(),
        }
    }
}

impl Record for MemoryRevision {
    fn copied(&self) -> (copy: Self) {
        MemoryRevision {
            id: self.id.copied(),
            project: self.project.copied(),
            source_set_digest: self.source_set_digest.copied(),
            policy_digest: self.policy_digest.copied(),
            memory_model_version: self.memory_model_version.copied(),
            extractor_set_digest: self.extractor_set_digest.copied(),
            completed_by: self.completed_by.copied(),
        }
    }

    fn same(&self, other: &Self) -> (same: bool) {
        self.id.same(&other.id)
            && self.project.same(&other.project)
            && self.source_set_digest.same(&other.source_set_digest)
            && self.policy_digest.same(&other.policy_digest)
            && self.memory_model_version.same(&other.memory_model_version)
            && self.extractor_set_digest.same(&other.extractor_set_digest)
            && self.completed_by.same(&other.completed_by)
    }
}

impl Clone for MemoryRevision {
    fn clone(&self) -> (copy: Self)
        ensures
            copy.deep_view() == self.deep_view(),
    {
        self.copied()
    }
}

impl MemoryRevisionView {
    /// The members of the JSON object.
    pub open spec fn members(self) -> Seq<(Seq<char>, Seq<char>)> {
        seq![
            ("id"@, <MemoryRevisionId as ToJson>::json(self.id)),
            ("project"@, <ProjectRef as ToJson>::json(self.project)),
            ("source_set_digest"@, <Digest as ToJson>::json(self.source_set_digest)),
            ("policy_digest"@, <Digest as ToJson>::json(self.policy_digest)),
            ("memory_model_version"@, <u32 as ToJson>::json(self.memory_model_version)),
            ("extractor_set_digest"@, <Digest as ToJson>::json(self.extractor_set_digest)),
            ("completed_by"@, <MemoryBuildId as ToJson>::json(self.completed_by)),
        ]
    }
}

impl ToJson for MemoryRevision {
    open spec fn json(model: MemoryRevisionView) -> Seq<char> {
        json_object(model.members())
    }

    fn to_json(&self) -> (text: String) {
        let object = JsonObject::new()
            .member("id", self.id.to_json())
            .member("project", self.project.to_json())
            .member("source_set_digest", self.source_set_digest.to_json())
            .member("policy_digest", self.policy_digest.to_json())
            .member("memory_model_version", self.memory_model_version.to_json())
            .member("extractor_set_digest", self.extractor_set_digest.to_json())
            .member("completed_by", self.completed_by.to_json());
        assert(object.members() =~= self.deep_view().members());
        object.finish()
    }
}

/// An attempt to build a revision.
#[derive(Debug, PartialEq, Eq)]
pub struct MemoryBuild {
    pub id: MemoryBuildId,
    pub project: ProjectRef,
    pub prospective_revision_id: MemoryRevisionId,
    pub state: MemoryBuildState,
}

/// The model of [`MemoryBuild`].
pub struct MemoryBuildView {
    pub id: Seq<char>,
    pub project: ProjectRefView,
    pub prospective_revision_id: Seq<char>,
    pub state: MemoryBuildState,
}

impl DeepView for MemoryBuild {
    type V = MemoryBuildView;

    open spec fn deep_view(&self) -> MemoryBuildView {
        MemoryBuildView {
            id: self.id.deep_view(),
            project: self.project.deep_view(),
            prospective_revision_id: self.prospective_revision_id.deep_view(),
            state: self.state.deep_view(),
        }
    }
}

impl Record for MemoryBuild {
    fn copied(&self) -> (copy: Self) {
        MemoryBuild {
            id: self.id.copied(),
            project: self.project.copied(),
            prospective_revision_id: self.prospective_revision_id.copied(),
            state: self.state.copied(),
        }
    }

    fn same(&self, other: &Self) -> (same: bool) {
        self.id.same(&other.id)
            && self.project.same(&other.project)
            && self.prospective_revision_id.same(&other.prospective_revision_id)
            && self.state.same(&other.state)
    }
}

impl Clone for MemoryBuild {
    fn clone(&self) -> (copy: Self)
        ensures
            copy.deep_view() == self.deep_view(),
    {
        self.copied()
    }
}

impl MemoryBuildView {
    /// The members of the JSON object.
    pub open spec fn members(self) -> Seq<(Seq<char>, Seq<char>)> {
        seq![
            ("id"@, <MemoryBuildId as ToJson>::json(self.id)),
            ("project"@, <ProjectRef as ToJson>::json(self.project)),
            ("prospective_revision_id"@, <MemoryRevisionId as ToJson>::json(self.prospective_revision_id)),
            ("state"@, <MemoryBuildState as ToJson>::json(self.state)),
        ]
    }
}

impl ToJson for MemoryBuild {
    open spec fn json(model: MemoryBuildView) -> Seq<char> {
        json_object(model.members())
    }

    fn to_json(&self) -> (text: String) {
        let object = JsonObject::new()
            .member("id", self.id.to_json())
            .member("project", self.project.to_json())
            .member("prospective_revision_id", self.prospective_revision_id.to_json())
            .member("state", self.state.to_json());
        assert(object.members() =~= self.deep_view().members());
        object.finish()
    }
}

/// What a publisher expects to replace.
#[derive(Debug, PartialEq, Eq)]
pub struct MemoryPublicationVersion {
    pub revision_id: MemoryRevisionId,
    pub generation: u64,
}

/// The model of [`MemoryPublicationVersion`].
pub struct MemoryPublicationVersionView {
    pub revision_id: Seq<char>,
    pub generation: u64,
}

impl DeepView for MemoryPublicationVersion {
    type V = MemoryPublicationVersionView;

    open spec fn deep_view(&self) -> MemoryPublicationVersionView {
        MemoryPublicationVersionView {
            revision_id: self.revision_id.deep_view(),
            generation: self.generation.deep_view(),
        }
    }
}

impl Record for MemoryPublicationVersion {
    fn copied(&self) -> (copy: Self) {
        MemoryPublicationVersion {
            revision_id: self.revision_id.copied(),
            generation: self.generation.copied(),
        }
    }

    fn same(&self, other: &Self) -> (same: bool) {
        self.revision_id.same(&other.revision_id)
            && self.generation.same(&other.generation)
    }
}

impl Clone for MemoryPublicationVersion {
    fn clone(&self) -> (copy: Self)
        ensures
            copy.deep_view() == self.deep_view(),
    {
        self.copied()
    }
}

impl MemoryPublicationVersionView {
    /// The members of the JSON object.
    pub open spec fn members(self) -> Seq<(Seq<char>, Seq<char>)> {
        seq![
            ("revision_id"@, <MemoryRevisionId as ToJson>::json(self.revision_id)),
            ("generation"@, <u64 as ToJson>::json(self.generation)),
        ]
    }
}

impl ToJson for MemoryPublicationVersion {
    open spec fn json(model: MemoryPublicationVersionView) -> Seq<char> {
        json_object(model.members())
    }

    fn to_json(&self) -> (text: String) {
        let object = JsonObject::new()
            .member("revision_id", self.revision_id.to_json())
            .member("generation", self.generation.to_json());
        assert(object.members() =~= self.deep_view().members());
        object.finish()
    }
}

/// A request to publish a build.
#[derive(Debug, PartialEq, Eq)]
pub struct MemoryPublishRequest {
    pub project: ProjectRef,
    pub view_name: MemoryViewName,
    pub build_id: MemoryBuildId,
    pub expected: Option<MemoryPublicationVersion>,
}

/// The model of [`MemoryPublishRequest`].
pub struct MemoryPublishRequestView {
    pub project: ProjectRefView,
    pub view_name: Seq<char>,
    pub build_id: Seq<char>,
    pub expected: Option<MemoryPublicationVersionView>,
}

impl DeepView for MemoryPublishRequest {
    type V = MemoryPublishRequestView;

    open spec fn deep_view(&self) -> MemoryPublishRequestView {
        MemoryPublishRequestView {
            project: self.project.deep_view(),
            view_name: self.view_name.deep_view(),
            build_id: self.build_id.deep_view(),
            expected: self.expected.deep_view(),
        }
    }
}

impl Record for MemoryPublishRequest {
    fn copied(&self) -> (copy: Self) {
        MemoryPublishRequest {
            project: self.project.copied(),
            view_name: self.view_name.copied(),
            build_id: self.build_id.copied(),
            expected: self.expected.copied(),
        }
    }

    fn same(&self, other: &Self) -> (same: bool) {
        self.project.same(&other.project)
            && self.view_name.same(&other.view_name)
            && self.build_id.same(&other.build_id)
            && self.expected.same(&other.expected)
    }
}

impl Clone for MemoryPublishRequest {
    fn clone(&self) -> (copy: Self)
        ensures
            copy.deep_view() == self.deep_view(),
    {
        self.copied()
    }
}

impl MemoryPublishRequestView {
    /// The members of the JSON object.
    pub open spec fn members(self) -> Seq<(Seq<char>, Seq<char>)> {
        seq![
            ("project"@, <ProjectRef as ToJson>::json(self.project)),
            ("view_name"@, <MemoryViewName as ToJson>::json(self.view_name)),
            ("build_id"@, <MemoryBuildId as ToJson>::json(self.build_id)),
            ("expected"@, <Option<MemoryPublicationVersion> as ToJson>::json(self.expected)),
        ]
    }
}

impl ToJson for MemoryPublishRequest {
    open spec fn json(model: MemoryPublishRequestView) -> Seq<char> {
        json_object(model.members())
    }

    fn to_json(&self) -> (text: String) {
        let object = JsonObject::new()
            .member("project", self.project.to_json())
            .member("view_name", self.view_name.to_json())
            .member("build_id", self.build_id.to_json())
            .member("expected", self.expected.to_json());
        assert(object.members() =~= self.deep_view().members());
        object.finish()
    }
}

/// A published view.
#[derive(Debug, PartialEq, Eq)]
pub struct PublishedMemoryRevision {
    pub project: ProjectRef,
    pub view_name: MemoryViewName,
    pub revision_id: MemoryRevisionId,
    pub build_id: MemoryBuildId,
    pub generation: u64,
}

/// The model of [`PublishedMemoryRevision`].
pub struct PublishedMemoryRevisionView {
    pub project: ProjectRefView,
    pub view_name: Seq<char>,
    pub revision_id: Seq<char>,
    pub build_id: Seq<char>,
    pub generation: u64,
}

impl DeepView for PublishedMemoryRevision {
    type V = PublishedMemoryRevisionView;

    open spec fn deep_view(&self) -> PublishedMemoryRevisionView {
        PublishedMemoryRevisionView {
            project: self.project.deep_view(),
            view_name: self.view_name.deep_view(),
            revision_id: self.revision_id.deep_view(),
            build_id: self.build_id.deep_view(),
            generation: self.generation.deep_view(),
        }
    }
}

impl Record for PublishedMemoryRevision {
    fn copied(&self) -> (copy: Self) {
        PublishedMemoryRevision {
            project: self.project.copied(),
            view_name: self.view_name.copied(),
            revision_id: self.revision_id.copied(),
            build_id: self.build_id.copied(),
            generation: self.generation.copied(),
        }
    }

    fn same(&self, other: &Self) -> (same: bool) {
        self.project.same(&other.project)
            && self.view_name.same(&other.view_name)
            && self.revision_id.same(&other.revision_id)
            && self.build_id.same(&other.build_id)
            && self.generation.same(&other.generation)
    }
}

impl Clone for PublishedMemoryRevision {
    fn clone(&self) -> (copy: Self)
        ensures
            copy.deep_view() == self.deep_view(),
    {
        self.copied()
    }
}

impl PublishedMemoryRevisionView {
    /// The members of the JSON object.
    pub open spec fn members(self) -> Seq<(Seq<char>, Seq<char>)> {
        seq![
            ("project"@, <ProjectRef as ToJson>::json(self.project)),
            ("view_name"@, <MemoryViewName as ToJson>::json(self.view_name)),
            ("revision_id"@, <MemoryRevisionId as ToJson>::json(self.revision_id)),
            ("build_id"@, <MemoryBuildId as ToJson>::json(self.build_id)),
            ("generation"@, <u64 as ToJson>::json(self.generation)),
        ]
    }
}

impl ToJson for PublishedMemoryRevision {
    open spec fn json(model: PublishedMemoryRevisionView) -> Seq<char> {
        json_object(model.members())
    }

    fn to_json(&self) -> (text: String) {
        let object = JsonObject::new()
            .member("project", self.project.to_json())
            .member("view_name", self.view_name.to_json())
            .member("revision_id", self.revision_id.to_json())
            .member("build_id", self.build_id.to_json())
            .member("generation", self.generation.to_json());
        assert(object.members() =~= self.deep_view().members());
        object.finish()
    }
}

/// What came of a request to publish.
#[derive(Debug, PartialEq, Eq)]
#[allow(inconsistent_fields)]
pub enum MemoryPublicationOutcome {
    Published {
        view: PublishedMemoryRevision,
    },
    Superseded {
        current: PublishedMemoryRevision,
    },
}

/// The model of [`MemoryPublicationOutcome`].
#[allow(inconsistent_fields)]
pub enum MemoryPublicationOutcomeView {
    Published {
        view: PublishedMemoryRevisionView,
    },
    Superseded {
        current: PublishedMemoryRevisionView,
    },
}

impl DeepView for MemoryPublicationOutcome {
    type V = MemoryPublicationOutcomeView;

    open spec fn deep_view(&self) -> MemoryPublicationOutcomeView {
        match self {
            MemoryPublicationOutcome::Published { view } => {
                MemoryPublicationOutcomeView::Published { view: view.deep_view() }
            },
            MemoryPublicationOutcome::Superseded { current } => {
                MemoryPublicationOutcomeView::Superseded { current: current.deep_view() }
            },
        }
    }
}

impl Record for MemoryPublicationOutcome {
    fn copied(&self) -> (copy: Self) {
        match self {
            MemoryPublicationOutcome::Published { view } => MemoryPublicationOutcome::Published {
                view: view.copied(),
            },
            MemoryPublicationOutcome::Superseded { current } => {
                MemoryPublicationOutcome::Superseded { current: current.copied() }
            },
        }
    }

    fn same(&self, other: &Self) -> (same: bool) {
        match self {
            MemoryPublicationOutcome::Published { view: left_view } => match other {
                MemoryPublicationOutcome::Published { view: right_view } => {
                    left_view.same(right_view)
                },
                _ => false,
            },
            MemoryPublicationOutcome::Superseded { current: left_current } => match other {
                MemoryPublicationOutcome::Superseded { current: right_current } => {
                    left_current.same(right_current)
                },
                _ => false,
            },
        }
    }
}

impl Clone for MemoryPublicationOutcome {
    fn clone(&self) -> (copy: Self)
        ensures
            copy.deep_view() == self.deep_view(),
    {
        self.copied()
    }
}

impl MemoryPublicationOutcomeView {
    /// The members of the JSON object.
    pub open spec fn members(self) -> Seq<(Seq<char>, Seq<char>)> {
        match self {
            MemoryPublicationOutcomeView::Published { view } => seq![
                ("status"@, json_string("published"@)),
                ("view"@, <PublishedMemoryRevision as ToJson>::json(view)),
            ],
            MemoryPublicationOutcomeView::Superseded { current } => seq![
                ("status"@, json_string("superseded"@)),
                ("current"@, <PublishedMemoryRevision as ToJson>::json(current)),
            ],
        }
    }
}

impl ToJson for MemoryPublicationOutcome {
    open spec fn json(model: MemoryPublicationOutcomeView) -> Seq<char> {
        json_object(model.members())
    }

    fn to_json(&self) -> (text: String) {
        let object = match self {
            MemoryPublicationOutcome::Published { view } => JsonObject::new()
                .member("status", text_json("published"))
                .member("view", view.to_json()),
            MemoryPublicationOutcome::Superseded { current } => {
                JsonObject::new()
                    .member("status", text_json("superseded"))
                    .member("current", current.to_json())
            },
        };
        assert(object.members() =~= self.deep_view().members());
        object.finish()
    }
}

/// A source that the policy admits.
#[derive(Debug, PartialEq, Eq)]
pub struct AuthorizedSourceDescriptor {
    pub project: ProjectRef,
    pub category: MemorySourceCategory,
    pub locator: MemorySourceLocator,
    pub fingerprint: Digest,
    pub byte_len: u64,
}

/// The model of [`AuthorizedSourceDescriptor`].
pub struct AuthorizedSourceDescriptorView {
    pub project: ProjectRefView,
    pub category: MemorySourceCategory,
    pub locator: MemorySourceLocatorView,
    pub fingerprint: DigestView,
    pub byte_len: u64,
}

impl DeepView for AuthorizedSourceDescriptor {
    type V = AuthorizedSourceDescriptorView;

    open spec fn deep_view(&self) -> AuthorizedSourceDescriptorView {
        AuthorizedSourceDescriptorView {
            project: self.project.deep_view(),
            category: self.category.deep_view(),
            locator: self.locator.deep_view(),
            fingerprint: self.fingerprint.deep_view(),
            byte_len: self.byte_len.deep_view(),
        }
    }
}

impl Record for AuthorizedSourceDescriptor {
    fn copied(&self) -> (copy: Self) {
        AuthorizedSourceDescriptor {
            project: self.project.copied(),
            category: self.category.copied(),
            locator: self.locator.copied(),
            fingerprint: self.fingerprint.copied(),
            byte_len: self.byte_len.copied(),
        }
    }

    fn same(&self, other: &Self) -> (same: bool) {
        self.project.same(&other.project)
            && self.category.same(&other.category)
            && self.locator.same(&other.locator)
            && self.fingerprint.same(&other.fingerprint)
            && self.byte_len.same(&other.byte_len)
    }
}

impl Clone for AuthorizedSourceDescriptor {
    fn clone(&self) -> (copy: Self)
        ensures
            copy.deep_view() == self.deep_view(),
    {
        self.copied()
    }
}

impl AuthorizedSourceDescriptorView {
    /// The members of the JSON object.
    pub open spec fn members(self) -> Seq<(Seq<char>, Seq<char>)> {
        seq![
            ("project"@, <ProjectRef as ToJson>::json(self.project)),
            ("category"@, <MemorySourceCategory as ToJson>::json(self.category)),
            ("locator"@, <MemorySourceLocator as ToJson>::json(self.locator)),
            ("fingerprint"@, <Digest as ToJson>::json(self.fingerprint)),
            ("byte_len"@, <u64 as ToJson>::json(self.byte_len)),
        ]
    }
}

impl ToJson for AuthorizedSourceDescriptor {
    open spec fn json(model: AuthorizedSourceDescriptorView) -> Seq<char> {
        json_object(model.members())
    }

    fn to_json(&self) -> (text: String) {
        let object = JsonObject::new()
            .member("project", self.project.to_json())
            .member("category", self.category.to_json())
            .member("locator", self.locator.to_json())
            .member("fingerprint", self.fingerprint.to_json())
            .member("byte_len", self.byte_len.to_json());
        assert(object.members() =~= self.deep_view().members());
        object.finish()
    }
}

/// All the sources that the policy admits.
#[derive(Debug, PartialEq, Eq)]
pub struct AuthorizedSourceManifest {
    pub project: ProjectRef,
    pub policy_digest: Digest,
    pub source_set_digest: Digest,
    pub extractor_set_digest: Digest,
    pub sources: Vec<AuthorizedSourceDescriptor>,
}

/// The model of [`AuthorizedSourceManifest`].
pub struct AuthorizedSourceManifestView {
    pub project: ProjectRefView,
    pub policy_digest: DigestView,
    pub source_set_digest: DigestView,
    pub extractor_set_digest: DigestView,
    pub sources: Seq<AuthorizedSourceDescriptorView>,
}

impl DeepView for AuthorizedSourceManifest {
    type V = AuthorizedSourceManifestView;

    open spec fn deep_view(&self) -> AuthorizedSourceManifestView {
        AuthorizedSourceManifestView {
            project: self.project.deep_view(),
            policy_digest: self.policy_digest.deep_view(),
            source_set_digest: self.source_set_digest.deep_view(),
            extractor_set_digest: self.extractor_set_digest.deep_view(),
            sources: self.sources.deep_view(),
        }
    }
}

impl Record for AuthorizedSourceManifest {
    fn copied(&self) -> (copy: Self) {
        AuthorizedSourceManifest {
            project: self.project.copied(),
            policy_digest: self.policy_digest.copied(),
            source_set_digest: self.source_set_digest.copied(),
            extractor_set_digest: self.extractor_set_digest.copied(),
            sources: self.sources.copied(),
        }
    }

    fn same(&self, other: &Self) -> (same: bool) {
        self.project.same(&other.project)
            && self.policy_digest.same(&other.policy_digest)
            && self.source_set_digest.same(&other.source_set_digest)
            && self.extractor_set_digest.same(&other.extractor_set_digest)
            && self.sources.same(&other.sources)
    }
}

impl Clone for AuthorizedSourceManifest {
    fn clone(&self) -> (copy: Self)
        ensures
            copy.deep_view() == self.deep_view(),
    {
        self.copied()
    }
}

impl AuthorizedSourceManifestView {
    /// The members of the JSON object.
    pub open spec fn members(self) -> Seq<(Seq<char>, Seq<char>)> {
        seq![
            ("project"@, <ProjectRef as ToJson>::json(self.project)),
            ("policy_digest"@, <Digest as ToJson>::json(self.policy_digest)),
            ("source_set_digest"@, <Digest as ToJson>::json(self.source_set_digest)),
            ("extractor_set_digest"@, <Digest as ToJson>::json(self.extractor_set_digest)),
            ("sources"@, <Vec<AuthorizedSourceDescriptor> as ToJson>::json(self.sources)),
        ]
    }
}

impl ToJson for AuthorizedSourceManifest {
    open spec fn json(model: AuthorizedSourceManifestView) -> Seq<char> {
        json_object(model.members())
    }

    fn to_json(&self) -> (text: String) {
        let object = JsonObject::new()
            .member("project", self.project.to_json())
            .member("policy_digest", self.policy_digest.to_json())
            .member("source_set_digest", self.source_set_digest.to_json())
            .member("extractor_set_digest", self.extractor_set_digest.to_json())
            .member("sources", self.sources.to_json());
        assert(object.members() =~= self.deep_view().members());
        object.finish()
    }
}

/// The facts of one source.
#[derive(Debug, PartialEq, Eq)]
pub struct MemoryFragment {
    pub entities: Vec<MemoryEntity>,
    pub relationships: Vec<MemoryRelationship>,
}

/// The model of [`MemoryFragment`].
pub struct MemoryFragmentView {
    pub entities: Seq<MemoryEntityView>,
    pub relationships: Seq<MemoryRelationshipView>,
}

impl DeepView for MemoryFragment {
    type V = MemoryFragmentView;

    open spec fn deep_view(&self) -> MemoryFragmentView {
        MemoryFragmentView {
            entities: self.entities.deep_view(),
            relationships: self.relationships.deep_view(),
        }
    }
}

impl Record for MemoryFragment {
    fn copied(&self) -> (copy: Self) {
        MemoryFragment {
            entities: self.entities.copied(),
            relationships: self.relationships.copied(),
        }
    }

    fn same(&self, other: &Self) -> (same: bool) {
        self.entities.same(&other.entities)
            && self.relationships.same(&other.relationships)
    }
}

impl Clone for MemoryFragment {
    fn clone(&self) -> (copy: Self)
        ensures
            copy.deep_view() == self.deep_view(),
    {
        self.copied()
    }
}

impl MemoryFragmentView {
    /// The members of the JSON object.
    pub open spec fn members(self) -> Seq<(Seq<char>, Seq<char>)> {
        seq![
            ("entities"@, <Vec<MemoryEntity> as ToJson>::json(self.entities)),
            ("relationships"@, <Vec<MemoryRelationship> as ToJson>::json(self.relationships)),
        ]
    }
}

impl ToJson for MemoryFragment {
    open spec fn json(model: MemoryFragmentView) -> Seq<char> {
        json_object(model.members())
    }

    fn to_json(&self) -> (text: String) {
        let object = JsonObject::new()
            .member("entities", self.entities.to_json())
            .member("relationships", self.relationships.to_json());
        assert(object.members() =~= self.deep_view().members());
        object.finish()
    }
}

/// Under what the facts of a source are kept.
#[derive(Debug, PartialEq, Eq)]
pub struct MemoryFragmentCacheKey {
    pub project: ProjectRef,
    pub category: MemorySourceCategory,
    pub locator: MemorySourceLocator,
    pub source_fingerprint: Digest,
    pub policy_digest: Digest,
    pub extractor: MemoryExtractorIdentity,
}

/// The model of [`MemoryFragmentCacheKey`].
pub struct MemoryFragmentCacheKeyView {
    pub project: ProjectRefView,
    pub category: MemorySourceCategory,
    pub locator: MemorySourceLocatorView,
    pub source_fingerprint: DigestView,
    pub policy_digest: DigestView,
    pub extractor: MemoryExtractorIdentityView,
}

impl DeepView for MemoryFragmentCacheKey {
    type V = MemoryFragmentCacheKeyView;

    open spec fn deep_view(&self) -> MemoryFragmentCacheKeyView {
        MemoryFragmentCacheKeyView {
            project: self.project.deep_view(),
            category: self.category.deep_view(),
            locator: self.locator.deep_view(),
            source_fingerprint: self.source_fingerprint.deep_view(),
            policy_digest: self.policy_digest.deep_view(),
            extractor: self.extractor.deep_view(),
        }
    }
}

impl Record for MemoryFragmentCacheKey {
    fn copied(&self) -> (copy: Self) {
        MemoryFragmentCacheKey {
            project: self.project.copied(),
            category: self.category.copied(),
            locator: self.locator.copied(),
            source_fingerprint: self.source_fingerprint.copied(),
            policy_digest: self.policy_digest.copied(),
            extractor: self.extractor.copied(),
        }
    }

    fn same(&self, other: &Self) -> (same: bool) {
        self.project.same(&other.project)
            && self.category.same(&other.category)
            && self.locator.same(&other.locator)
            && self.source_fingerprint.same(&other.source_fingerprint)
            && self.policy_digest.same(&other.policy_digest)
            && self.extractor.same(&other.extractor)
    }
}

impl Clone for MemoryFragmentCacheKey {
    fn clone(&self) -> (copy: Self)
        ensures
            copy.deep_view() == self.deep_view(),
    {
        self.copied()
    }
}

impl MemoryFragmentCacheKeyView {
    /// The members of the JSON object.
    pub open spec fn members(self) -> Seq<(Seq<char>, Seq<char>)> {
        seq![
            ("project"@, <ProjectRef as ToJson>::json(self.project)),
            ("category"@, <MemorySourceCategory as ToJson>::json(self.category)),
            ("locator"@, <MemorySourceLocator as ToJson>::json(self.locator)),
            ("source_fingerprint"@, <Digest as ToJson>::json(self.source_fingerprint)),
            ("policy_digest"@, <Digest as ToJson>::json(self.policy_digest)),
            ("extractor"@, <MemoryExtractorIdentity as ToJson>::json(self.extractor)),
        ]
    }
}

impl ToJson for MemoryFragmentCacheKey {
    open spec fn json(model: MemoryFragmentCacheKeyView) -> Seq<char> {
        json_object(model.members())
    }

    fn to_json(&self) -> (text: String) {
        let object = JsonObject::new()
            .member("project", self.project.to_json())
            .member("category", self.category.to_json())
            .member("locator", self.locator.to_json())
            .member("source_fingerprint", self.source_fingerprint.to_json())
            .member("policy_digest", self.policy_digest.to_json())
            .member("extractor", self.extractor.to_json());
        assert(object.members() =~= self.deep_view().members());
        object.finish()
    }
}

/// The kept facts of a source.
#[derive(Debug, PartialEq, Eq)]
pub struct CachedMemoryFragment {
    pub key: MemoryFragmentCacheKey,
    pub fragment: MemoryFragment,
}

/// The model of [`CachedMemoryFragment`].
pub struct CachedMemoryFragmentView {
    pub key: MemoryFragmentCacheKeyView,
    pub fragment: MemoryFragmentView,
}

impl DeepView for CachedMemoryFragment {
    type V = CachedMemoryFragmentView;

    open spec fn deep_view(&self) -> CachedMemoryFragmentView {
        CachedMemoryFragmentView {
            key: self.key.deep_view(),
            fragment: self.fragment.deep_view(),
        }
    }
}

impl Record for CachedMemoryFragment {
    fn copied(&self) -> (copy: Self) {
        CachedMemoryFragment {
            key: self.key.copied(),
            fragment: self.fragment.copied(),
        }
    }

    fn same(&self, other: &Self) -> (same: bool) {
        self.key.same(&other.key)
            && self.fragment.same(&other.fragment)
    }
}

impl Clone for CachedMemoryFragment {
    fn clone(&self) -> (copy: Self)
        ensures
            copy.deep_view() == self.deep_view(),
    {
        self.copied()
    }
}

impl CachedMemoryFragmentView {
    /// The members of the JSON object.
    pub open spec fn members(self) -> Seq<(Seq<char>, Seq<char>)> {
        seq![
            ("key"@, <MemoryFragmentCacheKey as ToJson>::json(self.key)),
            ("fragment"@, <MemoryFragment as ToJson>::json(self.fragment)),
        ]
    }
}

impl ToJson for CachedMemoryFragment {
    open spec fn json(model: CachedMemoryFragmentView) -> Seq<char> {
        json_object(model.members())
    }

    fn to_json(&self) -> (text: String) {
        let object = JsonObject::new()
            .member("key", self.key.to_json())
            .member("fragment", self.fragment.to_json());
        assert(object.members() =~= self.deep_view().members());
        object.finish()
    }
}

/// What a set of repository links was resolved against.
#[derive(Debug, PartialEq, Eq)]
pub struct MemoryRepositoryLinkSet {
    pub id: MemoryRepositoryLinkSetId,
    pub project: ProjectRef,
    pub memory_revision_id: MemoryRevisionId,
    pub repository: RepositoryRef,
    pub repository_snapshot_id: Option<SnapshotId>,
    pub resolver: MemoryExtractorIdentity,
}

/// The model of [`MemoryRepositoryLinkSet`].
pub struct MemoryRepositoryLinkSetView {
    pub id: Seq<char>,
    pub project: ProjectRefView,
    pub memory_revision_id: Seq<char>,
    pub repository: RepositoryRefView,
    pub repository_snapshot_id: Option<Seq<char>>,
    pub resolver: MemoryExtractorIdentityView,
}

impl DeepView for MemoryRepositoryLinkSet {
    type V = MemoryRepositoryLinkSetView;

    open spec fn deep_view(&self) -> MemoryRepositoryLinkSetView {
        MemoryRepositoryLinkSetView {
            id: self.id.deep_view(),
            project: self.project.deep_view(),
            memory_revision_id: self.memory_revision_id.deep_view(),
            repository: self.repository.deep_view(),
            repository_snapshot_id: self.repository_snapshot_id.deep_view(),
            resolver: self.resolver.deep_view(),
        }
    }
}

impl Record for MemoryRepositoryLinkSet {
    fn copied(&self) -> (copy: Self) {
        MemoryRepositoryLinkSet {
            id: self.id.copied(),
            project: self.project.copied(),
            memory_revision_id: self.memory_revision_id.copied(),
            repository: self.repository.copied(),
            repository_snapshot_id: self.repository_snapshot_id.copied(),
            resolver: self.resolver.copied(),
        }
    }

    fn same(&self, other: &Self) -> (same: bool) {
        self.id.same(&other.id)
            && self.project.same(&other.project)
            && self.memory_revision_id.same(&other.memory_revision_id)
            && self.repository.same(&other.repository)
            && self.repository_snapshot_id.same(&other.repository_snapshot_id)
            && self.resolver.same(&other.resolver)
    }
}

impl Clone for MemoryRepositoryLinkSet {
    fn clone(&self) -> (copy: Self)
        ensures
            copy.deep_view() == self.deep_view(),
    {
        self.copied()
    }
}

impl MemoryRepositoryLinkSetView {
    /// The members of the JSON object.
    pub open spec fn members(self) -> Seq<(Seq<char>, Seq<char>)> {
        seq![
            ("id"@, <MemoryRepositoryLinkSetId as ToJson>::json(self.id)),
            ("project"@, <ProjectRef as ToJson>::json(self.project)),
            ("memory_revision_id"@, <MemoryRevisionId as ToJson>::json(self.memory_revision_id)),
            ("repository"@, <RepositoryRef as ToJson>::json(self.repository)),
            ("repository_snapshot_id"@, <Option<SnapshotId> as ToJson>::json(self.repository_snapshot_id)),
            ("resolver"@, <MemoryExtractorIdentity as ToJson>::json(self.resolver)),
        ]
    }
}

impl ToJson for MemoryRepositoryLinkSet {
    open spec fn json(model: MemoryRepositoryLinkSetView) -> Seq<char> {
        json_object(model.members())
    }

    fn to_json(&self) -> (text: String) {
        let object = JsonObject::new()
            .member("id", self.id.to_json())
            .member("project", self.project.to_json())
            .member("memory_revision_id", self.memory_revision_id.to_json())
            .member("repository", self.repository.to_json())
            .member("repository_snapshot_id", self.repository_snapshot_id.to_json())
            .member("resolver", self.resolver.to_json());
        assert(object.members() =~= self.deep_view().members());
        object.finish()
    }
}

/// A set of repository links with what its resolution noticed.
#[derive(Debug, PartialEq, Eq)]
pub struct MemoryRepositoryLinkCommit {
    pub link_set: MemoryRepositoryLinkSet,
    pub relationships: Vec<MemoryRelationship>,
    pub diagnostics: Vec<MemoryDiagnostic>,
}

/// The model of [`MemoryRepositoryLinkCommit`].
pub struct MemoryRepositoryLinkCommitView {
    pub link_set: MemoryRepositoryLinkSetView,
    pub relationships: Seq<MemoryRelationshipView>,
    pub diagnostics: Seq<MemoryDiagnosticView>,
}

impl DeepView for MemoryRepositoryLinkCommit {
    type V = MemoryRepositoryLinkCommitView;

    open spec fn deep_view(&self) -> MemoryRepositoryLinkCommitView {
        MemoryRepositoryLinkCommitView {
            link_set: self.link_set.deep_view(),
            relationships: self.relationships.deep_view(),
            diagnostics: self.diagnostics.deep_view(),
        }
    }
}

impl Record for MemoryRepositoryLinkCommit {
    fn copied(&self) -> (copy: Self) {
        MemoryRepositoryLinkCommit {
            link_set: self.link_set.copied(),
            relationships: self.relationships.copied(),
            diagnostics: self.diagnostics.copied(),
        }
    }

    fn same(&self, other: &Self) -> (same: bool) {
        self.link_set.same(&other.link_set)
            && self.relationships.same(&other.relationships)
            && self.diagnostics.same(&other.diagnostics)
    }
}

impl Clone for MemoryRepositoryLinkCommit {
    fn clone(&self) -> (copy: Self)
        ensures
            copy.deep_view() == self.deep_view(),
    {
        self.copied()
    }
}

impl MemoryRepositoryLinkCommitView {
    /// The members of the JSON object.
    pub open spec fn members(self) -> Seq<(Seq<char>, Seq<char>)> {
        seq![
            ("link_set"@, <MemoryRepositoryLinkSet as ToJson>::json(self.link_set)),
            ("relationships"@, <Vec<MemoryRelationship> as ToJson>::json(self.relationships)),
            ("diagnostics"@, <Vec<MemoryDiagnostic> as ToJson>::json(self.diagnostics)),
        ]
    }
}

impl ToJson for MemoryRepositoryLinkCommit {
    open spec fn json(model: MemoryRepositoryLinkCommitView) -> Seq<char> {
        json_object(model.members())
    }

    fn to_json(&self) -> (text: String) {
        let object = JsonObject::new()
            .member("link_set", self.link_set.to_json())
            .member("relationships", self.relationships.to_json())
            .member("diagnostics", self.diagnostics.to_json());
        assert(object.members() =~= self.deep_view().members());
        object.finish()
    }
}

/// What a build counted.
#[derive(Debug, PartialEq, Eq)]
pub struct MemoryBuildMetrics {
    pub discovered_sources: u64,
    pub reused_sources: u64,
    pub extracted_sources: u64,
    pub skipped_sources: u64,
    pub failed_sources: u64,
    pub processed_bytes: u64,
    pub entities: u64,
    pub relationships: u64,
    pub stale_links: u64,
    pub diagnostics: u64,
    pub duration_ms: u64,
}

/// The model of [`MemoryBuildMetrics`].
pub struct MemoryBuildMetricsView {
    pub discovered_sources: u64,
    pub reused_sources: u64,
    pub extracted_sources: u64,
    pub skipped_sources: u64,
    pub failed_sources: u64,
    pub processed_bytes: u64,
    pub entities: u64,
    pub relationships: u64,
    pub stale_links: u64,
    pub diagnostics: u64,
    pub duration_ms: u64,
}

impl Default for MemoryBuildMetrics {
    /// Nothing yet.
    fn default() -> (metrics: Self)
        ensures
            metrics.deep_view() == (MemoryBuildMetricsView {
                discovered_sources: 0,
                reused_sources: 0,
                extracted_sources: 0,
                skipped_sources: 0,
                failed_sources: 0,
                processed_bytes: 0,
                entities: 0,
                relationships: 0,
                stale_links: 0,
                diagnostics: 0,
                duration_ms: 0,
            }),
    {
        MemoryBuildMetrics {
            discovered_sources: 0,
            reused_sources: 0,
            extracted_sources: 0,
            skipped_sources: 0,
            failed_sources: 0,
            processed_bytes: 0,
            entities: 0,
            relationships: 0,
            stale_links: 0,
            diagnostics: 0,
            duration_ms: 0,
        }
    }
}

impl DeepView for MemoryBuildMetrics {
    type V = MemoryBuildMetricsView;

    open spec fn deep_view(&self) -> MemoryBuildMetricsView {
        MemoryBuildMetricsView {
            discovered_sources: self.discovered_sources.deep_view(),
            reused_sources: self.reused_sources.deep_view(),
            extracted_sources: self.extracted_sources.deep_view(),
            skipped_sources: self.skipped_sources.deep_view(),
            failed_sources: self.failed_sources.deep_view(),
            processed_bytes: self.processed_bytes.deep_view(),
            entities: self.entities.deep_view(),
            relationships: self.relationships.deep_view(),
            stale_links: self.stale_links.deep_view(),
            diagnostics: self.diagnostics.deep_view(),
            duration_ms: self.duration_ms.deep_view(),
        }
    }
}

impl Record for MemoryBuildMetrics {
    fn copied(&self) -> (copy: Self) {
        MemoryBuildMetrics {
            discovered_sources: self.discovered_sources.copied(),
            reused_sources: self.reused_sources.copied(),
            extracted_sources: self.extracted_sources.copied(),
            skipped_sources: self.skipped_sources.copied(),
            failed_sources: self.failed_sources.copied(),
            processed_bytes: self.processed_bytes.copied(),
            entities: self.entities.copied(),
            relationships: self.relationships.copied(),
            stale_links: self.stale_links.copied(),
            diagnostics: self.diagnostics.copied(),
            duration_ms: self.duration_ms.copied(),
        }
    }

    fn same(&self, other: &Self) -> (same: bool) {
        self.discovered_sources.same(&other.discovered_sources)
            && self.reused_sources.same(&other.reused_sources)
            && self.extracted_sources.same(&other.extracted_sources)
            && self.skipped_sources.same(&other.skipped_sources)
            && self.failed_sources.same(&other.failed_sources)
            && self.processed_bytes.same(&other.processed_bytes)
            && self.entities.same(&other.entities)
            && self.relationships.same(&other.relationships)
            && self.stale_links.same(&other.stale_links)
            && self.diagnostics.same(&other.diagnostics)
            && self.duration_ms.same(&other.duration_ms)
    }
}

impl Clone for MemoryBuildMetrics {
    fn clone(&self) -> (copy: Self)
        ensures
            copy.deep_view() == self.deep_view(),
    {
        self.copied()
    }
}

impl MemoryBuildMetricsView {
    /// The members of the JSON object.
    pub open spec fn members(self) -> Seq<(Seq<char>, Seq<char>)> {
        seq![
            ("discovered_sources"@, <u64 as ToJson>::json(self.discovered_sources)),
            ("reused_sources"@, <u64 as ToJson>::json(self.reused_sources)),
            ("extracted_sources"@, <u64 as ToJson>::json(self.extracted_sources)),
            ("skipped_sources"@, <u64 as ToJson>::json(self.skipped_sources)),
            ("failed_sources"@, <u64 as ToJson>::json(self.failed_sources)),
            ("processed_bytes"@, <u64 as ToJson>::json(self.processed_bytes)),
            ("entities"@, <u64 as ToJson>::json(self.entities)),
            ("relationships"@, <u64 as ToJson>::json(self.relationships)),
            ("stale_links"@, <u64 as ToJson>::json(self.stale_links)),
            ("diagnostics"@, <u64 as ToJson>::json(self.diagnostics)),
            ("duration_ms"@, <u64 as ToJson>::json(self.duration_ms)),
        ]
    }
}

impl ToJson for MemoryBuildMetrics {
    open spec fn json(model: MemoryBuildMetricsView) -> Seq<char> {
        json_object(model.members())
    }

    fn to_json(&self) -> (text: String) {
        let object = JsonObject::new()
            .member("discovered_sources", self.discovered_sources.to_json())
            .member("reused_sources", self.reused_sources.to_json())
            .member("extracted_sources", self.extracted_sources.to_json())
            .member("skipped_sources", self.skipped_sources.to_json())
            .member("failed_sources", self.failed_sources.to_json())
            .member("processed_bytes", self.processed_bytes.to_json())
            .member("entities", self.entities.to_json())
            .member("relationships", self.relationships.to_json())
            .member("stale_links", self.stale_links.to_json())
            .member("diagnostics", self.diagnostics.to_json())
            .member("duration_ms", self.duration_ms.to_json());
        assert(object.members() =~= self.deep_view().members());
        object.finish()
    }
}

/// All that a build hands to the store.
#[derive(Debug, PartialEq, Eq)]
pub struct MemoryCommit {
    pub revision: MemoryRevision,
    pub entities: Vec<MemoryEntity>,
    pub relationships: Vec<MemoryRelationship>,
    pub cache_writes: Vec<CachedMemoryFragment>,
    pub diagnostics: Vec<MemoryDiagnostic>,
    pub repository_links: Vec<MemoryRepositoryLinkCommit>,
    pub metrics: MemoryBuildMetrics,
}

/// The model of [`MemoryCommit`].
pub struct MemoryCommitView {
    pub revision: MemoryRevisionView,
    pub entities: Seq<MemoryEntityView>,
    pub relationships: Seq<MemoryRelationshipView>,
    pub cache_writes: Seq<CachedMemoryFragmentView>,
    pub diagnostics: Seq<MemoryDiagnosticView>,
    pub repository_links: Seq<MemoryRepositoryLinkCommitView>,
    pub metrics: MemoryBuildMetricsView,
}

impl DeepView for MemoryCommit {
    type V = MemoryCommitView;

    open spec fn deep_view(&self) -> MemoryCommitView {
        MemoryCommitView {
            revision: self.revision.deep_view(),
            entities: self.entities.deep_view(),
            relationships: self.relationships.deep_view(),
            cache_writes: self.cache_writes.deep_view(),
            diagnostics: self.diagnostics.deep_view(),
            repository_links: self.repository_links.deep_view(),
            metrics: self.metrics.deep_view(),
        }
    }
}

impl Record for MemoryCommit {
    fn copied(&self) -> (copy: Self) {
        MemoryCommit {
            revision: self.revision.copied(),
            entities: self.entities.copied(),
            relationships: self.relationships.copied(),
            cache_writes: self.cache_writes.copied(),
            diagnostics: self.diagnostics.copied(),
            repository_links: self.repository_links.copied(),
            metrics: self.metrics.copied(),
        }
    }

    fn same(&self, other: &Self) -> (same: bool) {
        self.revision.same(&other.revision)
            && self.entities.same(&other.entities)
            && self.relationships.same(&other.relationships)
            && self.cache_writes.same(&other.cache_writes)
            && self.diagnostics.same(&other.diagnostics)
            && self.repository_links.same(&other.repository_links)
            && self.metrics.same(&other.metrics)
    }
}

impl Clone for MemoryCommit {
    fn clone(&self) -> (copy: Self)
        ensures
            copy.deep_view() == self.deep_view(),
    {
        self.copied()
    }
}

impl MemoryCommitView {
    /// The members of the JSON object.
    pub open spec fn members(self) -> Seq<(Seq<char>, Seq<char>)> {
        seq![
            ("revision"@, <MemoryRevision as ToJson>::json(self.revision)),
            ("entities"@, <Vec<MemoryEntity> as ToJson>::json(self.entities)),
            ("relationships"@, <Vec<MemoryRelationship> as ToJson>::json(self.relationships)),
            ("cache_writes"@, <Vec<CachedMemoryFragment> as ToJson>::json(self.cache_writes)),
            ("diagnostics"@, <Vec<MemoryDiagnostic> as ToJson>::json(self.diagnostics)),
            ("repository_links"@, <Vec<MemoryRepositoryLinkCommit> as ToJson>::json(self.repository_links)),
            ("metrics"@, <MemoryBuildMetrics as ToJson>::json(self.metrics)),
        ]
    }
}

impl ToJson for MemoryCommit {
    open spec fn json(model: MemoryCommitView) -> Seq<char> {
        json_object(model.members())
    }

    fn to_json(&self) -> (text: String) {
        let object = JsonObject::new()
            .member("revision", self.revision.to_json())
            .member("entities", self.entities.to_json())
            .member("relationships", self.relationships.to_json())
            .member("cache_writes", self.cache_writes.to_json())
            .member("diagnostics", self.diagnostics.to_json())
            .member("repository_links", self.repository_links.to_json())
            .member("metrics", self.metrics.to_json());
        assert(object.members() =~= self.deep_view().members());
        object.finish()
    }
}

}
