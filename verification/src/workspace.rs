//! The workspace that is current: its project, and the directory of its specifications.
use vstd::prelude::*;
use crate::domain::{ProjectId, ProjectNamespace, ProjectRef, ProjectRefView, MAX_ID_BYTES};
use crate::ports::MemorySourceError;
use crate::repository::{is_repo_path, RepoPath};
use crate::text::joined;
use crate::value::{is_bounded_text, plain_text_is_bounded, MemoryValueError};

verus! {

/// The namespace of the projects of this machine.
pub const PROJECT_NAMESPACE: &'static str = "local:ferrus";

/// Where specifications lie, unless a workspace says otherwise.
pub const DEFAULT_SPEC_DIRECTORY: &'static str = "docs/specs";

/// Why the sources of the current workspace are not known.
#[derive(Debug, PartialEq, Eq)]
pub enum WorkspaceError {
    /// The project is registered under another id than its metadata says.
    IdentityMismatch,
    /// The configuration is no TOML document.
    ConfigurationInvalid,
    /// The directory of the specifications is no path in the repository.
    DirectoryOutside,
    /// The id of the project is not valid.
    ProjectInvalid(MemoryValueError),
    /// Its sources could not be found.
    Sources(MemorySourceError),
}

impl WorkspaceError {
    /// What is wrong, in words.
    pub open spec fn words(self) -> Seq<char> {
        match self {
            WorkspaceError::IdentityMismatch => {
                "registered project identity does not match project metadata"@
            },
            WorkspaceError::ConfigurationInvalid => "ferrus.toml is not valid"@,
            WorkspaceError::DirectoryOutside => "[spec].directory must be repository-relative"@,
            WorkspaceError::ProjectInvalid(error) => error.words(),
            WorkspaceError::Sources(error) => "project memory sources: "@ + error.name(),
        }
    }

    /// What is wrong, in words.
    pub fn message(&self) -> (message: String)
        ensures
            message@ == self.words(),
    {
        match self {
            WorkspaceError::IdentityMismatch => {
                "registered project identity does not match project metadata".to_owned()
            },
            WorkspaceError::ConfigurationInvalid => "ferrus.toml is not valid".to_owned(),
            WorkspaceError::DirectoryOutside => {
                "[spec].directory must be repository-relative".to_owned()
            },
            WorkspaceError::ProjectInvalid(error) => error.message(),
            WorkspaceError::Sources(error) => joined("project memory sources: ", error.as_str()),
        }
    }
}

/// The text under a key of a table in a TOML document, as `toml` reads it: nothing where the document is
/// not valid, and no text where there is no such table, no such key or no text under it.
pub uninterp spec fn toml_text(
    document: Seq<char>,
    table: Seq<char>,
    key: Seq<char>,
) -> Option<Option<Seq<char>>>;

/// `toml::from_str` into a `Value`, then `Value::get` twice and `Value::as_str`: the text under a key of
/// a table. It depends on the document, the table and the key alone. What a document gives is left
/// unsaid.
#[verifier::external_body]
pub(crate) fn read_toml_text(document: &str, table: &str, key: &str) -> (text: Option<
    Option<String>,
>)
    ensures
        text.deep_view() == toml_text(document@, table@, key@),
{
    let value: toml::Value = toml::from_str(document).ok()?;
    let table = value.get(table);
    let text = table.and_then(|table| table.get(key)).and_then(|text| text.as_str());
    Some(text.map(str::to_owned))
}

/// Where specifications lie: where the configuration says, or else where they lie by default.
pub open spec fn configured(text: Option<Seq<char>>) -> Seq<char> {
    match text {
        Some(text) => text,
        None => DEFAULT_SPEC_DIRECTORY@,
    }
}

/// The directory of the specifications, given what the configuration says of it.
pub open spec fn directory_named(text: Option<Option<Seq<char>>>) -> Result<
    Seq<char>,
    WorkspaceError,
> {
    match text {
        None => Err(WorkspaceError::ConfigurationInvalid),
        Some(text) => if is_repo_path(configured(text)) {
            Ok(configured(text))
        } else {
            Err(WorkspaceError::DirectoryOutside)
        },
    }
}

/// What finding a directory came to.
pub open spec fn directory_found(result: Result<RepoPath, WorkspaceError>) -> Result<
    Seq<char>,
    WorkspaceError,
> {
    match result {
        Ok(path) => Ok(path.deep_view()),
        Err(error) => Err(error),
    }
}

/// The directory of the specifications, given what the configuration says of it.
pub fn directory_of(text: Option<Option<String>>) -> (result: Result<RepoPath, WorkspaceError>)
    ensures
        directory_found(result) == directory_named(text.deep_view()),
{
    let text = match text {
        Some(Some(text)) => text,
        Some(None) => DEFAULT_SPEC_DIRECTORY.to_owned(),
        None => {
            return Err(WorkspaceError::ConfigurationInvalid);
        },
    };
    match RepoPath::new(text.as_str()) {
        Ok(path) => Ok(path),
        Err(_) => Err(WorkspaceError::DirectoryOutside),
    }
}

/// The directory of the specifications, as a configuration says: the text under `directory` in its table
/// `spec`, which has to be a path in the repository.
pub fn spec_directory(document: &str) -> (result: Result<RepoPath, WorkspaceError>)
    ensures
        directory_found(result) == directory_named(toml_text(document@, "spec"@, "directory"@)),
{
    directory_of(read_toml_text(document, "spec", "directory"))
}

/// The project with an id, among those of this machine.
pub open spec fn project_with(id: Seq<char>) -> ProjectRefView {
    ProjectRefView { namespace: PROJECT_NAMESPACE@, project_id: id }
}

/// The project with an id, among those of this machine.
pub fn project_named(id: &str) -> (result: Result<ProjectRef, MemoryValueError>)
    ensures
        result is Ok == is_bounded_text(id@, MAX_ID_BYTES as nat, false),
        result matches Ok(project) ==> project.deep_view() == project_with(id@),
        result matches Err(error) ==> error.describes("project id"@, MAX_ID_BYTES),
{
    proof {
        reveal_strlit("local:ferrus");
        plain_text_is_bounded(PROJECT_NAMESPACE@, MAX_ID_BYTES as nat, false);
    }
    let namespace = ProjectNamespace::new(PROJECT_NAMESPACE).unwrap();
    match ProjectId::new(id) {
        Ok(project_id) => Ok(ProjectRef { namespace, project_id }),
        Err(error) => Err(error),
    }
}

/// Refuses a project that is registered under another id than its metadata says.
pub fn check_identity(pointer_id: &str, metadata_id: &str) -> (result: Result<(), WorkspaceError>)
    ensures
        result is Ok == (pointer_id@ == metadata_id@),
        result matches Err(error) ==> error == WorkspaceError::IdentityMismatch,
{
    if pointer_id.to_owned() == metadata_id.to_owned() {
        Ok(())
    } else {
        Err(WorkspaceError::IdentityMismatch)
    }
}

/// The project that is registered under an id, where its metadata says the same.
pub fn current_project(pointer_id: &str, metadata_id: &str) -> (result: Result<
    ProjectRef,
    WorkspaceError,
>)
    ensures
        match result {
            Ok(project) => pointer_id@ == metadata_id@ && project.deep_view() == project_with(pointer_id@),
            Err(WorkspaceError::IdentityMismatch) => pointer_id@ != metadata_id@,
            Err(WorkspaceError::ProjectInvalid(error)) => pointer_id@ == metadata_id@ && error.describes(
                "project id"@,
                MAX_ID_BYTES,
            ),
            Err(_) => false,
        },
        result is Ok == (pointer_id@ == metadata_id@ && is_bounded_text(
            pointer_id@,
            MAX_ID_BYTES as nat,
            false,
        )),
{
    match check_identity(pointer_id, metadata_id) {
        Ok(()) => {},
        Err(error) => {
            return Err(error);
        },
    }
    match project_named(pointer_id) {
        Ok(project) => Ok(project),
        Err(error) => Err(WorkspaceError::ProjectInvalid(error)),
    }
}

/// Whether this is the current workspace, given what its configuration says of the directory: its project
/// is registered as its metadata says, its directory lies in the repository and its id is valid. What is
/// wrong first, in this order, is told.
pub open spec fn is_current(
    pointer_id: Seq<char>,
    metadata_id: Seq<char>,
    text: Option<Option<Seq<char>>>,
    result: Result<(ProjectRef, RepoPath), WorkspaceError>,
) -> bool {
    if pointer_id != metadata_id {
        result == Err::<(ProjectRef, RepoPath), _>(WorkspaceError::IdentityMismatch)
    } else {
        match directory_named(text) {
            Err(error) => result == Err::<(ProjectRef, RepoPath), _>(error),
            Ok(directory) => if is_bounded_text(pointer_id, MAX_ID_BYTES as nat, false) {
                result is Ok && result->Ok_0.0.deep_view() == project_with(pointer_id)
                    && result->Ok_0.1.deep_view() == directory
            } else {
                result is Err && result->Err_0 is ProjectInvalid && result->Err_0->ProjectInvalid_0.describes(
                    "project id"@,
                    MAX_ID_BYTES,
                )
            },
        }
    }
}

/// The current workspace, given what its configuration says of the directory.
pub fn workspace_of(pointer_id: &str, metadata_id: &str, text: Option<Option<String>>) -> (result: Result<
    (ProjectRef, RepoPath),
    WorkspaceError,
>)
    ensures
        is_current(pointer_id@, metadata_id@, text.deep_view(), result),
{
    match check_identity(pointer_id, metadata_id) {
        Ok(()) => {},
        Err(error) => {
            return Err(error);
        },
    }
    let directory = match directory_of(text) {
        Ok(directory) => directory,
        Err(error) => {
            return Err(error);
        },
    };
    match current_project(pointer_id, metadata_id) {
        Ok(project) => Ok((project, directory)),
        Err(error) => Err(error),
    }
}

/// The current workspace: the project that is registered under an id, and the directory of its
/// specifications as its configuration says.
pub fn current_workspace(pointer_id: &str, metadata_id: &str, document: &str) -> (result: Result<
    (ProjectRef, RepoPath),
    WorkspaceError,
>)
    ensures
        is_current(
            pointer_id@,
            metadata_id@,
            toml_text(document@, "spec"@, "directory"@),
            result,
        ),
{
    workspace_of(pointer_id, metadata_id, read_toml_text(document, "spec", "directory"))
}

}
