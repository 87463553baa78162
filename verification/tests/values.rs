use project_memory::diagnostics::{
    MemoryDiagnosticCode, MemoryLifecycleCounters, MemoryLifecycleEvent, MemoryLifecycleEventKind,
};
use project_memory::digest::Digest;
use project_memory::documents::{parse_spec_memory, OutcomeSectionKind};
use project_memory::domain::{
    AuthorizedSourceDescriptor, AuthorizedSourceManifest, MemoryBuildId, MemoryEntityId,
    MemoryRevision, MemorySourceCategory, MemorySourceLocator, MemoryStatusToken, MemoryText,
    ProjectId, ProjectNamespace, ProjectRef, MAX_MEMORY_TEXT_BYTES,
};
use project_memory::extractors::{built_in_extractor_set_digest, built_in_extractors};
use project_memory::json::{text_json, ToJson};
use project_memory::manifest::AuthorizedSourceManifestError;
use project_memory::policy::{
    MemoryContentAccess, MemoryPolicy, MemorySourcePolicy, MemorySourceSensitivity,
};
use project_memory::ports::{MemoryExtractor, MemorySourceContent, MemorySourceError};
use project_memory::repository::RepoPath;
use project_memory::store::{store_recovery, MemoryStoreError, StoreRecovery};
use project_memory::value::NonZeroU32;
use project_memory::workspace::{current_project, spec_directory, WorkspaceError};
use project_memory::MEMORY_MODEL_VERSION;

fn project() -> ProjectRef {
    ProjectRef {
        namespace: ProjectNamespace::new("local:test").unwrap(),
        project_id: ProjectId::new("project-1").unwrap(),
    }
}

#[test]
fn parses_stable_milestones_and_curated_outcome_subsections() {
    let parsed = parse_spec_memory(
        "# Example\n\n- [x] #1.0 Done\n\nID: one\nDepends on: none\n\n## Outcome\n\nDelivered.\n\n### Decisions\n\nUse SQLite.\n\n### Follow-up Work\n\nAdd CLI.\n",
    );
    assert_eq!(parsed.structure.title.as_deref(), Some("Example"));
    assert_eq!(parsed.structure.milestones.len(), 1);
    assert!(parsed.structure.milestones[0].completed);
    let outcome = parsed.outcome.unwrap();
    assert!(outcome.text.contains("Delivered"));
    assert_eq!(outcome.sections.len(), 2);
    assert_eq!(outcome.sections[0].kind, OutcomeSectionKind::Decision);
    assert_eq!(outcome.sections[1].kind, OutcomeSectionKind::FollowUp);
}

#[test]
fn bounded_memory_values_reject_empty_control_and_oversized_content() {
    assert!(MemoryText::new("approved outcome").is_ok());
    assert!(MemoryText::new("line one\nline two").is_ok());
    assert!(MemoryText::new("").is_err());
    assert!(MemoryText::new("secret\0suffix").is_err());
    assert!(MemoryText::new(&"x".repeat(MAX_MEMORY_TEXT_BYTES + 1)).is_err());
    assert!(MemoryEntityId::new("entity\nnewline").is_err());
}

#[test]
fn source_locators_cannot_represent_absolute_local_paths() {
    assert!(RepoPath::new("/Users/example/private/plan.md").is_err());
    assert!(RepoPath::new("../private/plan.md").is_err());
    assert!(RepoPath::new("docs/specs/plan.md").is_ok());
}

#[test]
fn revision_identity_inputs_exclude_timestamps_and_storage_details() {
    let mut manifest = AuthorizedSourceManifest {
        project: project(),
        policy_digest: Digest::new("sha256", "11").unwrap(),
        source_set_digest: Digest::new("sha256", "00").unwrap(),
        extractor_set_digest: Digest::new("sha256", "22").unwrap(),
        sources: Vec::new(),
    };
    manifest.source_set_digest = manifest.computed_source_set_digest().unwrap();
    let revision =
        MemoryRevision::from_manifest(&manifest, MemoryBuildId::new("build-1").unwrap()).unwrap();
    let text = revision.to_json();
    let json: serde_json::Value = serde_json::from_str(&text).unwrap();
    assert_eq!(json["memory_model_version"], MEMORY_MODEL_VERSION);
    for forbidden in ["created_at", "indexed_at", "database", "endpoint", "path"] {
        assert!(json.get(forbidden).is_none());
    }
}

fn manifest_of(sources: Vec<AuthorizedSourceDescriptor>) -> AuthorizedSourceManifest {
    AuthorizedSourceManifest {
        project: project(),
        policy_digest: Digest::new("sha256", "aa").unwrap(),
        source_set_digest: Digest::new("sha256", "00").unwrap(),
        extractor_set_digest: Digest::new("sha256", "bb").unwrap(),
        sources,
    }
}

fn record_source(record: &str, fingerprint: &str) -> AuthorizedSourceDescriptor {
    AuthorizedSourceDescriptor {
        project: project(),
        category: MemorySourceCategory::RuntimeProvenance,
        locator: MemorySourceLocator::RuntimeRecords {
            record_type: MemoryStatusToken::new(record).unwrap(),
        },
        fingerprint: Digest::new("sha256", fingerprint).unwrap(),
        byte_len: 10,
    }
}

#[test]
fn source_and_revision_identities_are_deterministic_across_discovery_order() {
    let mut first = manifest_of(vec![record_source("task", "11"), record_source("run", "22")]);
    first.source_set_digest = first.computed_source_set_digest().unwrap();
    let mut second = first.clone();
    second.sources.reverse();
    assert_eq!(
        first.computed_source_set_digest().unwrap(),
        second.computed_source_set_digest().unwrap()
    );
    assert_eq!(first.revision_id().unwrap(), second.revision_id().unwrap());
}

#[test]
fn manifests_must_own_their_sources_and_match_their_digest() {
    let mut manifest = manifest_of(vec![record_source("task", "11")]);
    assert_eq!(
        manifest.revision_id(),
        Err(AuthorizedSourceManifestError::SourceSetDigestMismatch)
    );
    manifest.source_set_digest = manifest.computed_source_set_digest().unwrap();
    assert!(manifest.revision_id().unwrap().as_str().starts_with("memory:"));
    manifest.sources[0].project.project_id = ProjectId::new("project-2").unwrap();
    assert_eq!(
        manifest.revision_id(),
        Err(AuthorizedSourceManifestError::ProjectMismatch)
    );
}

#[test]
fn default_policy_authorizes_only_curated_content_and_bounded_metadata() {
    let policy = MemoryPolicy::default();
    assert_eq!(policy.categories().len(), MemorySourceCategory::ALL.len());
    assert_eq!(policy.authorized_categories().len(), 4);
    assert!(policy.is_authorized(MemorySourceCategory::SpecificationStructure));
    assert!(policy.is_authorized(MemorySourceCategory::ApprovedOutcome));
    assert!(policy.is_authorized(MemorySourceCategory::ArchiveManifest));
    assert!(policy.is_authorized(MemorySourceCategory::RuntimeProvenance));
    assert!(!policy.is_authorized(MemorySourceCategory::TaskBody));
    assert_eq!(
        policy.category(MemorySourceCategory::PatchBody),
        Some(&MemorySourcePolicy {
            enabled: false,
            sensitivity: MemorySourceSensitivity::Sensitive,
            content_access: MemoryContentAccess::RawBody,
        })
    );
}

#[test]
fn policy_digest_is_deterministic() {
    assert_eq!(
        MemoryPolicy::default().digest(),
        MemoryPolicy::default().digest()
    );
    let mut changed = MemoryPolicy::default();
    let category = MemorySourceCategory::SpecificationStructure;
    let mut policy = changed.category(category).unwrap().clone();
    policy.enabled = !policy.enabled;
    changed.set(category, policy);
    assert_ne!(changed.digest(), MemoryPolicy::default().digest());
}

#[test]
fn built_in_extractor_set_is_stable_and_unique() {
    let extractors = built_in_extractors();
    let ids = extractors
        .iter()
        .map(|extractor| extractor.identity().id)
        .collect::<std::collections::BTreeSet<_>>();
    assert_eq!(ids.len(), extractors.len());
    assert_eq!(
        built_in_extractor_set_digest(),
        built_in_extractor_set_digest()
    );
}

#[test]
fn extraction_debug_output_redacts_source_content() {
    let content = MemorySourceContent {
        bytes: b"approved but private body".to_vec(),
    };
    let debug = content.description();
    assert!(debug.contains("byte_len"));
    assert!(!debug.contains("approved"));
    assert!(!debug.contains("private"));
    assert_eq!(debug, "MemorySourceContent { byte_len: 25 }");
}

#[test]
fn lifecycle_event_has_no_free_form_payload_channel() {
    let text = MemoryLifecycleEvent {
        kind: MemoryLifecycleEventKind::BuildStarted,
        project: project(),
        build_id: MemoryBuildId::new("build-1").unwrap(),
        revision_id: None,
        counters: MemoryLifecycleCounters::default(),
        duration_ms: None,
    }
    .to_json();
    let value: serde_json::Value = serde_json::from_str(&text).unwrap();
    for forbidden in ["message", "content", "body", "path", "metadata", "secret"] {
        assert!(value.get(forbidden).is_none());
    }
    assert_eq!(value["kind"], "build_started");
}

#[test]
fn query_budgets_reject_zero_values_at_the_wire_boundary() {
    assert!(NonZeroU32::new(0).is_none());
    assert_eq!(NonZeroU32::new(1).unwrap().get(), 1);
}

#[test]
fn digests_are_those_of_the_text() {
    assert_eq!(
        Digest::of_text("abc").value(),
        "ba7816bf8f01cfea414140de5dae2223b00361a396177a9cb410ff61f20015ad"
    );
    assert_eq!(Digest::of_text("abc").algorithm(), "sha256");
    assert!(Digest::new("sha256", "XY").is_err());
    assert!(Digest::new("", "00").is_err());
}

#[test]
fn json_texts_are_those_of_the_parser() {
    let code = MemoryDiagnosticCode::new("source.timeout").unwrap();
    assert_eq!(code.to_json(), "\"source.timeout\"");
    let text = "tab\there \"quoted\" \\ caf\u{e9} \u{1}".to_string();
    assert_eq!(text.to_json(), serde_json::to_string(&text).unwrap());
    assert_eq!(vec![1u64, 20, 300].to_json(), "[1,20,300]");
    assert_eq!(None::<u64>.to_json(), "null");
}

#[test]
fn texts_are_escaped_in_json() {
    for (text, literal) in [
        ("plain/ \u{e9}\u{7f}", "\"plain/ \u{e9}\u{7f}\""),
        ("\"\\", "\"\\\"\\\\\""),
        ("\u{8}\u{c}\n\r\t", "\"\\b\\f\\n\\r\\t\""),
        ("\u{0}\u{b}\u{1f}", "\"\\u0000\\u000b\\u001f\""),
    ] {
        assert_eq!(text_json(text), literal);
    }
}

#[test]
fn policies_hold_each_category_once() {
    let mut policy = MemoryPolicy::default();
    let count = policy.categories().len();
    let category = MemorySourceCategory::TaskBody;
    let mut changed = policy.category(category).unwrap().clone();
    assert!(!changed.enabled);
    changed.enabled = true;
    policy.set(category, changed.clone());
    assert_eq!(policy.categories().len(), count);
    assert_eq!(policy.category(category), Some(&changed));
    assert!(policy.is_authorized(category));
}

#[test]
fn specifications_lie_where_the_configuration_says() {
    for (document, expected) in [
        ("[spec]\ndirectory = \"plans\"\n", Ok("plans")),
        ("spec.directory = 'plans/now' # here\n", Ok("plans/now")),
        ("", Ok("docs/specs")),
        ("[spec]\nother = 1\n", Ok("docs/specs")),
        ("[spec]\ndirectory = 1\n", Ok("docs/specs")),
        ("spec = 1\n", Ok("docs/specs")),
        ("[other]\ndirectory = \"plans\"\n", Ok("docs/specs")),
        (
            "[spec]\ndirectory = \"../plans\"\n",
            Err(WorkspaceError::DirectoryOutside),
        ),
        (
            "[spec]\ndirectory = \"\"\n",
            Err(WorkspaceError::DirectoryOutside),
        ),
        ("[spec", Err(WorkspaceError::ConfigurationInvalid)),
        (
            "[spec]\ndirectory = 1\ndirectory = 2\n",
            Err(WorkspaceError::ConfigurationInvalid),
        ),
    ] {
        let directory = spec_directory(document);
        assert_eq!(
            directory.as_ref().map(RepoPath::as_str),
            expected.as_ref().map(|path| *path),
            "{document}"
        );
    }
}

#[test]
fn projects_are_known_by_their_registered_id() {
    let project = current_project("p-1", "p-1").unwrap();
    assert_eq!(project.namespace.as_str(), "local:ferrus");
    assert_eq!(project.project_id.as_str(), "p-1");
    assert_eq!(
        current_project("p-1", "p-2"),
        Err(WorkspaceError::IdentityMismatch)
    );
    let invalid = current_project("", "").unwrap_err();
    assert!(matches!(invalid, WorkspaceError::ProjectInvalid(_)));
    assert!(invalid.message().starts_with("project id must contain"));
    assert_eq!(
        WorkspaceError::IdentityMismatch.message(),
        "registered project identity does not match project metadata"
    );
    assert_eq!(
        WorkspaceError::DirectoryOutside.message(),
        "[spec].directory must be repository-relative"
    );
    assert_eq!(
        WorkspaceError::Sources(MemorySourceError::Unavailable).message(),
        "project memory sources: unavailable"
    );
}

#[test]
fn full_runs_replace_stores_that_need_a_rebuild() {
    let rebuild = MemoryStoreError::RequiresRebuild;
    assert_eq!(store_recovery(rebuild, true), StoreRecovery::Replace);
    assert_eq!(store_recovery(rebuild, false), StoreRecovery::Fail);
    assert_eq!(
        store_recovery(MemoryStoreError::Unavailable, true),
        StoreRecovery::Fail
    );
}
