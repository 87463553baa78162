use project_memory::deadline::QuestionLimit;
use project_memory::digest::Digest;
use project_memory::domain::{
    MemoryBuildId, MemoryRevision, MemoryRevisionId, ProjectId, ProjectNamespace, ProjectRef,
};
use project_memory::links::{
    explicit_references, explicit_references_until, resolve_repository_links_for_snapshot,
    ExplicitRepositoryReference, RepositoryLinkSnapshot, RepositoryLinkSnapshotSet,
    SnapshotLinkResolutionError,
};
use project_memory::repository::{
    FactProvenance, GraphNode, NodeId, RepositoryId, RepositoryNamespace, RepositoryRef, SnapshotId,
};

#[test]
fn only_explicit_inline_repository_references_are_accepted() {
    let references = explicit_references(
        "Use src/lib.rs, `path:src/lib.rs`, `symbol:rust:function:src/lib.rs:run`, and `https://example.com`.",
    );
    assert_eq!(references.len(), 2);
    assert!(matches!(references[0], ExplicitRepositoryReference::Path(_)));
    assert!(matches!(references[1], ExplicitRepositoryReference::Symbol(_)));
}

#[test]
fn explicit_reference_scan_checks_the_deadline_between_candidates() {
    let result = explicit_references_until(
        "`path:src/lib.rs` and `symbol:rust:function:src/lib.rs:run`",
        &mut QuestionLimit::after(2),
    );
    assert_eq!(result, Err(SnapshotLinkResolutionError::DeadlineExceeded));
}

fn revision() -> MemoryRevision {
    MemoryRevision {
        id: MemoryRevisionId::new("revision").unwrap(),
        project: ProjectRef {
            namespace: ProjectNamespace::new("local:test").unwrap(),
            project_id: ProjectId::new("project").unwrap(),
        },
        source_set_digest: Digest::new("sha256", "11").unwrap(),
        policy_digest: Digest::new("sha256", "22").unwrap(),
        memory_model_version: 1,
        extractor_set_digest: Digest::new("sha256", "33").unwrap(),
        completed_by: MemoryBuildId::new("build").unwrap(),
    }
}

fn snapshots(node_snapshot: &str) -> RepositoryLinkSnapshotSet {
    RepositoryLinkSnapshotSet {
        repository: RepositoryRef {
            namespace: RepositoryNamespace::new("local:test").unwrap(),
            repository_id: RepositoryId::new("repository").unwrap(),
        },
        current: RepositoryLinkSnapshot {
            snapshot_id: SnapshotId::new("snapshot").unwrap(),
            nodes: vec![GraphNode {
                snapshot_id: SnapshotId::new(node_snapshot).unwrap(),
                id: NodeId::new("node").unwrap(),
                kind: "symbol".to_string(),
                semantic_key: None,
                provenance: FactProvenance { evidence: None },
            }],
        },
        origins: vec![],
    }
}

#[test]
fn snapshot_link_resolution_checks_the_deadline_during_node_scans() {
    let result = resolve_repository_links_for_snapshot(
        &revision(),
        &vec![],
        &snapshots("snapshot"),
        "2026-08-11T00:00:00Z",
        &mut QuestionLimit::after(1),
    );
    assert_eq!(result, Err(SnapshotLinkResolutionError::DeadlineExceeded));
}

#[test]
fn nodes_of_another_snapshot_are_refused() {
    let result = resolve_repository_links_for_snapshot(
        &revision(),
        &vec![],
        &snapshots("elsewhere"),
        "2026-08-11T00:00:00Z",
        &mut QuestionLimit::after(1_000),
    );
    assert_eq!(result, Err(SnapshotLinkResolutionError::InvalidSnapshot));
    let found = resolve_repository_links_for_snapshot(
        &revision(),
        &vec![],
        &snapshots("snapshot"),
        "2026-08-11T00:00:00Z",
        &mut QuestionLimit::after(1_000),
    )
    .unwrap();
    assert!(found.relationships.is_empty());
    assert_eq!(found.link_set.memory_revision_id, revision().id);
}
