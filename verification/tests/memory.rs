use std::collections::{BTreeMap, BTreeSet};

use project_memory::budget::default_budget;
use project_memory::context::{context, ContextRecords};
use project_memory::content::{KeptFiles, LocalMemorySource};
use project_memory::deadline::{Deadline, QuestionLimit};
use project_memory::digest::Digest;
use project_memory::diagnostics::MemoryDiagnosticCode;
use project_memory::documents::parse_spec_memory;
use project_memory::domain::{
    FederationPageCursor, MemoryEntity, MemoryEntityData, MemoryEntityId, MemoryEvidenceLocator,
    MemoryPageCursor, MemoryQueryText, MemoryRecordId, MemoryRelationship,
    MemoryRelationshipTarget, MemoryRepositoryLinkCommit, MemoryRepositoryLinkSetId, MemoryResolutionState, MemoryRevisionId,
    MemorySourceCategory, MemorySourceLocator, MemoryViewName, ProjectId, ProjectNamespace,
    ProjectRef, PublishedMemoryRevision,
};
use project_memory::federation::context::federated_context as federated_context_within;
use project_memory::federation::fitting::{
    fit_federated_context_response, fit_federated_search_response, PagePlace,
};
use project_memory::federation::{
    ContextDomain, FederatedContextItem, FederatedContextRequest, FederatedContextSeed,
    FederatedScope, FederatedSearchRequest, FederatedSearchResult, FederatedTarget,
    RepositoryContextTarget,
};
use project_memory::index::{
    next_build_id, published_revision, MemoryIndexError, MemoryIndexOptions, MemoryIndexOutcome,
    MemoryIndexer,
};
use project_memory::json::{serialized_len, ToJson};
use project_memory::kept::{bounded_read, KeptGraph, KeptLinks, KeptRecords, KeptResolver};
use project_memory::ledger::{MemoryLedger, MemoryStore};
use project_memory::links::{GraphOpening, LocalRepositoryLinkResolver, LocalSnapshot, SymbolNode};
use project_memory::policy::{MemoryPolicy, MemorySourceSensitivity};
use project_memory::ports::{
    GraphQuery, LinkSetRequest, LinksRequest, MemoryContent, MemoryLinkStore, MemoryQuery, MemorySource,
    MemorySourceError,
};
use project_memory::query::{
    MemoryContentRequest, MemoryContentResponse, MemoryContextPolicy, MemoryContextRequest,
    MemoryContextSeed, MemoryFreshness, MemoryFreshnessComparison, MemoryPageRequest,
    MemoryQueryBudget, MemoryQueryError, MemoryQueryScope, MemoryRetrievalAction, MemoryRevisionSelector,
    MemorySearchRequest, MemoryStatusRequest, MemoryTruncationReason,
};
use project_memory::repository::{
    ContextItem, ContextPolicy, ContextRequest, ContextResponse, ContextSeed, ContextSelectionKind,
    ContextSelectionReason, DiagnosticsEnvelope, EdgeDirection, FactEvidence, Freshness,
    FreshnessEnvelope, NodeId, PageInfo, PublishedViewName, QueryBudget, QueryErrorCode,
    QueryLimitsConfig, QueryScope, RepoPath, RepositoryId, RepositoryNamespace, RepositoryRef,
    Score, SearchHit, SearchRequest, SearchResponse, SemanticKey, SnapshotId, SnapshotSelector,
    SourcePosition, SourceSpan, StatusResponse,
};
use project_memory::runtime::{
    federated_scope, memory_freshness_comparison, needed_backends, require_backends, OptionalGraphQuery,
    OptionalMemoryBackend, ScopeRefusal,
};
use project_memory::search::rank_memory_search_hits;
use project_memory::service::{ContextService, FederatedContextService, SqliteMemoryQuery};
use project_memory::source::{
    discover_sources, read_event, spec_fingerprint, tracked_paths, ArchiveProof, ArchiveRow, EventRow,
    RawArchiveManifest, RawArchiveTask, RunRow, SourceInventory, TaskRow, TrackedFile,
};
use project_memory::value::{NonZeroU32, NonZeroU64};
use project_memory::workspace::WorkspaceError;

const INDEXED_AT: &str = "2026-08-11T00:00:00Z";

fn project_named(id: &str) -> ProjectRef {
    ProjectRef {
        namespace: ProjectNamespace::new("local:test").unwrap(),
        project_id: ProjectId::new(id).unwrap(),
    }
}

fn spec_directory() -> RepoPath {
    RepoPath::new("docs/specs").unwrap()
}

/// What a project has on disk.
struct Workspace {
    project: ProjectRef,
    files: Vec<(String, String)>,
    proofs: Vec<ArchiveProof>,
    archives: Vec<ArchiveRow>,
    tasks: Vec<TaskRow>,
    runs: Vec<RunRow>,
    events: Vec<EventRow>,
    builds: u64,
}

impl Workspace {
    fn new(id: &str) -> Self {
        Workspace {
            project: project_named(id),
            files: vec![],
            proofs: vec![],
            archives: vec![],
            tasks: vec![],
            runs: vec![],
            events: vec![],
            builds: 0,
        }
    }

    fn write(&mut self, path: &str, content: &str) {
        self.files.retain(|(known, _)| known != path);
        self.files.push((path.to_string(), content.to_string()));
    }

    fn write_example(&mut self, outcome: Option<&str>) {
        let outcome = outcome
            .map(|outcome| format!("\n## Outcome\n\n{outcome}\n\n### Decisions\n\nUse SQLite.\n"))
            .unwrap_or_default();
        self.write(
            "docs/specs/example.md",
            &format!("# Example\n\n- [x] #1.0 Done\n\nID: one\nDepends on: none\n{outcome}"),
        );
    }

    fn approve(&mut self, path: &str) {
        let Some((_, content)) = self.files.iter().find(|(known, _)| known == path) else {
            return;
        };
        if parse_spec_memory(content).outcome.is_none() {
            return;
        }
        if self
            .proofs
            .iter()
            .any(|proof| proof.spec_path == path && proof.spec_copy.as_ref() == Some(content))
        {
            return;
        }
        let start = content.find("## Outcome").unwrap();
        self.archives.push(ArchiveRow {
            archive_id: format!("proof-{}", self.proofs.len() + 1),
            manifest: RawArchiveManifest {
                spec_path: path.to_string(),
                archived_at: "2026-08-11T00:00:00Z".to_string(),
                tasks: vec![],
            },
            task_count: 0,
            run_count: 0,
            file_bytes: 80,
        });
        self.proofs.push(ArchiveProof {
            spec_path: path.to_string(),
            manifest_spec_path: Some(path.to_string()),
            spec_copy: Some(content.clone()),
            recorded_outcome: content[start..].trim().to_string(),
        });
    }

    fn inventory(&self) -> SourceInventory {
        SourceInventory {
            files: self
                .files
                .iter()
                .map(|(path, content)| TrackedFile {
                    path: RepoPath::new(path).unwrap(),
                    bytes: content.as_bytes().to_vec(),
                })
                .collect(),
            proofs: self.proofs.clone(),
            archives: self.archives.clone(),
            tasks: self.tasks.clone(),
            runs: self.runs.clone(),
        }
    }

    fn events(&self) -> Vec<EventRow> {
        self.events
            .iter()
            .map(|event| EventRow {
                id: event.id,
                run_id: event.run_id.clone(),
                event_type: event.event_type.clone(),
                payload: event.payload.clone(),
            })
            .collect()
    }

    fn kept(&self) -> KeptFiles {
        KeptFiles::new(self.inventory(), self.events())
    }

    fn discover(&self) -> LocalMemorySource<KeptFiles> {
        LocalMemorySource::discover(
            self.project.clone(),
            spec_directory(),
            MemoryPolicy::default(),
            self.kept(),
        )
        .unwrap()
    }

    /// The sources, once the example is approved as it stands.
    fn source(&mut self) -> LocalMemorySource<KeptFiles> {
        self.approve("docs/specs/example.md");
        self.discover()
    }

    fn run(
        &mut self,
        source: LocalMemorySource<KeptFiles>,
        store: MemoryLedger,
        links: &LocalRepositoryLinkResolver,
        options: MemoryIndexOptions,
    ) -> (
        Result<MemoryIndexOutcome, MemoryIndexError>,
        LocalMemorySource<KeptFiles>,
        MemoryLedger,
    ) {
        self.builds += 1;
        let build_id = next_build_id(1_700_000_000, self.builds);
        let mut indexer = MemoryIndexer::new(source, store, KeptResolver::new(Some(links.clone())));
        let result = indexer.index(options, build_id, INDEXED_AT);
        (result, indexer.source, indexer.store)
    }

    fn view(&self, store: &mut MemoryLedger) -> Option<PublishedMemoryRevision> {
        published_revision(store, &self.project).unwrap()
    }
}

fn graph_repository(id: &str) -> RepositoryRef {
    RepositoryRef {
        namespace: RepositoryNamespace::new(&format!("local:{id}")).unwrap(),
        repository_id: RepositoryId::new("root").unwrap(),
    }
}

fn no_graph(id: &str) -> LocalRepositoryLinkResolver {
    LocalRepositoryLinkResolver {
        repository: graph_repository(id),
        repository_snapshot_id: None,
        snapshots: vec![],
        availability_diagnostic: None,
    }
}

fn snapshot(id: &str, identity: &str, files: &[&str], symbols: &[&str]) -> LocalSnapshot {
    LocalSnapshot {
        id: SnapshotId::new(id).unwrap(),
        belongs: true,
        files: files
            .iter()
            .enumerate()
            .map(|(index, path)| FactEvidence {
                path: RepoPath::new(path).unwrap(),
                content_identity: Digest::new("sha256", &format!("{identity}{index:02x}")).unwrap(),
            })
            .collect(),
        symbols: symbols
            .iter()
            .enumerate()
            .map(|(index, key)| SymbolNode {
                semantic_key: SemanticKey::new(key).unwrap(),
                node_id: NodeId::new(&format!("node-{id}-{index}")).unwrap(),
            })
            .collect(),
    }
}

#[test]
fn equivalent_authorized_inputs_produce_equivalent_records() {
    let mut first_data = Workspace::new("project-1");
    let mut second_data = Workspace::new("project-1");
    first_data.write_example(Some("Delivered deterministically."));
    second_data.write_example(Some("Delivered deterministically."));
    let links = no_graph("project-1");
    let source = first_data.source();
    let (first, _, first_store) = first_data.run(
        source,
        MemoryLedger::new(),
        &links,
        MemoryIndexOptions::default(),
    );
    second_data.builds = 40;
    let source = second_data.source();
    let (second, _, second_store) = second_data.run(
        source,
        MemoryLedger::new(),
        &links,
        MemoryIndexOptions::default(),
    );
    let (first, second) = (first.unwrap(), second.unwrap());
    assert_eq!(first.revision.id, second.revision.id);
    assert_ne!(first.build_id, second.build_id);
    assert_eq!(
        first_store.entities_for_revision(&first.revision.id),
        second_store.entities_for_revision(&second.revision.id)
    );
    assert_eq!(
        first_store.relationships_for_revision(&first.revision.id),
        second_store.relationships_for_revision(&second.revision.id)
    );
}

#[test]
fn cold_no_op_incremental_and_deletion_builds_publish_atomically() {
    let mut data = Workspace::new("project-1");
    data.write_example(Some("Delivered."));
    let links = no_graph("project-1");
    let first_source = data.source();
    let (first, first_source, mut store) = data.run(
        first_source,
        MemoryLedger::new(),
        &links,
        MemoryIndexOptions::default(),
    );
    let first = first.unwrap();
    assert_eq!(first.metrics.extracted_sources, 3);
    assert_eq!(first.metrics.reused_sources, 0);
    assert_eq!(data.view(&mut store).unwrap().generation, 1);
    let first_entities = store.entities_for_revision(&first.revision.id);
    assert!(first_entities
        .iter()
        .any(|entity| matches!(entity.data, MemoryEntityData::Specification { .. })));
    assert!(first_entities
        .iter()
        .any(|entity| matches!(entity.data, MemoryEntityData::Outcome { .. })));

    let (no_op, _, mut store) =
        data.run(first_source, store, &links, MemoryIndexOptions::default());
    let no_op = no_op.unwrap();
    assert_eq!(no_op.revision.id, first.revision.id);
    assert_eq!(no_op.metrics.reused_sources, 3);
    assert_eq!(data.view(&mut store).unwrap().generation, 1);

    data.write_example(Some("Delivered differently."));
    let changed_source = data.source();
    let (changed, _, mut store) =
        data.run(changed_source, store, &links, MemoryIndexOptions::default());
    let changed = changed.unwrap();
    assert_ne!(changed.revision.id, first.revision.id);
    assert_eq!(changed.metrics.reused_sources, 2);
    assert_eq!(changed.metrics.extracted_sources, 2);
    assert_eq!(data.view(&mut store).unwrap().generation, 2);

    data.write_example(None);
    let removed_source = data.source();
    let (removed, _, store) =
        data.run(removed_source, store, &links, MemoryIndexOptions::default());
    let removed = removed.unwrap();
    let entities = store.entities_for_revision(&removed.revision.id);
    assert!(!entities
        .iter()
        .any(|entity| matches!(entity.data, MemoryEntityData::Outcome { .. })));
    let entity_ids = entities
        .iter()
        .map(|entity| entity.id.clone())
        .collect::<BTreeSet<_>>();
    assert!(store
        .relationships_for_revision(&removed.revision.id)
        .iter()
        .all(|relationship| {
            entity_ids.contains(&relationship.source)
                && match &relationship.target {
                    MemoryRelationshipTarget::MemoryEntity { entity_id } => {
                        entity_ids.contains(entity_id)
                    }
                    _ => true,
                }
        }));
    assert_eq!(removed.metrics.reused_sources, 3);

    data.files.clear();
    let deleted_source = data.source();
    let (deleted, _, mut store) =
        data.run(deleted_source, store, &links, MemoryIndexOptions::default());
    let deleted = deleted.unwrap();
    let deleted_entities = store.entities_for_revision(&deleted.revision.id);
    assert!(deleted_entities
        .iter()
        .all(|entity| matches!(entity.data, MemoryEntityData::ArchiveReference { .. })));
    assert!(store
        .relationships_for_revision(&deleted.revision.id)
        .is_empty());
    let deleted_entity_ids = deleted_entities
        .iter()
        .map(|entity| &entity.id)
        .collect::<BTreeSet<_>>();
    assert!(store
        .repository_links(&deleted.repository_link_set.id)
        .unwrap()
        .iter()
        .all(|relationship| deleted_entity_ids.contains(&relationship.source)));
    assert_eq!(data.view(&mut store).unwrap().generation, 4);
}

#[test]
fn full_indexing_reads_every_source_anew() {
    let mut data = Workspace::new("project-1");
    data.write_example(Some("Delivered."));
    let links = no_graph("project-1");
    let source = data.source();
    let (_, source, store) = data.run(
        source,
        MemoryLedger::new(),
        &links,
        MemoryIndexOptions::default(),
    );
    let (full, _, _) = data.run(source, store, &links, MemoryIndexOptions { full: true });
    let full = full.unwrap();
    assert_eq!(full.metrics.reused_sources, 0);
    assert_eq!(full.metrics.extracted_sources, 3);
    assert!(full.metrics.processed_bytes > 0);
}

#[test]
fn source_change_during_build_keeps_the_previous_publication() {
    let mut data = Workspace::new("project-1");
    data.write_example(Some("First."));
    let links = no_graph("project-1");
    let first_source = data.source();
    let (first, _, store) = data.run(
        first_source,
        MemoryLedger::new(),
        &links,
        MemoryIndexOptions::default(),
    );
    let first = first.unwrap();
    let found = discover_sources(
        &data.project,
        &MemoryPolicy::default(),
        &data.inventory(),
        &data.events(),
    )
    .unwrap();
    data.write_example(Some("Changed after discovery."));
    let stale_source = LocalMemorySource::new(
        data.project.clone(),
        spec_directory(),
        MemoryPolicy::default(),
        data.kept(),
        found,
    )
    .unwrap();
    let (error, _, mut store) =
        data.run(stale_source, store, &links, MemoryIndexOptions::default());
    assert!(matches!(error, Err(MemoryIndexError::Source(_))));
    assert_eq!(
        data.view(&mut store).unwrap().revision_id,
        first.revision.id
    );
}

#[test]
fn repository_links_preserve_resolved_stale_and_unresolved_evidence() {
    let mut data = Workspace::new("project-1");
    data.write_example(Some(
        "Touched `path:src/old.rs`, `path:src/missing.rs`, and \
                 `symbol:rust:function:src/old.rs:run`; ambiguous evidence is \
                 `symbol:rust:function:src/old.rs:ambiguous`.",
    ));
    let old = snapshot(
        "snapshot-old",
        "11",
        &["docs/specs/example.md", "src/old.rs"],
        &[
            "rust:function:src/old.rs:run",
            "rust:function:src/old.rs:ambiguous",
            "rust:function:src/old.rs:ambiguous",
        ],
    );
    let links = LocalRepositoryLinkResolver {
        repository: graph_repository("project-1"),
        repository_snapshot_id: Some(SnapshotId::new("snapshot-old").unwrap()),
        snapshots: vec![old.clone()],
        availability_diagnostic: None,
    };
    let source = data.source();
    let (first, _, mut store) = data.run(
        source,
        MemoryLedger::new(),
        &links,
        MemoryIndexOptions::default(),
    );
    let first = first.unwrap();
    let first_set = store
        .latest_repository_link_set(&first.revision.id, &graph_repository("project-1"))
        .unwrap()
        .unwrap();
    let first_links = store.repository_links(&first_set.id).unwrap();
    assert!(first_links.iter().any(|relationship| {
        relationship.provenance.resolution == MemoryResolutionState::Resolved
            && matches!(
                &relationship.target,
                MemoryRelationshipTarget::RepositoryPath { path, snapshot_id: Some(id), .. }
                    if path.as_str() == "src/old.rs" && id.as_str() == "snapshot-old"
            )
    }));
    assert!(first_links.iter().any(|relationship| {
        relationship.provenance.resolution == MemoryResolutionState::Unresolved
            && matches!(
                &relationship.target,
                MemoryRelationshipTarget::RepositorySymbol {
                    semantic_key,
                    snapshot_id: Some(id),
                    ..
                } if semantic_key.as_str() == "rust:function:src/old.rs:ambiguous"
                    && id.as_str() == "snapshot-old"
            )
    }));
    assert!(first_links.iter().any(|relationship| {
        relationship.provenance.resolution == MemoryResolutionState::Resolved
            && matches!(
                &relationship.target,
                MemoryRelationshipTarget::RepositoryNode {
                    snapshot_id,
                    semantic_key,
                    ..
                } if snapshot_id.as_str() == "snapshot-old"
                    && semantic_key.as_ref().is_some_and(|key| {
                        key.as_str() == "rust:function:src/old.rs:run"
                    })
            )
    }));
    assert!(first_links.iter().any(|relationship| {
        relationship.provenance.resolution == MemoryResolutionState::Unresolved
            && matches!(
                &relationship.target,
                MemoryRelationshipTarget::RepositoryPath { path, snapshot_id: None, .. }
                    if path.as_str() == "src/missing.rs"
            )
    }));

    let new = snapshot(
        "snapshot-new",
        "22",
        &["docs/specs/example.md", "src/new.rs"],
        &["rust:function:src/new.rs:run"],
    );
    let links = LocalRepositoryLinkResolver {
        repository: graph_repository("project-1"),
        repository_snapshot_id: Some(SnapshotId::new("snapshot-new").unwrap()),
        snapshots: vec![old, new],
        availability_diagnostic: None,
    };
    let updated = data.files[0].1.replace("Use SQLite.", "Use SQLite carefully.");
    data.write("docs/specs/example.md", &updated);
    let updated_source = data.source();
    let (second, _, mut store) =
        data.run(updated_source, store, &links, MemoryIndexOptions::default());
    let second = second.unwrap();
    assert_ne!(second.revision.id, first.revision.id);
    assert!(second.metrics.stale_links > 0);
    let second_set = store
        .latest_repository_link_set(&second.revision.id, &graph_repository("project-1"))
        .unwrap()
        .unwrap();
    assert_ne!(second_set.id, first_set.id);
    assert_eq!(
        store
            .link_store()
            .repository_link_set_for_snapshot(&LinkSetRequest {
                revision_id: first.revision.id.clone(),
                repository: graph_repository("project-1"),
                snapshot_id: Some(SnapshotId::new("snapshot-old").unwrap()),
            })
            .unwrap()
            .unwrap()
            .id,
        first_set.id
    );
    let second_links = store.repository_links(&second_set.id).unwrap();
    assert!(second_links.iter().any(|relationship| {
        relationship.provenance.resolution == MemoryResolutionState::Stale
            && matches!(
                &relationship.target,
                MemoryRelationshipTarget::RepositoryPath { path, snapshot_id: Some(id), .. }
                    if path.as_str() == "src/old.rs" && id.as_str() == "snapshot-old"
            )
    }));
    assert!(second_links.iter().any(|relationship| {
        relationship.provenance.resolution == MemoryResolutionState::Stale
            && matches!(
                &relationship.target,
                MemoryRelationshipTarget::RepositoryNode {
                    snapshot_id,
                    semantic_key,
                    ..
                } if snapshot_id.as_str() == "snapshot-old"
                    && semantic_key.as_ref().is_some_and(|key| {
                        key.as_str() == "rust:function:src/old.rs:run"
                    })
            )
    }));
}

#[test]
fn task_changed_paths_link_task_and_milestone_to_current_snapshot() {
    let mut data = Workspace::new("project-1");
    data.write_example(None);
    let files = ["docs/specs/example.md", "src/lib.rs"];
    let links = LocalRepositoryLinkResolver {
        repository: graph_repository("project-1"),
        repository_snapshot_id: Some(SnapshotId::new("snapshot-current").unwrap()),
        snapshots: vec![
            snapshot("snapshot-baseline", "31", &files, &[]),
            snapshot("snapshot-task", "32", &files, &[]),
            snapshot("snapshot-current", "33", &files, &[]),
        ],
        availability_diagnostic: None,
    };
    data.tasks.push(TaskRow {
        id: "t-1".to_string(),
        milestone_id: Some("one".to_string()),
        status: "complete".to_string(),
        baseline_snapshot_id: Some("snapshot-baseline".to_string()),
        repository_snapshot_id: Some("snapshot-task".to_string()),
    });
    let source = data.source();
    let (outcome, _, mut store) = data.run(
        source,
        MemoryLedger::new(),
        &links,
        MemoryIndexOptions::default(),
    );
    let outcome = outcome.unwrap();
    let entities = store.entities_for_revision(&outcome.revision.id);
    let task = entities
        .iter()
        .find(|entity| matches!(entity.data, MemoryEntityData::TaskReference { .. }))
        .unwrap();
    let milestone = entities
        .iter()
        .find(|entity| matches!(entity.data, MemoryEntityData::Milestone { .. }))
        .unwrap();
    let link_set = store
        .latest_repository_link_set(&outcome.revision.id, &graph_repository("project-1"))
        .unwrap()
        .unwrap();
    let links = store.repository_links(&link_set.id).unwrap();
    for source in [&task.id, &milestone.id] {
        assert!(links.iter().any(|relationship| {
            &relationship.source == source
                && relationship.provenance.resolution == MemoryResolutionState::Resolved
                && matches!(
                    &relationship.target,
                    MemoryRelationshipTarget::RepositoryPath {
                        path,
                        snapshot_id: Some(snapshot),
                        ..
                    } if path.as_str() == "src/lib.rs"
                        && snapshot.as_str() == "snapshot-current"
                )
        }));
    }
}

#[test]
fn archive_and_runtime_adapters_create_only_provenance_entities() {
    let mut data = Workspace::new("project-1");
    data.archives.push(ArchiveRow {
        archive_id: "example-20260803".to_string(),
        manifest: RawArchiveManifest {
            spec_path: "docs/specs/example.md".to_string(),
            archived_at: "2026-08-03T00:00:00Z".to_string(),
            tasks: vec![RawArchiveTask {
                id: "t-1".to_string(),
                milestone_id: Some("one".to_string()),
            }],
        },
        task_count: 1,
        run_count: 1,
        file_bytes: 300,
    });
    data.tasks.push(TaskRow {
        id: "t-1".to_string(),
        milestone_id: Some("one".to_string()),
        status: "complete".to_string(),
        baseline_snapshot_id: None,
        repository_snapshot_id: None,
    });
    data.runs.push(RunRow {
        id: "run-1".to_string(),
        task_id: "t-1".to_string(),
        status: "completed".to_string(),
        baseline_snapshot_id: None,
        repository_snapshot_id: None,
    });
    data.events.push(EventRow {
        id: 1,
        run_id: Some("run-1".to_string()),
        event_type: "check_passed".to_string(),
        payload: r#"{"secret":"must not persist"}"#.to_string(),
    });
    let source = data.source();
    let (outcome, _, mut store) = data.run(
        source,
        MemoryLedger::new(),
        &no_graph("project-1"),
        MemoryIndexOptions::default(),
    );
    let outcome = outcome.unwrap();
    let entities = store.entities_for_revision(&outcome.revision.id);
    let archive_entity = entities
        .iter()
        .find(|entity| matches!(entity.data, MemoryEntityData::ArchiveReference { .. }))
        .unwrap();
    assert!(entities
        .iter()
        .any(|entity| matches!(entity.data, MemoryEntityData::TaskReference { .. })));
    assert!(entities
        .iter()
        .any(|entity| matches!(entity.data, MemoryEntityData::RunReference { .. })));
    assert!(entities.iter().any(|entity| {
        matches!(
            entity.data,
            MemoryEntityData::ValidationEvidence { text: None, .. }
        )
    }));
    assert!(!entities.to_json().contains("secret"));
    let links = store
        .repository_links(&outcome.repository_link_set.id)
        .unwrap();
    assert!(links.iter().any(|relationship| {
        relationship.source == archive_entity.id
            && relationship.provenance.resolution == MemoryResolutionState::Unresolved
            && matches!(
                &relationship.target,
                MemoryRelationshipTarget::RepositoryPath { path, snapshot_id: None, .. }
                    if path.as_str() == "docs/specs/example.md"
            )
    }));
}

fn query_workspace() -> Workspace {
    let mut data = Workspace::new("query-project");
    data.write(
        "docs/specs/query.md",
        "# Query memory\n\n- [x] #4.4 Federation\n\nID: rg-test\nDepends on: none\n\n## Outcome\n\nDelivered bounded SQLite retrieval.\n\n### Decisions\n\nUse deterministic ranking.\n",
    );
    data.approve("docs/specs/query.md");
    data
}

fn indexed_fixture() -> (Workspace, MemoryLedger, MemoryRevisionId) {
    let mut data = query_workspace();
    let source = data.discover();
    let (outcome, _, store) = data.run(
        source,
        MemoryLedger::new(),
        &no_graph("query-project"),
        MemoryIndexOptions::default(),
    );
    (data, store, outcome.unwrap().revision.id)
}

fn view_name() -> MemoryViewName {
    MemoryViewName::new("project").unwrap()
}

fn published_scope(project: &ProjectRef, limits: &QueryLimitsConfig) -> MemoryQueryScope {
    MemoryQueryScope::current(
        project.clone(),
        MemoryRevisionSelector::Published(view_name()),
        default_budget(limits).unwrap(),
    )
}

fn query(
    data: &Workspace,
    store: &MemoryLedger,
    limits: &QueryLimitsConfig,
) -> SqliteMemoryQuery<KeptRecords, LocalMemorySource<KeptFiles>> {
    SqliteMemoryQuery::new(store.records(&data.project, &view_name()), limits.clone())
}

struct RecordingContent {
    max_requested: u64,
    max_duration_ms: u64,
}

impl MemoryContent for RecordingContent {
    fn content_with_deadline(
        &mut self,
        request: MemoryContentRequest,
        max_duration_ms: u64,
    ) -> Result<MemoryContentResponse, MemoryQueryError> {
        self.max_requested = self.max_requested.max(request.max_bytes.get());
        self.max_duration_ms = max_duration_ms;
        Ok(MemoryContentResponse {
            verified_fingerprint: request.expected_fingerprint,
            bytes: vec![b'x'; request.max_bytes.get() as usize],
            truncated: true,
        })
    }
}

struct ExpiredContent;

impl MemoryContent for ExpiredContent {
    fn content_with_deadline(
        &mut self,
        _request: MemoryContentRequest,
        _max_duration_ms: u64,
    ) -> Result<MemoryContentResponse, MemoryQueryError> {
        Err(MemoryQueryError::BudgetExceeded(
            MemoryTruncationReason::Duration,
        ))
    }
}

#[test]
fn status_reports_source_policy_retention_and_stale_archive_freshness() {
    let (mut data, store, first_revision) = indexed_fixture();
    data.write(
        "docs/specs/query.md",
        "# Query memory\n\n- [x] #4.4 Federation\n\nID: rg-test\nDepends on: none\n\n## Outcome\n\nDelivered a changed archive outcome.\n",
    );
    data.approve("docs/specs/query.md");
    let mut changed_source = data.discover();
    let comparison = MemoryFreshnessComparison::from_manifest(&changed_source.manifest().unwrap());
    let limits = QueryLimitsConfig::default();
    let mut scope = published_scope(&data.project, &limits);
    scope.freshness_comparison = Some(comparison);
    let status = query(&data, &store, &limits)
        .status(&MemoryStatusRequest { scope })
        .unwrap();
    assert_eq!(status.revision_id, Some(first_revision.clone()));
    assert_eq!(status.freshness.freshness, MemoryFreshness::Stale);
    assert_eq!(
        status.data.recommended_action,
        Some(MemoryRetrievalAction::Refresh)
    );
    assert_eq!(
        status.data.source_policy.len(),
        MemorySourceCategory::ALL.len()
    );
    assert_eq!(
        status
            .data
            .source_policy
            .iter()
            .filter(|source| source.policy.enabled)
            .count(),
        4
    );
    assert!(status.data.source_policy.iter().all(|source| {
        source.policy.enabled || source.policy.sensitivity == MemorySourceSensitivity::Sensitive
    }));
    let retention = status.data.retention.unwrap();
    assert_eq!(retention.revisions, 1);
    assert_eq!(retention.historical_revisions, 0);
    assert_eq!(retention.builds, 1);
    assert_eq!(retention.terminal_unpublished_builds, 0);

    let (changed, _, store) = data.run(
        changed_source,
        store,
        &no_graph("query-project"),
        MemoryIndexOptions::default(),
    );
    assert_ne!(changed.unwrap().revision.id, first_revision);
    let status = query(&data, &store, &limits)
        .status(&MemoryStatusRequest {
            scope: published_scope(&data.project, &QueryLimitsConfig::default()),
        })
        .unwrap();
    let retention = status.data.retention.unwrap();
    assert_eq!(retention.revisions, 2);
    assert_eq!(retention.historical_revisions, 1);
    assert_eq!(retention.builds, 2);
    assert_eq!(retention.terminal_unpublished_builds, 1);
    assert!(retention.repository_link_sets >= 2);
}

fn search_request(data: &Workspace, limits: &QueryLimitsConfig) -> MemorySearchRequest {
    MemorySearchRequest {
        scope: published_scope(&data.project, limits),
        text: MemoryQueryText::new("sqlite").unwrap(),
        entity_kinds: vec![],
        source_categories: vec![],
        page: MemoryPageRequest::default(),
    }
}

fn policy(direction: EdgeDirection, include_snippets: bool) -> MemoryContextPolicy {
    MemoryContextPolicy {
        direction,
        relationship_kinds: vec![],
        include_unresolved: false,
        include_stale: false,
        include_snippets,
    }
}

fn milestone_request(scope: MemoryQueryScope, include_snippets: bool) -> MemoryContextRequest {
    MemoryContextRequest {
        scope,
        seeds: vec![MemoryContextSeed::Milestone(
            MemoryRecordId::new("rg-test").unwrap(),
        )],
        policy: policy(EdgeDirection::Both, include_snippets),
        page: MemoryPageRequest::default(),
    }
}

#[test]
fn search_and_context_are_revision_bound_and_deterministic() {
    let (data, store, revision_id) = indexed_fixture();
    let limits = QueryLimitsConfig::default();
    let mut query = query(&data, &store, &limits);
    let search = query.search(&search_request(&data, &limits)).unwrap();
    assert_eq!(search.revision_id, revision_id);
    assert!(!search.hits.is_empty());
    assert!(search.hits.windows(2).all(|pair| {
        (
            pair[1].score.rank,
            pair[0].entity.data.kind(),
            &pair[0].entity.id,
        ) <= (
            pair[0].score.rank,
            pair[1].entity.data.kind(),
            &pair[1].entity.id,
        )
    }));

    let context = query
        .context(&milestone_request(
            published_scope(&data.project, &limits),
            false,
        ))
        .unwrap();
    assert!(context.items.len() >= 2);
    assert!(!context.relationships.is_empty());
}

fn directed_relationship(store: &MemoryLedger, revision_id: &MemoryRevisionId) -> MemoryRelationship {
    store
        .relationships_for_revision(revision_id)
        .into_iter()
        .find(|relationship| {
            matches!(
                &relationship.target,
                MemoryRelationshipTarget::MemoryEntity { entity_id }
                    if entity_id != &relationship.source
            )
        })
        .expect("fixture should contain a directed entity relationship")
}

#[test]
fn context_traversal_honors_relationship_direction() {
    let (data, store, revision_id) = indexed_fixture();
    let limits = QueryLimitsConfig::default();
    let relationship = directed_relationship(&store, &revision_id);
    let MemoryRelationshipTarget::MemoryEntity { entity_id: target } = relationship.target.clone()
    else {
        unreachable!("relationship was selected by target kind");
    };
    let source = relationship.source.clone();
    let relationship_id = relationship.id.clone();

    let context = |seed, direction| {
        query(&data, &store, &limits)
            .context(&MemoryContextRequest {
                scope: published_scope(&data.project, &limits),
                seeds: vec![MemoryContextSeed::Entity(seed)],
                policy: policy(direction, false),
                page: MemoryPageRequest::default(),
            })
            .unwrap()
    };

    let outgoing_from_source = context(source.clone(), EdgeDirection::Outgoing);
    assert!(outgoing_from_source
        .items
        .iter()
        .any(|item| item.entity.id == target));
    assert!(outgoing_from_source
        .relationships
        .iter()
        .any(|item| item.id == relationship_id));

    let outgoing_from_target = context(target.clone(), EdgeDirection::Outgoing);
    assert!(outgoing_from_target
        .items
        .iter()
        .all(|item| item.entity.id != source));
    assert!(outgoing_from_target
        .relationships
        .iter()
        .all(|item| item.id != relationship_id));

    let incoming_from_target = context(target.clone(), EdgeDirection::Incoming);
    assert!(incoming_from_target
        .items
        .iter()
        .any(|item| item.entity.id == source));
    assert!(incoming_from_target
        .relationships
        .iter()
        .any(|item| item.id == relationship_id));

    let incoming_from_source = context(source, EdgeDirection::Incoming);
    assert!(incoming_from_source
        .items
        .iter()
        .all(|item| item.entity.id != target));
    assert!(incoming_from_source
        .relationships
        .iter()
        .all(|item| item.id != relationship_id));
}

/// A deadline that has passed at the second question, and counts the questions.
struct CountedQuestions {
    asked: u32,
}

impl Deadline for CountedQuestions {
    fn remaining_ms(&mut self) -> u64 {
        self.asked += 1;
        u64::from(self.asked <= 1)
    }
}

#[test]
fn search_candidate_ranking_stops_when_the_deadline_expires() {
    let (data, store, revision_id) = indexed_fixture();
    let limits = QueryLimitsConfig::default();
    let request = search_request(&data, &limits);
    let entities = store.entities_for_revision(&revision_id);
    let mut deadline = CountedQuestions { asked: 0 };

    let (hits, timed_out) = rank_memory_search_hits(entities, &request, &mut deadline);

    assert!(timed_out);
    assert_eq!(deadline.asked, 2);
    assert!(hits.len() <= 1);
}

#[test]
fn context_counts_relationships_against_the_effective_result_limit() {
    let (data, store, revision_id) = indexed_fixture();
    let limits = QueryLimitsConfig::default();
    let relationship = directed_relationship(&store, &revision_id);
    let relationship_id = relationship.id.clone();
    let request = |cursor: Option<MemoryPageCursor>| {
        let mut scope = published_scope(&data.project, &limits);
        scope.budget.max_results = NonZeroU32::new(1).unwrap();
        MemoryContextRequest {
            scope,
            seeds: vec![MemoryContextSeed::Entity(relationship.source.clone())],
            policy: policy(EdgeDirection::Outgoing, false),
            page: MemoryPageRequest { cursor },
        }
    };
    let mut query = query(&data, &store, &limits);
    let mut response = query.context(&request(None)).unwrap();

    assert!(response.items.len().saturating_add(response.relationships.len()) <= 1);
    assert_eq!(response.relationships.len(), 0);
    assert_eq!(
        response.page.truncation.as_ref().map(|value| value.reason),
        Some(MemoryTruncationReason::Results)
    );
    let mut pages = 1;
    while response.relationships.is_empty() {
        let cursor = response
            .page
            .next_cursor
            .clone()
            .expect("context relationships should remain pageable");
        response = query.context(&request(Some(cursor))).unwrap();
        pages += 1;
        assert!(pages < 32, "context cursor should make progress");
    }
    assert_eq!(response.relationships.len(), 1);
    assert_eq!(response.relationships[0].id, relationship_id);
}

#[test]
fn context_pages_relationships_beyond_the_first_page_result_limit() {
    let (data, store, revision_id) = indexed_fixture();
    let limits = QueryLimitsConfig::default();
    let mut by_source = BTreeMap::<_, Vec<_>>::new();
    for relationship in store.relationships_for_revision(&revision_id) {
        if matches!(
            relationship.target,
            MemoryRelationshipTarget::MemoryEntity { .. }
        ) {
            by_source
                .entry(relationship.source.clone())
                .or_default()
                .push(relationship);
        }
    }
    let (source, expected_relationships) = by_source
        .into_iter()
        .find(|(_, relationships)| relationships.len() > 1)
        .expect("fixture should contain a source with multiple outgoing relationships");
    let expected_relationship_ids = expected_relationships
        .iter()
        .map(|relationship| relationship.id.clone())
        .collect::<BTreeSet<_>>();
    let expected_neighbor_ids = expected_relationships
        .iter()
        .filter_map(|relationship| match &relationship.target {
            MemoryRelationshipTarget::MemoryEntity { entity_id } => Some(entity_id.clone()),
            _ => None,
        })
        .collect::<BTreeSet<_>>();
    let request = |cursor| {
        let mut scope = published_scope(&data.project, &limits);
        scope.budget.max_results = NonZeroU32::new(1).unwrap();
        scope.budget.max_depth = NonZeroU32::new(1).unwrap();
        MemoryContextRequest {
            scope,
            seeds: vec![MemoryContextSeed::Entity(source.clone())],
            policy: policy(EdgeDirection::Outgoing, false),
            page: MemoryPageRequest { cursor },
        }
    };
    let mut query = query(&data, &store, &limits);
    let mut cursor = None;
    let mut returned_relationship_ids = BTreeSet::new();
    let mut returned_entity_ids = BTreeSet::new();
    let mut pages = 0;
    loop {
        let response = query.context(&request(cursor)).unwrap();
        returned_entity_ids.extend(response.items.into_iter().map(|item| item.entity.id));
        returned_relationship_ids.extend(
            response
                .relationships
                .into_iter()
                .map(|relationship| relationship.id),
        );
        pages += 1;
        assert!(pages < 32, "context cursor should make progress");
        let Some(next_cursor) = response.page.next_cursor else {
            break;
        };
        cursor = Some(next_cursor);
    }

    assert_eq!(returned_relationship_ids, expected_relationship_ids);
    assert!(expected_neighbor_ids.is_subset(&returned_entity_ids));
}

#[test]
fn context_counts_relationships_against_the_effective_byte_limit() {
    let (data, store, _) = indexed_fixture();
    let limits = QueryLimitsConfig::default();
    let mut query = query(&data, &store, &limits);
    let complete = query
        .context(&milestone_request(
            published_scope(&data.project, &limits),
            false,
        ))
        .unwrap();
    assert!(!complete.relationships.is_empty());
    let item_bytes = complete.items.iter().map(serialized_len).sum::<u64>();
    let mut constrained_scope = published_scope(&data.project, &limits);
    constrained_scope.budget.max_bytes = NonZeroU64::new(item_bytes).unwrap();

    let constrained = query
        .context(&milestone_request(constrained_scope, false))
        .unwrap();
    let returned_bytes = constrained.items.iter().map(serialized_len).sum::<u64>()
        + constrained
            .relationships
            .iter()
            .map(serialized_len)
            .sum::<u64>();
    assert!(returned_bytes <= item_bytes);
    assert_eq!(
        constrained
            .page
            .truncation
            .as_ref()
            .map(|value| value.returned_bytes),
        Some(returned_bytes)
    );
    assert_eq!(
        constrained.page.truncation.map(|value| value.reason),
        Some(MemoryTruncationReason::Bytes)
    );
}

#[test]
fn context_snippets_use_the_verified_content_boundary_and_effective_cap() {
    let (data, store, _) = indexed_fixture();
    let limits = QueryLimitsConfig {
        max_snippet_bytes: 7,
        ..QueryLimitsConfig::default()
    };
    let content = RecordingContent {
        max_requested: 0,
        max_duration_ms: 0,
    };
    let mut query = SqliteMemoryQuery::new(
        store.records(&data.project, &view_name()),
        limits.clone(),
    )
    .with_content(content);
    let response = query
        .context(&milestone_request(
            published_scope(&data.project, &limits),
            true,
        ))
        .unwrap();
    let snippet_bytes = response
        .items
        .iter()
        .filter_map(|item| item.snippet.as_ref())
        .map(|snippet| snippet.text.len())
        .sum::<usize>();
    assert_eq!(snippet_bytes, 7);
    let content = query.content.unwrap();
    assert_eq!(content.max_requested, 7);
    assert!(content.max_duration_ms <= limits.max_duration_ms);
    assert!(content.max_duration_ms > 0);
}

#[test]
fn context_stops_before_accepting_a_snippet_that_exceeds_the_deadline() {
    let (data, store, _) = indexed_fixture();
    let limits = QueryLimitsConfig::default();
    let response = SqliteMemoryQuery::new(
        store.records(&data.project, &view_name()),
        limits.clone(),
    )
    .with_content(ExpiredContent)
    .context(&milestone_request(
        published_scope(&data.project, &limits),
        true,
    ))
    .unwrap();

    assert!(response.items.is_empty());
    assert_eq!(
        response.page.truncation.map(|value| value.reason),
        Some(MemoryTruncationReason::Duration)
    );
}

#[test]
fn unpublished_memories_wait_to_be_built() {
    let data = query_workspace();
    let store = MemoryLedger::new();
    let limits = QueryLimitsConfig::default();
    let status = query(&data, &store, &limits)
        .status(&MemoryStatusRequest {
            scope: published_scope(&data.project, &limits),
        })
        .unwrap();
    assert_eq!(
        status.data.recommended_action,
        Some(MemoryRetrievalAction::Build)
    );
    assert_eq!(
        query(&data, &store, &limits).search(&search_request(&data, &limits)),
        Err(MemoryQueryError::Unavailable)
    );
}

#[test]
fn entities_of_an_archive_name_it() {
    let (_, store, revision_id) = indexed_fixture();
    let named: Vec<MemoryEntity> = store
        .entities_for_revision(&revision_id)
        .into_iter()
        .filter(|entity| matches!(entity.data, MemoryEntityData::ArchiveReference { .. }))
        .collect();
    assert_eq!(named.len(), 1);
    assert!(matches!(
        &named[0].data,
        MemoryEntityData::ArchiveReference { archive_id, .. } if archive_id.as_str() == "proof-1"
    ));
}

#[test]
fn unknown_sources_are_not_read() {
    let mut data = query_workspace();
    let mut source = data.discover();
    let mut descriptor = source.manifest().unwrap().sources[0].clone();
    assert!(source.read_verified(&descriptor).is_ok());
    descriptor.byte_len += 1;
    assert!(matches!(
        source.read_verified(&descriptor),
        Err(MemorySourceError::NotDiscovered)
    ));
    data.approve("docs/specs/query.md");
}

fn federation_workspace() -> Workspace {
    let mut data = Workspace::new("federation-project");
    data.write(
        "docs/specs/federation.md",
        "# Federation\n\n- [x] #4.4 Context\n\nID: rg4.4-test\nDepends on: none\n\n## Outcome\n\nImplemented `path:src/lib.rs` with bounded retrieval.\n",
    );
    data.approve("docs/specs/federation.md");
    data
}

struct Federation {
    data: Workspace,
    store: MemoryLedger,
    links: Vec<MemoryRepositoryLinkCommit>,
    freshness: MemoryFreshnessComparison,
    limits: QueryLimitsConfig,
}

fn federation_fixture() -> Federation {
    let mut data = federation_workspace();
    let mut source = data.discover();
    let freshness = MemoryFreshnessComparison::from_manifest(&source.manifest().unwrap());
    let resolver = LocalRepositoryLinkResolver {
        repository: graph_repository("federation-project"),
        repository_snapshot_id: Some(SnapshotId::new("snapshot-1").unwrap()),
        snapshots: vec![snapshot(
            "snapshot-1",
            "41",
            &["Cargo.toml", "docs/specs/federation.md", "src/lib.rs"],
            &[],
        )],
        availability_diagnostic: None,
    };
    let (outcome, _, mut store) = data.run(
        source,
        MemoryLedger::new(),
        &resolver,
        MemoryIndexOptions::default(),
    );
    let link_set = outcome.unwrap().repository_link_set;
    let relationships = store.repository_links(&link_set.id).unwrap();
    Federation {
        data,
        store,
        links: vec![MemoryRepositoryLinkCommit {
            link_set,
            relationships,
            diagnostics: vec![],
        }],
        freshness,
        limits: QueryLimitsConfig::default(),
    }
}

fn graph() -> KeptGraph {
    let fresh = || FreshnessEnvelope {
        freshness: Freshness::Fresh,
    };
    let silent = || DiagnosticsEnvelope { codes: vec![] };
    let page = || PageInfo {
        next_cursor: None,
        truncation: None,
    };
    let snapshot_id = || SnapshotId::new("snapshot-1").unwrap();
    let hit = |node: &str, rank: u64, text: &str| SearchHit {
        node_id: NodeId::new(node).unwrap(),
        path: RepoPath::new("src/lib.rs").unwrap(),
        score: Score {
            rank,
            text: text.to_string(),
        },
    };
    KeptGraph::new(
        Ok(StatusResponse {
            repository: graph_repository("federation-project"),
            snapshot_id: Some(snapshot_id()),
            task_view: None,
            freshness: fresh(),
            diagnostics: silent(),
            page: page(),
        }),
        Ok(SearchResponse {
            repository: graph_repository("federation-project"),
            snapshot_id: snapshot_id(),
            task_view: None,
            freshness: fresh(),
            diagnostics: silent(),
            page: page(),
            hits: vec![hit("node-function", 900, "0.9"), hit("node-file", 500, "0.5")],
        }),
        Ok(ContextResponse {
            repository: graph_repository("federation-project"),
            snapshot_id: snapshot_id(),
            task_view: None,
            freshness: fresh(),
            diagnostics: silent(),
            page: page(),
            items: vec![ContextItem {
                node_id: NodeId::new("node-file").unwrap(),
                path: RepoPath::new("src/lib.rs").unwrap(),
                semantic_key: None,
                selection_reasons: vec![ContextSelectionReason {
                    kind: ContextSelectionKind::ExactSeed,
                    via_node: None,
                    via_edge: None,
                }],
            }],
            snippets: vec![],
        }),
    )
}

type Service = FederatedContextService<
    KeptGraph,
    SqliteMemoryQuery<KeptRecords, LocalMemorySource<KeptFiles>>,
    KeptLinks,
>;

fn service(fixture: &Federation) -> Service {
    FederatedContextService::new(
        graph(),
        query(&fixture.data, &fixture.store, &fixture.limits),
        KeptLinks::new(fixture.links.clone()),
        fixture.limits.clone(),
        Some(fixture.freshness.clone()),
    )
}

fn federated_target(domain: ContextDomain) -> FederatedTarget {
    let repository = RepositoryContextTarget {
        repository: graph_repository("federation-project"),
        snapshot: SnapshotSelector::Published(PublishedViewName::new("canonical").unwrap()),
    };
    let memory = MemoryRevisionSelector::Published(view_name());
    match domain {
        ContextDomain::Repository => FederatedTarget::Repository { repository },
        ContextDomain::Memory => FederatedTarget::Memory { memory },
        ContextDomain::All => FederatedTarget::All { repository, memory },
    }
}

fn federated_search(
    fixture: &Federation,
    domain: ContextDomain,
    budget: MemoryQueryBudget,
) -> FederatedSearchRequest {
    FederatedSearchRequest {
        scope: FederatedScope::current(
            fixture.data.project.clone(),
            federated_target(domain),
            budget,
        ),
        text: MemoryQueryText::new("federat").unwrap(),
        repository_kinds: vec![],
        repository_paths: vec![],
        memory_kinds: vec![],
        memory_sources: vec![],
        cursor: None,
    }
}

fn usual_budget(fixture: &Federation) -> MemoryQueryBudget {
    default_budget(&fixture.limits).unwrap()
}

#[test]
fn repository_and_memory_search_scopes_remain_explicit() {
    let fixture = federation_fixture();
    let mut service = service(&fixture);
    let repository = service
        .search(&federated_search(
            &fixture,
            ContextDomain::Repository,
            usual_budget(&fixture),
        ))
        .unwrap();
    assert!(repository.repository.is_some());
    assert!(repository.memory.is_none());
    assert!(repository
        .results
        .iter()
        .all(|result| matches!(result, FederatedSearchResult::Repository(_))));

    let memory = service
        .search(&federated_search(
            &fixture,
            ContextDomain::Memory,
            usual_budget(&fixture),
        ))
        .unwrap();
    assert!(memory.repository.is_none());
    assert!(memory.memory.is_some());
    assert!(memory
        .results
        .iter()
        .all(|result| matches!(result, FederatedSearchResult::Memory(_))));
}

fn linked_entity(fixture: &Federation) -> MemoryEntityId {
    let mut request = search_request(&fixture.data, &fixture.limits);
    request.text = MemoryQueryText::new("src/lib.rs").unwrap();
    query(&fixture.data, &fixture.store, &fixture.limits)
        .search(&request)
        .unwrap()
        .hits[0]
        .entity
        .id
        .clone()
}

fn federated_context(
    fixture: &Federation,
    budget: MemoryQueryBudget,
    cursor: Option<FederationPageCursor>,
) -> FederatedContextRequest {
    FederatedContextRequest {
        scope: FederatedScope::current(
            fixture.data.project.clone(),
            federated_target(ContextDomain::All),
            budget,
        ),
        seeds: vec![FederatedContextSeed::MemoryEntity(linked_entity(fixture))],
        repository_policy: ContextPolicy {
            direction: EdgeDirection::Both,
            edge_kinds: vec![],
            include_unresolved: false,
            include_external: false,
        },
        memory_policy: policy(EdgeDirection::Both, false),
        cursor,
    }
}

#[test]
fn combined_context_crosses_only_the_exact_resolved_link_set() {
    let fixture = federation_fixture();
    let response = service(&fixture)
        .context(&federated_context(&fixture, usual_budget(&fixture), None))
        .unwrap();
    assert!(response.repository.is_some());
    assert!(response.memory.is_some());
    assert!(response.items.iter().any(|item| {
        matches!(item, FederatedContextItem::Repository(item) if item.path.as_str() == "src/lib.rs")
    }));
    assert!(response
        .items
        .iter()
        .any(|item| matches!(item, FederatedContextItem::Memory(_))));
    assert!(!response.cross_domain_links.is_empty());
    assert!(response.cross_domain_links.iter().all(|relationship| {
        relationship.provenance.resolution == MemoryResolutionState::Resolved
    }));
    assert_eq!(
        response.repository.as_ref().unwrap().freshness.freshness,
        Freshness::Fresh
    );
    assert_eq!(
        response.memory.as_ref().unwrap().freshness.freshness,
        MemoryFreshness::Fresh
    );
}

#[test]
fn supplemental_byte_truncation_does_not_advertise_an_unusable_cursor() {
    let fixture = federation_fixture();
    let mut service = service(&fixture);
    let complete = service
        .context(&federated_context(&fixture, usual_budget(&fixture), None))
        .unwrap();
    assert!(!complete.cross_domain_links.is_empty());
    let primary_bytes = complete.items.iter().map(serialized_len).sum::<u64>();
    let mut constrained_budget = usual_budget(&fixture);
    constrained_budget.max_bytes = NonZeroU64::new(primary_bytes).unwrap();

    let truncated = service
        .context(&federated_context(&fixture, constrained_budget, None))
        .unwrap();
    assert_eq!(truncated.items, complete.items);
    assert_eq!(
        truncated.page.truncation.as_ref().map(|value| value.reason),
        Some(MemoryTruncationReason::Bytes)
    );
    assert!(truncated.page.next_cursor.is_none());

    assert!(complete.items.len() > 2);
    let page_size = complete.items.len() - 1;
    let page_primary_bytes = complete
        .items
        .iter()
        .take(page_size)
        .map(serialized_len)
        .sum::<u64>();
    let page_budget = || {
        let mut budget = usual_budget(&fixture);
        budget.max_results = NonZeroU32::new(u32::try_from(page_size).unwrap()).unwrap();
        budget.max_bytes = NonZeroU64::new(page_primary_bytes).unwrap();
        budget
    };
    let first = service
        .context(&federated_context(&fixture, page_budget(), None))
        .unwrap();
    assert_eq!(
        first.page.truncation.as_ref().map(|value| value.reason),
        Some(MemoryTruncationReason::Bytes)
    );
    let cursor = first
        .page
        .next_cursor
        .clone()
        .expect("remaining primary items must stay pageable");
    let second = service
        .context(&federated_context(&fixture, page_budget(), Some(cursor)))
        .unwrap();
    assert!(!second.items.is_empty());
    assert!(second.items.iter().all(|item| !first.items.contains(item)));
}

#[test]
fn combined_search_cursor_is_deterministic_and_does_not_repeat_results() {
    let fixture = federation_fixture();
    let mut service = service(&fixture);
    let mut page_budget = usual_budget(&fixture);
    page_budget.max_results = NonZeroU32::new(1).unwrap();
    let mut request = federated_search(&fixture, ContextDomain::All, page_budget);
    let first = service.search(&request).unwrap();
    assert_eq!(first.results.len(), 1);
    request.cursor = first.page.next_cursor.clone();
    assert!(request.cursor.is_some());
    let second = service.search(&request).unwrap();
    assert_eq!(second.results.len(), 1);
    assert_ne!(first.results[0], second.results[0]);
}

#[test]
fn combined_search_counts_the_complete_response_against_the_byte_budget() {
    let fixture = federation_fixture();
    let mut service = service(&fixture);
    let mut ask = |budget| service.search(&federated_search(&fixture, ContextDomain::All, budget));

    let complete = ask(usual_budget(&fixture)).unwrap();
    assert!(complete.results.len() > 1);

    let mut one_result_budget = usual_budget(&fixture);
    one_result_budget.max_results = NonZeroU32::new(1).unwrap();
    let one_result = ask(one_result_budget).unwrap();
    let one_response_bytes = one_result
        .page
        .truncation
        .as_ref()
        .expect("one-result response must be truncated")
        .returned_bytes;
    assert_eq!(one_response_bytes, one_result.to_json().len() as u64);

    let mut constrained_budget = usual_budget(&fixture);
    constrained_budget.max_bytes = NonZeroU64::new(one_response_bytes).unwrap();
    let constrained = ask(constrained_budget).unwrap();
    assert_eq!(constrained.results.len(), 1);
    let encoded_bytes = constrained.to_json().len() as u64;
    assert!(encoded_bytes <= one_response_bytes);
    assert_eq!(
        constrained
            .page
            .truncation
            .as_ref()
            .expect("response must report byte truncation")
            .returned_bytes,
        encoded_bytes
    );

    let bare_result_bytes = serialized_len(&complete.results[0]);
    let mut insufficient_budget = usual_budget(&fixture);
    insufficient_budget.max_bytes = NonZeroU64::new(bare_result_bytes + 1).unwrap();
    assert_eq!(
        ask(insufficient_budget).unwrap_err(),
        MemoryQueryError::BudgetExceeded(MemoryTruncationReason::Bytes)
    );
}

#[test]
fn approved_outcomes_require_exact_archive_proof_without_affecting_structure() {
    let mut data = Workspace::new("project-1");
    let path = "docs/specs/example.md";
    let first_content =
        "# Example\n\n- [x] #1.0 Done\n\nID: one\nDepends on: none\n\n## Outcome\n\nFirst.\n";
    data.write(path, first_content);
    let has_outcome = |source: &LocalMemorySource<KeptFiles>| {
        source
            .authorized()
            .sources
            .iter()
            .any(|source| source.category == MemorySourceCategory::ApprovedOutcome)
    };
    let structure_fingerprint = |source: &LocalMemorySource<KeptFiles>| {
        source
            .authorized()
            .sources
            .iter()
            .find(|source| source.category == MemorySourceCategory::SpecificationStructure)
            .map(|source| source.fingerprint.clone())
    };
    let unproved = data.discover();
    assert!(!has_outcome(&unproved));

    data.approve(path);
    let approved = data.discover();
    assert!(has_outcome(&approved));

    data.write(
        path,
        "# Example\n\n- [x] #1.0 Done\n\nID: one\nDepends on: none\n\n## Outcome\n\nSecond.\n",
    );
    let second = data.discover();
    assert_eq!(
        structure_fingerprint(&approved),
        structure_fingerprint(&second)
    );
    assert!(!has_outcome(&second));

    data.proofs[0].recorded_outcome = "Second.".to_string();
    assert!(!has_outcome(&data.discover()));
    data.proofs[0].spec_copy = Some(data.files[0].1.clone());
    assert!(has_outcome(&data.discover()));
    data.proofs[0].manifest_spec_path = Some("docs/specs/other.md".to_string());
    assert!(!has_outcome(&data.discover()));
}

#[test]
fn archive_manifest_sources_require_durable_archive_records() {
    let mut data = Workspace::new("project-1");
    data.write("docs/specs/example.md", "# Example\n\n## Outcome\n\nApproved.\n");
    data.approve("docs/specs/example.md");
    let source = data.discover();
    let archive_ids = source
        .authorized()
        .sources
        .iter()
        .filter_map(|source| match &source.locator {
            MemorySourceLocator::ArchiveManifest { archive_id } => Some(archive_id.as_str()),
            _ => None,
        })
        .collect::<Vec<_>>();
    assert_eq!(archive_ids, vec!["proof-1"]);
}

#[test]
fn runtime_source_serializes_only_bounded_provenance_fields() {
    let mut data = Workspace::new("project-1");
    data.tasks.push(TaskRow {
        id: "t-1".to_string(),
        milestone_id: Some("one".to_string()),
        status: "complete".to_string(),
        baseline_snapshot_id: None,
        repository_snapshot_id: None,
    });
    data.runs.push(RunRow {
        id: "run-1".to_string(),
        task_id: "t-1".to_string(),
        status: "completed".to_string(),
        baseline_snapshot_id: None,
        repository_snapshot_id: None,
    });
    let event = |id, run: Option<&str>, event_type: &str, payload: &str| EventRow {
        id,
        run_id: run.map(str::to_string),
        event_type: event_type.to_string(),
        payload: payload.to_string(),
    };
    data.events = vec![
        event(
            1,
            Some("run-1"),
            "check_passed",
            r#"{"commands":3,"secret":"hidden"}"#,
        ),
        event(
            2,
            Some("run-2"),
            "check_failed",
            r#"{"commands":4,"task_id":"t-1"}"#,
        ),
        event(3, None, "task_check_failed", r#"{"task_id":"t-1"}"#),
    ];
    let mut source = data.discover();
    let descriptor = source
        .authorized()
        .sources
        .iter()
        .find(|source| source.category == MemorySourceCategory::RuntimeProvenance)
        .unwrap()
        .clone();
    let read = source.read_verified(&descriptor).ok().unwrap();
    let value = String::from_utf8(read.content.bytes).unwrap();
    assert_eq!(
        value,
        "{\"tasks\":[{\"id\":\"t-1\",\"milestone_id\":\"one\",\"status\":\"complete\",\"baseline_snapshot_id\":null,\"repository_snapshot_id\":null}],\"runs\":[{\"id\":\"run-1\",\"task_id\":\"t-1\",\"status\":\"completed\",\"check_ids\":[\"event:1\"],\"baseline_snapshot_id\":null,\"repository_snapshot_id\":null}],\"checks\":[{\"id\":\"event:1\",\"task_id\":\"t-1\",\"run_id\":\"run-1\",\"status\":\"passed\"},{\"id\":\"event:3\",\"task_id\":\"t-1\",\"run_id\":null,\"status\":\"failed\"}]}"
    );
    assert!(!value.contains("run-2"));
    assert!(!value.contains("event:2"));
    let revision_id = source.authorized().revision_id().unwrap();
    let error = source
        .content_with_deadline(
            MemoryContentRequest {
                project: data.project.clone(),
                revision_id,
                source_category: descriptor.category,
                locator: descriptor.locator,
                expected_fingerprint: descriptor.fingerprint,
                evidence: Some(MemoryEvidenceLocator::Record(
                    MemoryRecordId::new("task:t-1").unwrap(),
                )),
                max_bytes: NonZeroU64::new(1024).unwrap(),
            },
            u64::MAX,
        )
        .unwrap_err();
    assert_eq!(error, MemoryQueryError::SourceNotAuthorized);
}

fn span(start: u64, end: u64) -> MemoryEvidenceLocator {
    let position = |byte_offset| SourcePosition {
        byte_offset,
        line: None,
        column: None,
    };
    MemoryEvidenceLocator::Span(SourceSpan {
        start: position(start),
        end: position(end),
    })
}

#[test]
fn verified_memory_content_clamps_utf8_and_rejects_changed_fingerprints() {
    let mut data = Workspace::new("project-1");
    let content = "# Example\n\n## Outcome\n\ncaf\u{00e9}\n";
    data.write("docs/specs/example.md", content);
    data.approve("docs/specs/example.md");
    let mut source = data.discover();
    let descriptor = source
        .authorized()
        .sources
        .iter()
        .find(|source| source.category == MemorySourceCategory::ApprovedOutcome)
        .unwrap()
        .clone();
    let revision_id = source.authorized().revision_id().unwrap();
    let start = content.find("caf\u{00e9}").unwrap() as u64;
    let request = |evidence, fingerprint: Digest, max_bytes| MemoryContentRequest {
        project: data.project.clone(),
        revision_id: revision_id.clone(),
        source_category: descriptor.category,
        locator: descriptor.locator.clone(),
        expected_fingerprint: fingerprint,
        evidence: Some(evidence),
        max_bytes: NonZeroU64::new(max_bytes).unwrap(),
    };
    let response = source
        .content_with_deadline(
            request(span(start, start + 5), descriptor.fingerprint.clone(), 4),
            u64::MAX,
        )
        .unwrap();
    assert!(std::str::from_utf8(&response.bytes).is_ok());
    assert_eq!(response.bytes, b"caf");
    assert!(response.truncated);

    let error = source
        .content_with_deadline(
            request(
                MemoryEvidenceLocator::Record(MemoryRecordId::new("outcome").unwrap()),
                descriptor.fingerprint.clone(),
                1024,
            ),
            u64::MAX,
        )
        .unwrap_err();
    assert_eq!(error, MemoryQueryError::SourceNotAuthorized);

    let error = source
        .content_with_deadline(
            request(
                span(start, start + 5),
                Digest::new("sha256", "00").unwrap(),
                4,
            ),
            u64::MAX,
        )
        .unwrap_err();
    assert_eq!(error, MemoryQueryError::ContentChanged);

    let error = source
        .content_with_deadline(
            request(span(start, start + 4), descriptor.fingerprint.clone(), 4),
            u64::MAX,
        )
        .unwrap_err();
    assert_eq!(
        error,
        MemoryQueryError::Backend(MemoryDiagnosticCode::new("content.nonutf8").unwrap())
    );
    let error = source
        .content_with_deadline(
            request(span(start, 4096), descriptor.fingerprint.clone(), 4),
            u64::MAX,
        )
        .unwrap_err();
    assert_eq!(error, MemoryQueryError::ContentChanged);
    let error = source
        .content_with_deadline(
            request(span(start, start + 5), descriptor.fingerprint.clone(), 4),
            0,
        )
        .unwrap_err();
    assert_eq!(
        error,
        MemoryQueryError::BudgetExceeded(MemoryTruncationReason::Duration)
    );
}

#[test]
fn specification_fingerprint_binds_title_evidence_layout() {
    let mut data = Workspace::new("project-1");
    let path = "docs/specs/example.md";
    let initial = "# Example\n\nPrivate body.\n";
    data.write(path, initial);
    let found = discover_sources(
        &data.project,
        &MemoryPolicy::default(),
        &data.inventory(),
        &data.events(),
    )
    .unwrap();
    let title_span = parse_spec_memory(initial).structure.title_span.unwrap();
    data.write(path, "Private prefix.\n# Example\n\nPrivate body.\n");
    let mut source = LocalMemorySource::new(
        data.project.clone(),
        spec_directory(),
        MemoryPolicy::default(),
        data.kept(),
        found,
    )
    .unwrap();
    let descriptor = source
        .authorized()
        .sources
        .iter()
        .find(|source| source.category == MemorySourceCategory::SpecificationStructure)
        .unwrap()
        .clone();
    let revision_id = source.authorized().revision_id().unwrap();
    let error = source
        .content_with_deadline(
            MemoryContentRequest {
                project: data.project.clone(),
                revision_id,
                source_category: descriptor.category,
                locator: descriptor.locator,
                expected_fingerprint: descriptor.fingerprint,
                evidence: Some(MemoryEvidenceLocator::Span(title_span)),
                max_bytes: NonZeroU64::new(1024).unwrap(),
            },
            u64::MAX,
        )
        .unwrap_err();
    assert_eq!(error, MemoryQueryError::ContentChanged);
}

#[test]
fn searching_does_not_depend_on_letter_case() {
    let (data, store, _) = indexed_fixture();
    let limits = QueryLimitsConfig::default();
    let mut asked = search_request(&data, &limits);
    let lower = query(&data, &store, &limits).search(&asked).unwrap();
    asked.text = MemoryQueryText::new("SQLite").unwrap();
    let upper = query(&data, &store, &limits).search(&asked).unwrap();
    assert!(!lower.hits.is_empty());
    assert_eq!(lower.hits.len(), upper.hits.len());
    for (left, right) in lower.hits.iter().zip(&upper.hits) {
        assert_eq!(left.entity, right.entity);
    }
    asked.text = MemoryQueryText::new("nowhere").unwrap();
    let none = query(&data, &store, &limits).search(&asked).unwrap();
    assert!(none.hits.is_empty());
    assert_eq!(none.page.next_cursor, None);
}

#[test]
fn search_pages_hold_every_hit_once() {
    let (data, store, _) = indexed_fixture();
    let limits = QueryLimitsConfig::default();
    let mut asked = search_request(&data, &limits);
    asked.text = MemoryQueryText::new("e").unwrap();
    let whole = query(&data, &store, &limits).search(&asked).unwrap();
    assert!(whole.hits.len() > 2);
    asked.scope.budget.max_results = NonZeroU32::new(1).unwrap();
    let mut paged = Vec::new();
    loop {
        let page = query(&data, &store, &limits).search(&asked).unwrap();
        assert!(page.hits.len() <= 1);
        paged.extend(page.hits.into_iter().map(|hit| hit.entity.id));
        match page.page.next_cursor {
            Some(cursor) => asked.page.cursor = Some(cursor),
            None => break,
        }
    }
    let ids: Vec<MemoryEntityId> = whole.hits.into_iter().map(|hit| hit.entity.id).collect();
    assert_eq!(paged, ids);
}

#[test]
fn context_depth_is_the_distance_from_the_seed() {
    let (data, store, revision_id) = indexed_fixture();
    let limits = QueryLimitsConfig::default();
    let relationships = store.relationships_for_revision(&revision_id);
    let entities = store.entities_for_revision(&revision_id);
    let neighbours = |id: &MemoryEntityId| -> BTreeSet<MemoryEntityId> {
        relationships
            .iter()
            .filter_map(|relationship| match &relationship.target {
                MemoryRelationshipTarget::MemoryEntity { entity_id } if relationship.source == *id => {
                    Some(entity_id.clone())
                }
                _ => None,
            })
            .collect()
    };
    let seed = entities
        .iter()
        .find(|entity| matches!(entity.data, MemoryEntityData::Specification { .. }))
        .unwrap()
        .id
        .clone();
    let near = neighbours(&seed);
    assert!(!near.is_empty());
    let mut scope = published_scope(&data.project, &limits);
    scope.budget.max_depth = NonZeroU32::new(1).unwrap();
    let context = query(&data, &store, &limits)
        .context(&MemoryContextRequest {
            scope,
            seeds: vec![MemoryContextSeed::Entity(seed.clone())],
            policy: policy(EdgeDirection::Outgoing, false),
            page: MemoryPageRequest::default(),
        })
        .unwrap();
    let mut expected = near;
    expected.insert(seed);
    let selected: BTreeSet<MemoryEntityId> = context
        .items
        .iter()
        .map(|item| item.entity.id.clone())
        .collect();
    assert_eq!(selected, expected);
}

#[test]
fn requests_of_another_version_are_refused() {
    let (data, store, _) = indexed_fixture();
    let limits = QueryLimitsConfig::default();
    let mut asked = search_request(&data, &limits);
    asked.scope.wire_version += 1;
    assert_eq!(
        query(&data, &store, &limits).search(&asked),
        Err(MemoryQueryError::Backend(
            MemoryDiagnosticCode::new("query.wireversion").unwrap()
        ))
    );
}

#[test]
fn unknown_revisions_and_foreign_cursors_are_refused() {
    let (data, store, _) = indexed_fixture();
    let limits = QueryLimitsConfig::default();
    let mut asked = search_request(&data, &limits);
    asked.scope.revision =
        MemoryRevisionSelector::Revision(MemoryRevisionId::new("memory-revision:none").unwrap());
    assert_eq!(
        query(&data, &store, &limits).search(&asked),
        Err(MemoryQueryError::RevisionNotFound)
    );

    let mut asked = search_request(&data, &limits);
    asked.text = MemoryQueryText::new("e").unwrap();
    asked.scope.budget.max_results = NonZeroU32::new(1).unwrap();
    let page = query(&data, &store, &limits).search(&asked).unwrap();
    asked.text = MemoryQueryText::new("d").unwrap();
    asked.page.cursor = page.page.next_cursor;
    assert!(asked.page.cursor.is_some());
    assert_eq!(
        query(&data, &store, &limits).search(&asked),
        Err(MemoryQueryError::StaleCursor)
    );
}

#[test]
fn runs_without_a_repository_publish_nothing() {
    let mut data = query_workspace();
    let mut indexer = MemoryIndexer::new(
        data.discover(),
        MemoryLedger::new(),
        KeptResolver::new(None),
    );
    let build_id = next_build_id(1_700_000_000, 1);
    assert!(matches!(
        indexer.index(MemoryIndexOptions::default(), build_id, INDEXED_AT),
        Err(MemoryIndexError::Links)
    ));
    assert_eq!(data.view(&mut indexer.store), None);
    data.builds += 1;
}

#[test]
fn committed_facts_are_read_back() {
    let (_, mut store, revision_id) = indexed_fixture();
    let revision = store.revision(&revision_id).unwrap().unwrap();
    assert_eq!(revision.id, revision_id);
    for entity in store.entities_for_revision(&revision_id) {
        assert_eq!(entity.memory_revision_id, revision_id);
        assert_eq!(entity.project, revision.project);
    }
    let build = store.build(&revision.completed_by).unwrap().unwrap();
    assert_eq!(build.prospective_revision_id, revision_id);
    assert!(store
        .entities_for_revision(&MemoryRevisionId::new("memory-revision:none").unwrap())
        .is_empty());
}

#[test]
fn specifications_that_cannot_be_read_have_no_fingerprint() {
    let structure = MemorySourceCategory::SpecificationStructure;
    assert!(matches!(
        spec_fingerprint(structure, &[0xff]),
        Err(MemorySourceError::NotUtf8)
    ));
    assert!(matches!(
        spec_fingerprint(MemorySourceCategory::ApprovedOutcome, b"# Example\n"),
        Err(MemorySourceError::OutcomeMissing)
    ));
    assert!(matches!(
        spec_fingerprint(MemorySourceCategory::TaskBody, b"# Example\n"),
        Err(MemorySourceError::UnsupportedCategory)
    ));
    assert_ne!(
        spec_fingerprint(structure, b"# Example\n").unwrap(),
        spec_fingerprint(structure, b"# Another\n").unwrap()
    );
}

#[test]
fn archives_outside_the_limits_are_refused() {
    let mut data = query_workspace();
    let found = |data: &Workspace| {
        discover_sources(
            &data.project,
            &MemoryPolicy::default(),
            &data.inventory(),
            &data.events(),
        )
        .err()
    };
    assert_eq!(found(&data), None);
    data.archives[0].task_count = 100_001;
    assert_eq!(found(&data), Some(MemorySourceError::TooManyTasks));
    data.archives[0].task_count = 100_000;
    data.archives[0].run_count = 100_001;
    assert_eq!(found(&data), Some(MemorySourceError::TooManyRuns));
    data.archives[0].run_count = 0;
    data.archives[0].archive_id = String::new();
    assert_eq!(found(&data), Some(MemorySourceError::InvalidValue));
    data.archives[0].archive_id = "proof-1".to_string();
    data.archives[0].manifest.spec_path = "/absolute.md".to_string();
    assert_eq!(found(&data), Some(MemorySourceError::InvalidPath));
}

#[test]
fn only_tracked_markdown_files_are_listed() {
    let listed: Vec<String> = tracked_paths(b"docs/specs/a.md\0docs/specs/b.txt\0\0docs/c.md\0")
        .unwrap()
        .iter()
        .map(|path| path.as_str().to_string())
        .collect();
    assert_eq!(listed, ["docs/specs/a.md", "docs/c.md"]);
    assert_eq!(
        tracked_paths(b"docs/\xff.md\0").err(),
        Some(MemorySourceError::PathNotUtf8)
    );
    assert_eq!(
        tracked_paths(b"/etc/a.md\0").err(),
        Some(MemorySourceError::InvalidPath)
    );
    assert!(tracked_paths(b"").unwrap().is_empty());
}

#[test]
fn changed_and_foreign_sources_are_refused() {
    let mut data = Workspace::new("project-1");
    data.write_example(None);
    let found = discover_sources(
        &data.project,
        &MemoryPolicy::default(),
        &data.inventory(),
        &data.events(),
    )
    .unwrap();
    data.write("docs/specs/example.md", "# Renamed\n");
    let mut source = LocalMemorySource::new(
        data.project.clone(),
        spec_directory(),
        MemoryPolicy::default(),
        data.kept(),
        found.clone(),
    )
    .unwrap();
    let manifest = source.manifest().unwrap();
    assert_eq!(
        source.read_verified(&manifest.sources[0]).err(),
        Some(MemorySourceError::SpecificationChanged)
    );
    assert_eq!(
        source.revalidate(&manifest),
        Err(MemorySourceError::SourcesChanged)
    );
    assert!(matches!(
        LocalMemorySource::new(
            project_named("project-2"),
            spec_directory(),
            MemoryPolicy::default(),
            data.kept(),
            found,
        ),
        Err(MemorySourceError::ForeignSource)
    ));
}

#[test]
fn what_is_not_there_is_not_asked() {
    let repository = federated_target(ContextDomain::Repository);
    let memory = federated_target(ContextDomain::Memory);
    let all = federated_target(ContextDomain::All);
    assert_eq!(require_backends(&repository, true, false), Ok(()));
    assert_eq!(require_backends(&memory, false, true), Ok(()));
    assert_eq!(require_backends(&all, true, true), Ok(()));
    for refused in [
        require_backends(&repository, false, true),
        require_backends(&memory, true, false),
        require_backends(&all, false, true),
        require_backends(&all, true, false),
    ] {
        assert_eq!(refused, Err(MemoryQueryError::Unavailable));
    }

    let (data, _, _) = indexed_fixture();
    let limits = QueryLimitsConfig::default();
    let mut absent: OptionalMemoryBackend<
        SqliteMemoryQuery<KeptRecords, LocalMemorySource<KeptFiles>>,
    > = OptionalMemoryBackend::new(None);
    assert_eq!(
        absent.search(&search_request(&data, &limits)),
        Err(MemoryQueryError::Unavailable)
    );
    let mut graph: OptionalGraphQuery<KeptGraph> = OptionalGraphQuery::new(None);
    let scope = QueryScope {
        repository: graph_repository("federation-project"),
        snapshot: SnapshotSelector::Published(PublishedViewName::new("canonical").unwrap()),
        budget: QueryBudget {
            max_results: NonZeroU32::new(1).unwrap(),
            max_bytes: NonZeroU64::new(1).unwrap(),
            max_depth: NonZeroU32::new(1).unwrap(),
            max_duration_ms: NonZeroU64::new(1).unwrap(),
            max_diagnostics: NonZeroU32::new(1).unwrap(),
        },
    };
    assert!(matches!(
        graph.status(&scope),
        Err(QueryErrorCode::NotBuilt)
    ));
}

#[test]
fn scopes_need_the_repository_they_ask() {
    let limits = QueryLimitsConfig::default();
    let project = project_named("project-1");
    let target = || RepositoryContextTarget {
        repository: graph_repository("project-1"),
        snapshot: SnapshotSelector::Published(PublishedViewName::new("canonical").unwrap()),
    };
    let scope = |domain, enabled, repository| {
        federated_scope(
            &project,
            domain,
            default_budget(&limits).unwrap(),
            enabled,
            repository,
        )
    };
    assert!(matches!(
        scope(ContextDomain::All, false, Some(target())),
        Err(ScopeRefusal::GraphDisabled)
    ));
    assert!(matches!(
        scope(ContextDomain::Repository, true, None),
        Err(ScopeRefusal::RepositoryUnknown)
    ));
    assert!(matches!(
        scope(ContextDomain::Memory, false, None).map(|scope| scope.target),
        Ok(FederatedTarget::Memory {
            memory: MemoryRevisionSelector::Published(_)
        })
    ));
    assert!(matches!(
        scope(ContextDomain::All, true, Some(target())).map(|scope| scope.target),
        Ok(FederatedTarget::All { .. })
    ));
}

#[test]
fn freshness_is_compared_only_where_it_is_wanted() {
    let data = query_workspace();
    let manifest = data.discover().manifest().unwrap();
    assert_eq!(memory_freshness_comparison(false, Some(&manifest)), None);
    assert_eq!(memory_freshness_comparison(true, None), None);
    assert_eq!(
        memory_freshness_comparison(true, Some(&manifest)),
        Some(MemoryFreshnessComparison::from_manifest(&manifest))
    );
}

#[test]
fn kept_links_are_read_up_to_a_limit() {
    let fixture = federation_fixture();
    let total = fixture.links[0].relationships.len();
    assert!(total > 0);
    let mut links = KeptLinks::new(fixture.links.clone());
    let mut read = |max_links: u32| {
        links
            .bounded_repository_links(&LinksRequest {
                link_set_id: fixture.links[0].link_set.id.clone(),
                max_links,
                max_diagnostics: 10,
                max_duration_ms: 1_000,
            })
            .unwrap()
    };
    let none = read(0);
    assert!(none.relationships.is_empty());
    assert!(none.truncated);
    let all = read(1_000);
    assert_eq!(all.relationships.len(), total);
    assert!(!all.truncated);
    assert!(!all.duration_exceeded);
}

#[test]
fn contexts_are_shortened_until_they_fit() {
    let fixture = federation_fixture();
    let answer = || {
        service(&fixture)
            .context(&federated_context(&fixture, usual_budget(&fixture), None))
            .unwrap()
    };
    let whole = answer();
    let place = PagePlace {
        offset: 0,
        total: whole.items.len(),
        fingerprint: "request",
        revision_key: "revisions",
    };
    let fit = |max_bytes: u64, questions: u64| {
        fit_federated_context_response(
            answer(),
            max_bytes,
            None,
            1,
            &place,
            &mut QuestionLimit::after(questions),
        )
    };
    let size = serialized_len(&fit(u64::MAX, 1_000).unwrap());
    assert_eq!(fit(size, 1_000).unwrap().items, whole.items);

    let shorter = fit(size - 1, 1_000).unwrap();
    assert!(serialized_len(&shorter) < size);
    assert_eq!(shorter.items, whole.items);
    assert!(shorter.cross_domain_links.len() + shorter.memory_relationships.len()
        < whole.cross_domain_links.len() + whole.memory_relationships.len());
    let truncation = shorter.page.truncation.as_ref().unwrap();
    assert_eq!(truncation.reason, MemoryTruncationReason::Bytes);
    assert_eq!(truncation.returned_bytes, serialized_len(&shorter));

    assert!(fit(1, 1_000).is_err());
    assert_eq!(
        fit(size - 1, 0),
        Err(MemoryQueryError::BudgetExceeded(
            MemoryTruncationReason::Duration
        ))
    );
}

#[test]
fn kept_facts_stand_for_a_new_reading() {
    let mut data = query_workspace();
    let links = no_graph("query-project");
    let source = data.discover();
    let (first, source, store) = data.run(
        source,
        MemoryLedger::new(),
        &links,
        MemoryIndexOptions::default(),
    );
    let (reused, source, store) = data.run(source, store, &links, MemoryIndexOptions::default());
    let (anew, _, store) = data.run(source, store, &links, MemoryIndexOptions { full: true });
    let (first, reused, anew) = (first.unwrap(), reused.unwrap(), anew.unwrap());
    assert_eq!(reused.metrics.extracted_sources, 0);
    assert_eq!(anew.metrics.reused_sources, 0);
    assert_eq!(first.revision.id, reused.revision.id);
    assert_eq!(first.revision.id, anew.revision.id);
    assert_eq!(reused.metrics.entities, anew.metrics.entities);
    assert_eq!(reused.metrics.relationships, anew.metrics.relationships);
    assert!(!store.entities_for_revision(&first.revision.id).is_empty());
}

#[test]
fn unresolved_links_are_reported_with_their_set() {
    let mut data = federation_workspace();
    let source = data.discover();
    let (outcome, _, store) = data.run(
        source,
        MemoryLedger::new(),
        &no_graph("federation-project"),
        MemoryIndexOptions::default(),
    );
    let link_set = outcome.unwrap().repository_link_set;
    let codes: Vec<String> = store
        .repository_link_diagnostics(&link_set.id)
        .iter()
        .map(|diagnostic| diagnostic.code.as_str().to_string())
        .collect();
    assert!(codes.contains(&"link.unresolved".to_string()));
    let unknown = MemoryRepositoryLinkSetId::new("memory-links:none").unwrap();
    assert!(store.repository_link_diagnostics(&unknown).is_empty());
}

#[test]
fn facts_that_contradict_each_other_publish_nothing() {
    let mut data = Workspace::new("project-1");
    data.write(
        "docs/specs/example.md",
        "# Example\n\n- [x] #1.0 Done\n\nID: one\nDepends on: none\n\n- [ ] #2.0 Open\n\nID: one\nDepends on: none\n",
    );
    let source = data.discover();
    let (outcome, _, mut store) = data.run(
        source,
        MemoryLedger::new(),
        &no_graph("project-1"),
        MemoryIndexOptions::default(),
    );
    assert!(matches!(outcome, Err(MemoryIndexError::FactCollision)));
    assert_eq!(data.view(&mut store), None);
}

#[test]
fn seeds_of_another_domain_ask_nobody() {
    let fixture = federation_fixture();
    let mut graph = graph();
    graph.status = Err(QueryErrorCode::NotBuilt);
    graph.context = Err(QueryErrorCode::NotBuilt);
    let mut service = FederatedContextService::new(
        graph,
        query(&fixture.data, &fixture.store, &fixture.limits),
        KeptLinks::new(fixture.links.clone()),
        fixture.limits.clone(),
        Some(fixture.freshness.clone()),
    );
    let mut request = federated_context(&fixture, usual_budget(&fixture), None);
    request.scope.target = federated_target(ContextDomain::Repository);
    assert_eq!(
        service.context(&request).unwrap_err(),
        MemoryQueryError::Backend(MemoryDiagnosticCode::new("context.domainmismatch").unwrap())
    );
    request.scope.target = federated_target(ContextDomain::Memory);
    request.seeds = vec![FederatedContextSeed::Repository(ContextSeed::Path(
        RepoPath::new("src/lib.rs").unwrap(),
    ))];
    assert_eq!(
        service.context(&request).unwrap_err(),
        MemoryQueryError::Backend(MemoryDiagnosticCode::new("context.domainmismatch").unwrap())
    );
}

#[test]
fn targets_need_only_what_they_ask() {
    assert_eq!(
        needed_backends(&federated_target(ContextDomain::Repository)),
        (true, false)
    );
    assert_eq!(
        needed_backends(&federated_target(ContextDomain::Memory)),
        (false, true)
    );
    assert_eq!(
        needed_backends(&federated_target(ContextDomain::All)),
        (true, true)
    );
}

#[test]
fn fitting_keeps_as_many_results_as_fit() {
    let fixture = federation_fixture();
    let answer = || {
        service(&fixture)
            .search(&federated_search(
                &fixture,
                ContextDomain::All,
                usual_budget(&fixture),
            ))
            .unwrap()
    };
    let whole = answer();
    let count = whole.results.len();
    assert!(count > 3);
    let place = PagePlace {
        offset: 0,
        total: count,
        fingerprint: "request",
        revision_key: "revisions",
    };
    let fit = |max_bytes: u64| {
        fit_federated_search_response(
            answer(),
            max_bytes,
            None,
            &place,
            &mut QuestionLimit::after(1_000),
        )
    };
    let mut size = serialized_len(&fit(u64::MAX).unwrap());
    let mut kept = count;
    while let Ok(shorter) = fit(size - 1) {
        assert_eq!(fit(size).unwrap().results[..], whole.results[..kept]);
        assert!(shorter.results.len() < kept);
        kept = shorter.results.len();
        size = serialized_len(&shorter);
    }
    assert_eq!(kept, 1);
    assert_eq!(
        fit(size - 1),
        Err(MemoryQueryError::BudgetExceeded(
            MemoryTruncationReason::Bytes
        ))
    );
}

#[test]
fn fitting_keeps_as_many_items_as_fit() {
    let fixture = federation_fixture();
    let whole = service(&fixture)
        .context(&federated_context(&fixture, usual_budget(&fixture), None))
        .unwrap();
    let count = whole.items.len();
    assert!(count > 2);
    let place = PagePlace {
        offset: 0,
        total: count,
        fingerprint: "request",
        revision_key: "revisions",
    };
    let fit = |max_bytes: u64| {
        fit_federated_context_response(
            whole.clone(),
            max_bytes,
            None,
            1,
            &place,
            &mut QuestionLimit::after(1_000),
        )
    };
    let mut fitted = fit(u64::MAX).unwrap();
    while let Ok(shorter) = fit(serialized_len(&fitted) - 1) {
        let kept = shorter.items.len();
        assert!(kept <= fitted.items.len());
        assert_eq!(shorter.items[..], whole.items[..kept]);
        if kept < count {
            assert!(shorter.cross_domain_links.is_empty());
            assert!(shorter.memory_relationships.is_empty());
            assert!(shorter.page.next_cursor.is_some());
        }
        assert!(serialized_len(&shorter) < serialized_len(&fitted));
        fitted = shorter;
    }
    assert_eq!(fitted.items.len(), 1);
}

#[test]
fn moved_titles_change_the_fingerprint() {
    let category = MemorySourceCategory::SpecificationStructure;
    let first = parse_spec_memory("# Example\n\nBody.\n").structure;
    let second = parse_spec_memory("Prefix.\n# Example\n\nBody.\n").structure;
    assert_eq!(first.title, second.title);
    assert_eq!(first.title_span.as_ref().unwrap().start.byte_offset, 0);
    assert_eq!(second.title_span.as_ref().unwrap().start.byte_offset, 8);
    assert_ne!(first.to_json(), second.to_json());
    assert_ne!(
        spec_fingerprint(category, b"# Example\n\nBody.\n").unwrap(),
        spec_fingerprint(category, b"Prefix.\n# Example\n\nBody.\n").unwrap()
    );
}

#[test]
fn contexts_are_refused_when_the_time_is_up_at_the_end() {
    let fixture = federation_fixture();
    let request = federated_context(&fixture, usual_budget(&fixture), None);
    let ask = |questions: u64| {
        federated_context_within(
            &mut graph(),
            &mut query(&fixture.data, &fixture.store, &fixture.limits),
            &mut KeptLinks::new(fixture.links.clone()),
            &fixture.limits,
            &Some(fixture.freshness.clone()),
            &request,
            &mut QuestionLimit::after(questions),
        )
    };
    let enough = (1..1_000).find(|questions| ask(*questions).is_ok()).unwrap();
    assert!(enough > 8);
    assert_eq!(
        ask(enough - 1),
        Err(MemoryQueryError::BudgetExceeded(
            MemoryTruncationReason::Duration
        ))
    );
    assert_eq!(
        ask(0),
        Err(MemoryQueryError::BudgetExceeded(
            MemoryTruncationReason::Duration
        ))
    );
}

/// A graph that notes the time it is given.
struct TimedGraph {
    kept: KeptGraph,
    times: Vec<u64>,
}

impl GraphQuery for TimedGraph {
    fn status(&mut self, scope: &QueryScope) -> Result<StatusResponse, QueryErrorCode> {
        self.times.push(scope.budget.max_duration_ms.get());
        self.kept.status(scope)
    }

    fn search(&mut self, request: &SearchRequest) -> Result<SearchResponse, QueryErrorCode> {
        self.times.push(request.scope.budget.max_duration_ms.get());
        self.kept.search(request)
    }

    fn context(&mut self, request: &ContextRequest) -> Result<ContextResponse, QueryErrorCode> {
        self.times.push(request.scope.budget.max_duration_ms.get());
        self.kept.context(request)
    }
}

#[test]
fn backends_get_the_time_that_is_left() {
    let fixture = federation_fixture();
    let request = federated_context(&fixture, usual_budget(&fixture), None);
    let mut repository = TimedGraph {
        kept: graph(),
        times: vec![],
    };
    federated_context_within(
        &mut repository,
        &mut query(&fixture.data, &fixture.store, &fixture.limits),
        &mut KeptLinks::new(fixture.links.clone()),
        &fixture.limits,
        &Some(fixture.freshness.clone()),
        &request,
        &mut QuestionLimit::after(400),
    )
    .unwrap();
    assert_eq!(repository.times[0], 400);
    assert!(repository.times.len() > 1);
    assert!(repository.times.windows(2).all(|pair| pair[1] < pair[0]));
}

/// Content that notes the time it is given.
struct TimedContent {
    times: Vec<u64>,
}

impl MemoryContent for TimedContent {
    fn content_with_deadline(
        &mut self,
        request: MemoryContentRequest,
        max_duration_ms: u64,
    ) -> Result<MemoryContentResponse, MemoryQueryError> {
        self.times.push(max_duration_ms);
        Ok(MemoryContentResponse {
            verified_fingerprint: request.expected_fingerprint,
            bytes: b"text".to_vec(),
            truncated: false,
        })
    }
}

#[test]
fn snippets_get_the_time_that_is_left() {
    let (data, mut store, revision_id) = indexed_fixture();
    let limits = QueryLimitsConfig::default();
    let request = milestone_request(published_scope(&data.project, &limits), true);
    let mut content = Some(TimedContent { times: vec![] });
    let revision = store.revision(&revision_id).unwrap();
    let records = ContextRecords {
        entities: Ok(store.entities_for_revision(&revision_id)),
        relationships: Ok(store.relationships_for_revision(&revision_id)),
        links: Ok(vec![]),
        diagnostics: Ok(vec![]),
    };
    let response = context(
        &request,
        &limits,
        Ok(revision),
        records,
        &mut content,
        &mut QuestionLimit::after(1_000),
    )
    .unwrap();
    let times = content.unwrap().times;
    assert_eq!(times.len(), response.items.len());
    assert!(times[0] < 1_000);
    assert!(times.windows(2).all(|pair| pair[1] < pair[0]));
}

#[test]
fn content_is_read_without_a_limit_too() {
    let (data, _, _) = indexed_fixture();
    let mut source = data.discover();
    let manifest = source.manifest().unwrap();
    let descriptor = manifest.sources[0].clone();
    let request = MemoryContentRequest {
        project: data.project.clone(),
        revision_id: manifest.revision_id().unwrap(),
        source_category: descriptor.category,
        locator: descriptor.locator.clone(),
        expected_fingerprint: descriptor.fingerprint.clone(),
        evidence: None,
        max_bytes: NonZeroU64::new(64).unwrap(),
    };
    assert_eq!(
        source.content(request.clone()),
        source.content_with_deadline(request, u64::MAX)
    );
}

#[test]
fn repositories_without_a_snapshot_say_why() {
    let project = project_named("project-1");
    let snapshots = || vec![snapshot("snapshot-1", "11", &["src/lib.rs"], &[])];
    let open = |opening| LocalRepositoryLinkResolver::opened(&project, opening, snapshots()).unwrap();
    let published = open(GraphOpening::Published(SnapshotId::new("snapshot-1").unwrap()));
    assert_eq!(published.repository.namespace.as_str(), "local:project-1");
    assert_eq!(published.repository.repository_id.as_str(), "root");
    assert_eq!(
        published.repository_snapshot_id,
        Some(SnapshotId::new("snapshot-1").unwrap())
    );
    assert_eq!(published.snapshots.len(), 1);
    assert_eq!(published.availability_diagnostic, None);
    for (opening, code) in [
        (GraphOpening::Unpublished, "link.repository.notbuilt"),
        (GraphOpening::Absent, "link.repository.notbuilt"),
        (GraphOpening::Unreadable, "link.repository.unavailable"),
        (GraphOpening::NeedsMigration, "link.repository.unavailable"),
        (GraphOpening::RequiresRebuild, "link.repository.unavailable"),
        (GraphOpening::Failed, "link.repository.unavailable"),
    ] {
        let resolver = open(opening);
        assert_eq!(resolver.repository_snapshot_id, None);
        assert!(resolver.snapshots.is_empty());
        assert_eq!(
            resolver.availability_diagnostic,
            Some(MemoryDiagnosticCode::new(code).unwrap())
        );
    }
}

#[test]
fn bounded_reads_say_what_is_missing() {
    let fixture = federation_fixture();
    let links = &fixture.links[0];
    assert!(!links.relationships.is_empty());
    let request = |max_links| LinksRequest {
        link_set_id: links.link_set.id.clone(),
        max_links,
        max_diagnostics: 1,
        max_duration_ms: 1,
    };
    let whole = bounded_read(&links.relationships, &vec![], true, &request(100));
    assert_eq!(whole.relationships, links.relationships);
    assert!(!whole.truncated);
    assert!(whole.duration_exceeded);
    let part = bounded_read(&links.relationships, &vec![], false, &request(0));
    assert!(part.relationships.is_empty());
    assert!(part.truncated);
    assert!(!part.duration_exceeded);
}

#[test]
fn event_payloads_name_tasks() {
    let large = format!(r#"{{"task_id":"t-1","text":"{}"}}"#, "x".repeat(64 * 1024));
    for (payload, expected) in [
        (r#"{"task_id":"t-1"}"#, Some("t-1")),
        (r#"{ "other": [1, 2], "task_id": "t-1" }"#, Some("t-1")),
        (r#"["t-1"]"#, Some("t-1")),
        (r#"[null]"#, None),
        (r#"["t-1",1]"#, None),
        (r#"[]"#, None),
        (r#"{"task_id":"t-1","task_id":"t-1"}"#, None),
        (r#"{"other":1,"other":2,"task_id":"t-1"}"#, Some("t-1")),
        (r#"{"task_id":"t-1"} 7"#, None),
        (r#"{}"#, None),
        (r#"{"task_id":null}"#, None),
        (r#"{"task_id":7}"#, None),
        (r#"{"id":"t-1"}"#, None),
        (r#""t-1""#, None),
        ("not json", None),
        (large.as_str(), None),
    ] {
        let read = read_event(&EventRow {
            id: 7,
            run_id: None,
            event_type: "check_passed".to_string(),
            payload: payload.to_string(),
        });
        assert_eq!(read.payload_task_id.as_deref(), expected, "{payload:.40}");
        assert_eq!(read.payload_bytes, payload.len() as u64);
        assert_eq!(read.id, 7);
    }
}

#[test]
fn current_sources_follow_the_configuration() {
    let mut data = Workspace::new("project-1");
    data.write_example(None);
    let found = |pointer: &str, metadata: &str, configuration: &str| {
        LocalMemorySource::discover_current(pointer, metadata, configuration, data.kept())
    };
    let mut source = found("project-1", "project-1", "[spec]\ndirectory = \"docs/plans\"\n").unwrap();
    assert_eq!(source.project().namespace.as_str(), "local:ferrus");
    assert_eq!(source.project().project_id.as_str(), "project-1");
    assert_eq!(source.manifest().unwrap().sources.len(), 1);
    assert!(matches!(
        found("project-1", "project-2", "not toml"),
        Err(WorkspaceError::IdentityMismatch)
    ));
    assert!(matches!(
        found("", "", "not toml"),
        Err(WorkspaceError::ConfigurationInvalid)
    ));
    assert!(matches!(
        found("", "", "[spec]\ndirectory = \"/docs\"\n"),
        Err(WorkspaceError::DirectoryOutside)
    ));
    assert!(matches!(
        found("", "", ""),
        Err(WorkspaceError::ProjectInvalid(_))
    ));
}
