use project_memory::digest::Digest;
use project_memory::domain::{
    MemoryBuild, MemoryBuildId, MemoryBuildMetrics, MemoryBuildState, MemoryCommit,
    MemoryPublicationOutcome, MemoryPublicationVersion, MemoryPublishRequest, MemoryRevision,
    MemoryRevisionId, MemoryViewName, ProjectId, ProjectNamespace, ProjectRef,
};
use project_memory::diagnostics::MemoryDiagnosticCode;
use project_memory::ledger::{MemoryLedger, MemoryStore};
use project_memory::ports::MemoryBuildFailure;
use project_memory::query::{MemoryAvailability, MemoryQueryError};
use project_memory::repository::QueryLimitsConfig;
use project_memory::runtime::{
    memory_index_error_category, requested_budget, sidecar_status, BudgetField, ChosenLimits,
    RequestedBudgetError,
};
use project_memory::index::{next_build_id, MemoryIndexError};
use project_memory::store::{
    parse_build_state, project_ref, query_readiness, schema_step, store_error, MemoryStoreError,
    QueryReadiness, SchemaStep, MEMORY_APPLICATION_ID, MEMORY_SIDECAR_SCHEMA_VERSION,
};

fn project() -> ProjectRef {
    ProjectRef {
        namespace: ProjectNamespace::new("local:test").unwrap(),
        project_id: ProjectId::new("project-1").unwrap(),
    }
}

fn build(id: &str, revision: &str) -> MemoryBuild {
    MemoryBuild {
        id: MemoryBuildId::new(id).unwrap(),
        project: project(),
        prospective_revision_id: MemoryRevisionId::new(revision).unwrap(),
        state: MemoryBuildState::Building,
    }
}

fn commit(build: &str, revision: &str) -> MemoryCommit {
    MemoryCommit {
        revision: MemoryRevision {
            id: MemoryRevisionId::new(revision).unwrap(),
            project: project(),
            source_set_digest: Digest::new("sha256", "11").unwrap(),
            policy_digest: Digest::new("sha256", "22").unwrap(),
            memory_model_version: 1,
            extractor_set_digest: Digest::new("sha256", "33").unwrap(),
            completed_by: MemoryBuildId::new(build).unwrap(),
        },
        entities: vec![],
        relationships: vec![],
        cache_writes: vec![],
        diagnostics: vec![],
        repository_links: vec![],
        metrics: MemoryBuildMetrics {
            discovered_sources: 0,
            reused_sources: 0,
            extracted_sources: 0,
            skipped_sources: 0,
            failed_sources: 0,
            processed_bytes: 0,
            entities: 0,
            relationships: 0,
            stale_links: 0,
            diagnostics: 0,
            duration_ms: 0,
        },
    }
}

fn request(build: &str, expected: Option<(&str, u64)>) -> MemoryPublishRequest {
    MemoryPublishRequest {
        project: project(),
        view_name: MemoryViewName::new("project").unwrap(),
        build_id: MemoryBuildId::new(build).unwrap(),
        expected: expected.map(|(revision, generation)| MemoryPublicationVersion {
            revision_id: MemoryRevisionId::new(revision).unwrap(),
            generation,
        }),
    }
}

fn state(store: &mut MemoryLedger, id: &str) -> MemoryBuildState {
    store
        .build(&MemoryBuildId::new(id).unwrap())
        .unwrap()
        .unwrap()
        .state
}

#[test]
fn publications_compare_and_set() {
    let mut store = MemoryLedger::new();
    assert_eq!(store.start_build(&build("a", "one")), Ok(()));
    assert_eq!(
        store.start_build(&build("a", "one")),
        Err(MemoryStoreError::Unavailable)
    );
    assert_eq!(
        store.publish(&request("a", None)),
        Err(MemoryStoreError::InvalidTransition)
    );
    assert_eq!(
        store.complete_build(&commit("missing", "one")),
        Err(MemoryStoreError::BuildNotFound)
    );
    assert_eq!(
        store.complete_build(&commit("a", "two")),
        Err(MemoryStoreError::IdentityMismatch)
    );
    assert_eq!(store.complete_build(&commit("a", "one")), Ok(()));
    assert_eq!(
        store.publish(&request("a", Some(("one", 1)))),
        Err(MemoryStoreError::PublicationConflict)
    );
    let MemoryPublicationOutcome::Published { view } = store.publish(&request("a", None)).unwrap()
    else {
        panic!("the first publication has no rival");
    };
    assert_eq!(view.generation, 1);
    assert_eq!(state(&mut store, "a"), MemoryBuildState::Published);

    assert_eq!(store.start_build(&build("b", "one")), Ok(()));
    assert_eq!(store.complete_build(&commit("b", "one")), Ok(()));
    let MemoryPublicationOutcome::Published { view } =
        store.publish(&request("b", Some(("one", 1)))).unwrap()
    else {
        panic!("the same revision stays published");
    };
    assert_eq!(view.build_id.as_str(), "a");
    assert_eq!(view.generation, 1);
    assert_eq!(state(&mut store, "b"), MemoryBuildState::Superseded);

    assert_eq!(store.start_build(&build("c", "two")), Ok(()));
    assert_eq!(store.complete_build(&commit("c", "two")), Ok(()));
    assert_eq!(
        store.publish(&request("c", None)),
        Err(MemoryStoreError::PublicationConflict)
    );
    let MemoryPublicationOutcome::Published { view } =
        store.publish(&request("c", Some(("one", 1)))).unwrap()
    else {
        panic!("the expected publication is replaced");
    };
    assert_eq!(view.generation, 2);
    assert_eq!(state(&mut store, "a"), MemoryBuildState::Superseded);
    assert_eq!(state(&mut store, "c"), MemoryBuildState::Published);
    let retention = store.retention_statistics(&project());
    assert_eq!(retention.revisions, 2);
    assert_eq!(retention.historical_revisions, 1);
    assert_eq!(retention.builds, 3);
    assert_eq!(retention.terminal_unpublished_builds, 2);
}

#[test]
fn ended_builds_do_not_move() {
    let mut store = MemoryLedger::new();
    let failure = MemoryBuildFailure {
        code: MemoryDiagnosticCode::new("build.failed").unwrap(),
    };
    let id = MemoryBuildId::new("a").unwrap();
    assert_eq!(
        store.fail_build(&id, &failure),
        Err(MemoryStoreError::InvalidTransition)
    );
    store.start_build(&build("a", "one")).unwrap();
    assert_eq!(store.fail_build(&id, &failure), Ok(()));
    assert_eq!(state(&mut store, "a"), MemoryBuildState::Failed);
    assert_eq!(
        store.supersede_build(&id),
        Err(MemoryStoreError::InvalidTransition)
    );
    assert_eq!(
        store.complete_build(&commit("a", "one")),
        Err(MemoryStoreError::IdentityMismatch)
    );
}

#[test]
fn revisions_are_immutable() {
    let mut store = MemoryLedger::new();
    store.start_build(&build("a", "one")).unwrap();
    store.complete_build(&commit("a", "one")).unwrap();
    store.start_build(&build("b", "one")).unwrap();
    let mut changed = commit("b", "one");
    changed.revision.source_set_digest = Digest::new("sha256", "99").unwrap();
    assert_eq!(
        store.complete_build(&changed),
        Err(MemoryStoreError::IdentityMismatch)
    );
    assert_eq!(state(&mut store, "b"), MemoryBuildState::Building);
    let stored = store
        .revision(&MemoryRevisionId::new("one").unwrap())
        .unwrap()
        .unwrap();
    assert_eq!(stored.source_set_digest.value(), "11");
}

#[test]
fn only_known_schemas_are_opened() {
    assert_eq!(schema_step(0, 0), Ok(SchemaStep::Create));
    assert_eq!(schema_step(MEMORY_APPLICATION_ID, 1), Ok(SchemaStep::Migrate));
    assert_eq!(
        schema_step(MEMORY_APPLICATION_ID, MEMORY_SIDECAR_SCHEMA_VERSION),
        Ok(SchemaStep::Keep)
    );
    assert_eq!(
        schema_step(MEMORY_APPLICATION_ID, MEMORY_SIDECAR_SCHEMA_VERSION + 1),
        Err(MemoryStoreError::RequiresRebuild)
    );
    assert_eq!(schema_step(1, 999), Err(MemoryStoreError::RequiresRebuild));
    assert_eq!(schema_step(0, 1), Err(MemoryStoreError::RequiresRebuild));
    assert_eq!(
        query_readiness(MEMORY_APPLICATION_ID, 1),
        QueryReadiness::NeedsMigration {
            found_schema_version: 1
        }
    );
    assert_eq!(
        query_readiness(MEMORY_APPLICATION_ID, MEMORY_SIDECAR_SCHEMA_VERSION),
        QueryReadiness::Ready
    );
    assert_eq!(query_readiness(7, 2), QueryReadiness::RequiresRebuild);
}

#[test]
fn stored_words_are_read_back() {
    assert_eq!(parse_build_state("published"), Ok(MemoryBuildState::Published));
    assert_eq!(parse_build_state("lost"), Err(MemoryStoreError::Corrupt));
    assert_eq!(project_ref("local:test", "project-1"), Ok(project()));
    assert_eq!(project_ref("", "project-1"), Err(MemoryStoreError::Unavailable));
    assert_eq!(
        store_error(MemoryStoreError::RevisionNotFound),
        MemoryQueryError::RevisionNotFound
    );
    assert_eq!(
        store_error(MemoryStoreError::RequiresRebuild),
        MemoryQueryError::Backend(MemoryDiagnosticCode::new("storage.incompatible").unwrap())
    );
    assert_eq!(
        MemoryStoreError::PublicationConflict.message(),
        "project-memory publication compare-and-set failed"
    );
}

#[test]
fn unreadable_files_are_reported() {
    let missing = sidecar_status(&project(), Some(None)).unwrap();
    assert_eq!(missing.data.availability, MemoryAvailability::NotBuilt);
    let old = sidecar_status(
        &project(),
        Some(Some(QueryReadiness::NeedsMigration {
            found_schema_version: 1,
        })),
    )
    .unwrap();
    assert_eq!(old.data.availability, MemoryAvailability::Incompatible);
    assert!(sidecar_status(&project(), Some(Some(QueryReadiness::Ready))).is_none());
}

#[test]
fn chosen_limits_must_allow_something() {
    let none = ChosenLimits {
        max_results: None,
        max_bytes: None,
        max_snippet_bytes: None,
        max_depth: None,
        max_duration_ms: None,
        max_diagnostics: None,
    };
    let limits = QueryLimitsConfig::default();
    let budget = requested_budget(
        &limits,
        ChosenLimits {
            max_depth: Some(3),
            ..none
        },
    )
    .unwrap();
    assert_eq!(budget.max_depth.get(), 3);
    assert_eq!(budget.max_results.get(), limits.max_results);
    let refused = requested_budget(
        &limits,
        ChosenLimits {
            max_bytes: Some(0),
            ..none
        },
    );
    assert_eq!(refused, Err(RequestedBudgetError::Zero(BudgetField::MaxBytes)));
    assert_eq!(
        memory_index_error_category(&MemoryIndexError::FactCollision),
        "fact_collision"
    );
}

#[test]
fn build_names_differ_by_time_and_number() {
    let first = next_build_id(1, 0);
    assert_eq!(
        first.as_str(),
        format!("memory-build:{}", Digest::of_text("[1,0]").value())
    );
    assert_ne!(first, next_build_id(1, 1));
    assert_ne!(first, next_build_id(2, 0));
    assert_eq!(
        next_build_id(-5, 0).as_str(),
        format!("memory-build:{}", Digest::of_text("[-5,0]").value())
    );
}
