//! Facts of runtime records.
use vstd::prelude::*;
use crate::documents::{
    RuntimeCheckDocument, RuntimeCheckDocumentView, RuntimeRunDocument, RuntimeRunDocumentView,
    RuntimeSourceDocument, RuntimeSourceDocumentView, RuntimeTaskDocument, RuntimeTaskDocumentView,
};
use crate::domain::{
    MemoryEntityData, MemoryEntityDataView, MemoryEntityId, MemoryEvidenceLocator,
    MemoryEvidenceLocatorView, MemoryExtractorIdentity, MemoryExtractorIdentityView, MemoryFragment,
    MemoryFragmentView, MemoryProvenance, MemoryProvenanceView, MemoryRecordId,
    MemoryRelationshipKind, MemoryRelationshipTarget, MemoryRelationshipTargetView,
    MemorySourceCategory, MemoryStatusToken, MAX_ID_BYTES,
};
use crate::extractors::archive::is_record_id;
use crate::extractors::{
    add_entity, add_relationship, empty_fragment, entity, entity_model, extractor_identity,
    extractor_model, failure, failure_model, named_entity, named_entity_id, no_facts, provenance,
    provenance_model, relationship, relationship_model, with_entity, with_relationship,
};
use crate::ports::{
    MemoryExtractionFailure, MemoryExtractionFailureView, MemoryExtractionInput,
    MemoryExtractionInputView, MemoryExtractor, SourceDocument, SourceDocumentView,
};
use crate::record::Record;
use crate::value::is_bounded_text;

verus! {

/// Makes facts out of runtime records.
#[derive(Debug, Clone, Copy)]
pub struct RuntimeProvenanceExtractor;

/// What can be wrong with runtime records.
pub proof fn runtime_codes()
    ensures
        crate::extractors::is_extractor_name("ferrus.runtime-provenance"@),
        crate::diagnostics::is_diagnostic_code("runtime.invalid"@),
        crate::diagnostics::is_diagnostic_code("runtime.invalidtaskid"@),
        crate::diagnostics::is_diagnostic_code("runtime.invalidrunid"@),
        crate::diagnostics::is_diagnostic_code("runtime.invalidcheckid"@),
        crate::diagnostics::is_diagnostic_code("runtime.invalidmilestoneid"@),
        crate::diagnostics::is_diagnostic_code("runtime.invalidstatus"@),
{
    reveal_strlit("ferrus.runtime-provenance");
    reveal_strlit("runtime.invalid");
    reveal_strlit("runtime.invalidtaskid");
    reveal_strlit("runtime.invalidrunid");
    reveal_strlit("runtime.invalidcheckid");
    reveal_strlit("runtime.invalidmilestoneid");
    reveal_strlit("runtime.invalidstatus");
}

/// Where the facts of a runtime record come from.
pub open spec fn record_provenance(
    input: MemoryExtractionInputView,
    record: Seq<char>,
) -> MemoryProvenanceView {
    provenance_model(
        input,
        "ferrus.runtime-provenance"@,
        MemoryEvidenceLocatorView::Record(record),
    )
}

fn source_of(input: &MemoryExtractionInput, record: &MemoryRecordId) -> (result: MemoryProvenance)
    ensures
        result.deep_view() == record_provenance(input.deep_view(), record.deep_view()),
{
    proof {
        runtime_codes();
    }
    provenance(
        input,
        "ferrus.runtime-provenance",
        MemoryEvidenceLocator::Record(record.copied()),
    )
}

/// Whether a text can be a status.
pub open spec fn is_status(text: Seq<char>) -> bool {
    is_bounded_text(text, MAX_ID_BYTES as nat, false)
}

/// The facts with those of one more task; the code of what is wrong with it.
pub open spec fn with_task(
    input: MemoryExtractionInputView,
    facts: MemoryFragmentView,
    task: RuntimeTaskDocumentView,
) -> Result<MemoryFragmentView, Seq<char>> {
    let id = named_entity(input.context.project, "task"@, task.id);
    if !is_record_id(task.id) {
        Err("runtime.invalidtaskid"@)
    } else if task.milestone_id is Some && !is_record_id(task.milestone_id->0) {
        Err("runtime.invalidmilestoneid"@)
    } else if !is_status(task.status) {
        Err("runtime.invalidstatus"@)
    } else {
        let known = with_entity(
            facts,
            entity_model(
                input,
                id,
                MemoryEntityDataView::TaskReference {
                    task_id: task.id,
                    milestone_id: task.milestone_id,
                    status: task.status,
                    baseline_snapshot_id: task.baseline_snapshot_id,
                    repository_snapshot_id: task.repository_snapshot_id,
                },
                record_provenance(input, task.id),
            ),
        );
        match task.milestone_id {
            Some(milestone_id) => Ok(
                with_relationship(
                    known,
                    relationship_model(
                        input,
                        "implements"@,
                        milestone_id,
                        MemoryRelationshipKind::Implements,
                        id,
                        MemoryRelationshipTargetView::Milestone { milestone_id },
                        record_provenance(input, task.id),
                    ),
                ),
            ),
            None => Ok(known),
        }
    }
}

/// Whether one of the tasks has this id.
pub open spec fn has_task(tasks: Seq<RuntimeTaskDocumentView>, id: Seq<char>) -> bool {
    exists|i: int| 0 <= i < tasks.len() && (#[trigger] tasks[i]).id == id
}

/// Whether one of the runs has this id.
pub open spec fn has_run(runs: Seq<RuntimeRunDocumentView>, id: Seq<char>) -> bool {
    exists|i: int| 0 <= i < runs.len() && (#[trigger] runs[i]).id == id
}

/// Whether every text can be the id of a record.
pub open spec fn are_record_ids(texts: Seq<Seq<char>>) -> bool {
    forall|i: int| 0 <= i < texts.len() ==> is_record_id(#[trigger] texts[i])
}

/// The facts with those of one more run; the code of what is wrong with it.
pub open spec fn with_run(
    input: MemoryExtractionInputView,
    facts: MemoryFragmentView,
    tasks: Seq<RuntimeTaskDocumentView>,
    run: RuntimeRunDocumentView,
) -> Result<MemoryFragmentView, Seq<char>> {
    let id = named_entity(input.context.project, "run"@, run.id);
    if !is_record_id(run.id) {
        Err("runtime.invalidrunid"@)
    } else if !is_record_id(run.task_id) {
        Err("runtime.invalidtaskid"@)
    } else if !are_record_ids(run.check_ids) {
        Err("runtime.invalidcheckid"@)
    } else if !is_status(run.status) {
        Err("runtime.invalidstatus"@)
    } else {
        let known = with_entity(
            facts,
            entity_model(
                input,
                id,
                MemoryEntityDataView::RunReference {
                    run_id: run.id,
                    task_id: run.task_id,
                    status: run.status,
                    check_ids: run.check_ids,
                    baseline_snapshot_id: run.baseline_snapshot_id,
                    repository_snapshot_id: run.repository_snapshot_id,
                },
                record_provenance(input, run.id),
            ),
        );
        if has_task(tasks, run.task_id) {
            Ok(
                with_relationship(
                    known,
                    relationship_model(
                        input,
                        "task-run"@,
                        id,
                        MemoryRelationshipKind::Contains,
                        named_entity(input.context.project, "task"@, run.task_id),
                        MemoryRelationshipTargetView::MemoryEntity { entity_id: id },
                        record_provenance(input, run.id),
                    ),
                ),
            )
        } else {
            Ok(known)
        }
    }
}

/// What a check validates: its run where that is known, else its task where that is known.
pub open spec fn validated(
    input: MemoryExtractionInputView,
    document: RuntimeSourceDocumentView,
    check: RuntimeCheckDocumentView,
) -> Option<Seq<char>> {
    if check.run_id is Some && has_run(document.runs, check.run_id->0) {
        Some(named_entity(input.context.project, "run"@, check.run_id->0))
    } else if has_task(document.tasks, check.task_id) {
        Some(named_entity(input.context.project, "task"@, check.task_id))
    } else {
        None
    }
}

/// The facts with those of one more check; the code of what is wrong with it.
pub open spec fn with_check(
    input: MemoryExtractionInputView,
    facts: MemoryFragmentView,
    document: RuntimeSourceDocumentView,
    check: RuntimeCheckDocumentView,
) -> Result<MemoryFragmentView, Seq<char>> {
    let id = named_entity(input.context.project, "check"@, check.id);
    if !is_record_id(check.id) {
        Err("runtime.invalidcheckid"@)
    } else if !is_status(check.status) {
        Err("runtime.invalidstatus"@)
    } else {
        let known = with_entity(
            facts,
            entity_model(
                input,
                id,
                MemoryEntityDataView::ValidationEvidence {
                    text: None,
                    check_id: Some(check.id),
                    status: Some(check.status),
                },
                record_provenance(input, check.id),
            ),
        );
        match validated(input, document, check) {
            Some(target) => Ok(
                with_relationship(
                    known,
                    relationship_model(
                        input,
                        "validates"@,
                        target,
                        MemoryRelationshipKind::Validates,
                        id,
                        MemoryRelationshipTargetView::MemoryEntity { entity_id: target },
                        record_provenance(input, check.id),
                    ),
                ),
            ),
            None => Ok(known),
        }
    }
}

/// The facts with those of the tasks from one on.
pub open spec fn with_tasks(
    input: MemoryExtractionInputView,
    facts: MemoryFragmentView,
    document: RuntimeSourceDocumentView,
    at: int,
) -> Result<MemoryFragmentView, Seq<char>>
    decreases document.tasks.len() - at,
{
    if at >= document.tasks.len() {
        Ok(facts)
    } else {
        match with_task(input, facts, document.tasks[at]) {
            Ok(facts) => with_tasks(input, facts, document, at + 1),
            Err(code) => Err(code),
        }
    }
}

/// The facts with those of the runs from one on.
pub open spec fn with_runs(
    input: MemoryExtractionInputView,
    facts: MemoryFragmentView,
    document: RuntimeSourceDocumentView,
    at: int,
) -> Result<MemoryFragmentView, Seq<char>>
    decreases document.runs.len() - at,
{
    if at >= document.runs.len() {
        Ok(facts)
    } else {
        match with_run(input, facts, document.tasks, document.runs[at]) {
            Ok(facts) => with_runs(input, facts, document, at + 1),
            Err(code) => Err(code),
        }
    }
}

/// The facts with those of the checks from one on.
pub open spec fn with_checks(
    input: MemoryExtractionInputView,
    facts: MemoryFragmentView,
    document: RuntimeSourceDocumentView,
    at: int,
) -> Result<MemoryFragmentView, Seq<char>>
    decreases document.checks.len() - at,
{
    if at >= document.checks.len() {
        Ok(facts)
    } else {
        match with_check(input, facts, document, document.checks[at]) {
            Ok(facts) => with_checks(input, facts, document, at + 1),
            Err(code) => Err(code),
        }
    }
}

/// The facts of runtime records: those of the tasks, the runs and the checks; the code of what is
/// wrong where there are none.
pub open spec fn runtime_facts(
    input: MemoryExtractionInputView,
    document: RuntimeSourceDocumentView,
) -> Result<MemoryFragmentView, Seq<char>> {
    match with_tasks(input, no_facts(), document, 0) {
        Err(code) => Err(code),
        Ok(facts) => match with_runs(input, facts, document, 0) {
            Err(code) => Err(code),
            Ok(facts) => with_checks(input, facts, document, 0),
        },
    }
}

/// What making facts came to.
pub open spec fn made(
    model: Result<MemoryFragmentView, Seq<char>>,
    result: Result<MemoryFragment, MemoryExtractionFailure>,
) -> bool {
    match model {
        Ok(facts) => result matches Ok(found) && found.deep_view() == facts,
        Err(code) => result matches Err(found) && found.deep_view() == failure_model(
            "ferrus.runtime-provenance"@,
            code,
        ),
    }
}

fn wrong(code: &str) -> (result: MemoryExtractionFailure)
    requires
        crate::diagnostics::is_diagnostic_code(code@),
    ensures
        result.deep_view() == failure_model("ferrus.runtime-provenance"@, code@),
{
    proof {
        runtime_codes();
    }
    failure("ferrus.runtime-provenance", code)
}

fn add_task(
    input: &MemoryExtractionInput,
    fragment: MemoryFragment,
    task: &RuntimeTaskDocument,
) -> (result: Result<MemoryFragment, MemoryExtractionFailure>)
    ensures
        made(with_task(input.deep_view(), fragment.deep_view(), task.deep_view()), result),
{
    proof {
        runtime_codes();
    }
    let task_id = match MemoryRecordId::new(task.id.as_str()) {
        Ok(task_id) => task_id,
        Err(_) => {
            return Err(wrong("runtime.invalidtaskid"));
        },
    };
    let milestone_id = match &task.milestone_id {
        Some(milestone_id) => match MemoryRecordId::new(milestone_id.as_str()) {
            Ok(milestone_id) => Some(milestone_id),
            Err(_) => {
                return Err(wrong("runtime.invalidmilestoneid"));
            },
        },
        None => None,
    };
    let status = match MemoryStatusToken::new(task.status.as_str()) {
        Ok(status) => status,
        Err(_) => {
            return Err(wrong("runtime.invalidstatus"));
        },
    };
    let id = named_entity_id(&input.context.project, "task", task.id.as_str());
    let data = MemoryEntityData::TaskReference {
        task_id: task_id.copied(),
        milestone_id: milestone_id.copied(),
        status,
        baseline_snapshot_id: task.baseline_snapshot_id.copied(),
        repository_snapshot_id: task.repository_snapshot_id.copied(),
    };
    let mut fragment = fragment;
    add_entity(&mut fragment, entity(input, id.copied(), data, source_of(input, &task_id)));
    if let Some(milestone_id) = milestone_id {
        add_relationship(
            &mut fragment,
            relationship(
                input,
                "implements",
                milestone_id.as_str(),
                MemoryRelationshipKind::Implements,
                id,
                MemoryRelationshipTarget::Milestone { milestone_id: milestone_id.copied() },
                source_of(input, &task_id),
            ),
        );
    }
    Ok(fragment)
}

fn knows_task(tasks: &Vec<RuntimeTaskDocument>, id: &String) -> (found: bool)
    ensures
        found == has_task(tasks.deep_view(), id@),
{
    let ghost models = tasks.deep_view();
    let mut at: usize = 0;
    while at < tasks.len()
        invariant
            at <= tasks.len(),
            models == tasks.deep_view(),
            forall|i: int| 0 <= i < at ==> (#[trigger] models[i]).id != id@,
        decreases tasks.len() - at,
    {
        assert(models[at as int].id == tasks@[at as int].id@);
        if tasks[at].id == *id {
            return true;
        }
        at += 1;
    }
    false
}

fn knows_run(runs: &Vec<RuntimeRunDocument>, id: &String) -> (found: bool)
    ensures
        found == has_run(runs.deep_view(), id@),
{
    let ghost models = runs.deep_view();
    let mut at: usize = 0;
    while at < runs.len()
        invariant
            at <= runs.len(),
            models == runs.deep_view(),
            forall|i: int| 0 <= i < at ==> (#[trigger] models[i]).id != id@,
        decreases runs.len() - at,
    {
        assert(models[at as int].id == runs@[at as int].id@);
        if runs[at].id == *id {
            return true;
        }
        at += 1;
    }
    false
}

fn record_ids(texts: &Vec<String>) -> (ids: Option<Vec<MemoryRecordId>>)
    ensures
        match ids {
            Some(ids) => are_record_ids(texts.deep_view()) && ids.deep_view() == texts.deep_view(),
            None => !are_record_ids(texts.deep_view()),
        },
{
    let ghost models = texts.deep_view();
    let mut ids: Vec<MemoryRecordId> = Vec::new();
    while ids.len() < texts.len()
        invariant
            ids.len() <= texts.len(),
            models == texts.deep_view(),
            ids.deep_view() =~= models.take(ids.len() as int),
            forall|i: int| 0 <= i < ids.len() ==> is_record_id(#[trigger] models[i]),
        decreases texts.len() - ids.len(),
    {
        let at = ids.len();
        assert(models[at as int] == texts@[at as int]@);
        match MemoryRecordId::new(texts[at].as_str()) {
            Ok(id) => {
                let ghost before = ids.deep_view();
                ids.push(id);
                assert(ids.deep_view() =~= before.push(id.deep_view()));
            },
            Err(_) => {
                return None;
            },
        }
    }
    assert(ids.deep_view() =~= models);
    Some(ids)
}

fn add_run(
    input: &MemoryExtractionInput,
    fragment: MemoryFragment,
    tasks: &Vec<RuntimeTaskDocument>,
    run: &RuntimeRunDocument,
) -> (result: Result<MemoryFragment, MemoryExtractionFailure>)
    ensures
        made(
            with_run(
                input.deep_view(),
                fragment.deep_view(),
                tasks.deep_view(),
                run.deep_view(),
            ),
            result,
        ),
{
    proof {
        runtime_codes();
    }
    let run_id = match MemoryRecordId::new(run.id.as_str()) {
        Ok(run_id) => run_id,
        Err(_) => {
            return Err(wrong("runtime.invalidrunid"));
        },
    };
    let task_id = match MemoryRecordId::new(run.task_id.as_str()) {
        Ok(task_id) => task_id,
        Err(_) => {
            return Err(wrong("runtime.invalidtaskid"));
        },
    };
    let check_ids = match record_ids(&run.check_ids) {
        Some(check_ids) => check_ids,
        None => {
            return Err(wrong("runtime.invalidcheckid"));
        },
    };
    let status = match MemoryStatusToken::new(run.status.as_str()) {
        Ok(status) => status,
        Err(_) => {
            return Err(wrong("runtime.invalidstatus"));
        },
    };
    let id = named_entity_id(&input.context.project, "run", run.id.as_str());
    let data = MemoryEntityData::RunReference {
        run_id: run_id.copied(),
        task_id,
        status,
        check_ids,
        baseline_snapshot_id: run.baseline_snapshot_id.copied(),
        repository_snapshot_id: run.repository_snapshot_id.copied(),
    };
    let mut fragment = fragment;
    add_entity(&mut fragment, entity(input, id.copied(), data, source_of(input, &run_id)));
    if knows_task(tasks, &run.task_id) {
        let task = named_entity_id(&input.context.project, "task", run.task_id.as_str());
        add_relationship(
            &mut fragment,
            relationship(
                input,
                "task-run",
                id.as_str(),
                MemoryRelationshipKind::Contains,
                task,
                MemoryRelationshipTarget::MemoryEntity { entity_id: id.copied() },
                source_of(input, &run_id),
            ),
        );
    }
    Ok(fragment)
}

fn find_validated(
    input: &MemoryExtractionInput,
    document: &RuntimeSourceDocument,
    check: &RuntimeCheckDocument,
) -> (target: Option<MemoryEntityId>)
    ensures
        target.deep_view() == validated(input.deep_view(), document.deep_view(), check.deep_view()),
{
    if let Some(run_id) = &check.run_id {
        if knows_run(&document.runs, run_id) {
            return Some(named_entity_id(&input.context.project, "run", run_id.as_str()));
        }
    }
    if knows_task(&document.tasks, &check.task_id) {
        Some(named_entity_id(&input.context.project, "task", check.task_id.as_str()))
    } else {
        None
    }
}

fn add_check(
    input: &MemoryExtractionInput,
    fragment: MemoryFragment,
    document: &RuntimeSourceDocument,
    check: &RuntimeCheckDocument,
) -> (result: Result<MemoryFragment, MemoryExtractionFailure>)
    ensures
        made(
            with_check(
                input.deep_view(),
                fragment.deep_view(),
                document.deep_view(),
                check.deep_view(),
            ),
            result,
        ),
{
    proof {
        runtime_codes();
    }
    let check_id = match MemoryRecordId::new(check.id.as_str()) {
        Ok(check_id) => check_id,
        Err(_) => {
            return Err(wrong("runtime.invalidcheckid"));
        },
    };
    let status = match MemoryStatusToken::new(check.status.as_str()) {
        Ok(status) => status,
        Err(_) => {
            return Err(wrong("runtime.invalidstatus"));
        },
    };
    let id = named_entity_id(&input.context.project, "check", check.id.as_str());
    let data = MemoryEntityData::ValidationEvidence {
        text: None,
        check_id: Some(check_id.copied()),
        status: Some(status),
    };
    let mut fragment = fragment;
    add_entity(&mut fragment, entity(input, id.copied(), data, source_of(input, &check_id)));
    if let Some(target) = find_validated(input, document, check) {
        add_relationship(
            &mut fragment,
            relationship(
                input,
                "validates",
                target.as_str(),
                MemoryRelationshipKind::Validates,
                id,
                MemoryRelationshipTarget::MemoryEntity { entity_id: target.copied() },
                source_of(input, &check_id),
            ),
        );
    }
    Ok(fragment)
}

fn add_tasks(
    input: &MemoryExtractionInput,
    fragment: MemoryFragment,
    document: &RuntimeSourceDocument,
) -> (result: Result<MemoryFragment, MemoryExtractionFailure>)
    ensures
        made(
            with_tasks(input.deep_view(), fragment.deep_view(), document.deep_view(), 0),
            result,
        ),
{
    let ghost first = fragment.deep_view();
    let ghost model = document.deep_view();
    let mut made_so_far = fragment;
    let mut at: usize = 0;
    while at < document.tasks.len()
        invariant
            at <= document.tasks.len(),
            model == document.deep_view(),
            first == fragment.deep_view(),
            with_tasks(input.deep_view(), first, model, 0) == with_tasks(
                input.deep_view(),
                made_so_far.deep_view(),
                model,
                at as int,
            ),
        decreases document.tasks.len() - at,
    {
        assert(model.tasks[at as int] == document.tasks@[at as int].deep_view());
        match add_task(input, made_so_far, &document.tasks[at]) {
            Ok(more) => {
                made_so_far = more;
            },
            Err(failure) => {
                return Err(failure);
            },
        }
        at += 1;
    }
    Ok(made_so_far)
}

fn add_runs(
    input: &MemoryExtractionInput,
    fragment: MemoryFragment,
    document: &RuntimeSourceDocument,
) -> (result: Result<MemoryFragment, MemoryExtractionFailure>)
    ensures
        made(
            with_runs(input.deep_view(), fragment.deep_view(), document.deep_view(), 0),
            result,
        ),
{
    let ghost first = fragment.deep_view();
    let ghost model = document.deep_view();
    let mut made_so_far = fragment;
    let mut at: usize = 0;
    while at < document.runs.len()
        invariant
            at <= document.runs.len(),
            model == document.deep_view(),
            first == fragment.deep_view(),
            with_runs(input.deep_view(), first, model, 0) == with_runs(
                input.deep_view(),
                made_so_far.deep_view(),
                model,
                at as int,
            ),
        decreases document.runs.len() - at,
    {
        assert(model.runs[at as int] == document.runs@[at as int].deep_view());
        match add_run(input, made_so_far, &document.tasks, &document.runs[at]) {
            Ok(more) => {
                made_so_far = more;
            },
            Err(failure) => {
                return Err(failure);
            },
        }
        at += 1;
    }
    Ok(made_so_far)
}

fn add_checks(
    input: &MemoryExtractionInput,
    fragment: MemoryFragment,
    document: &RuntimeSourceDocument,
) -> (result: Result<MemoryFragment, MemoryExtractionFailure>)
    ensures
        made(
            with_checks(input.deep_view(), fragment.deep_view(), document.deep_view(), 0),
            result,
        ),
{
    let ghost first = fragment.deep_view();
    let ghost model = document.deep_view();
    let mut made_so_far = fragment;
    let mut at: usize = 0;
    while at < document.checks.len()
        invariant
            at <= document.checks.len(),
            model == document.deep_view(),
            first == fragment.deep_view(),
            with_checks(input.deep_view(), first, model, 0) == with_checks(
                input.deep_view(),
                made_so_far.deep_view(),
                model,
                at as int,
            ),
        decreases document.checks.len() - at,
    {
        assert(model.checks[at as int] == document.checks@[at as int].deep_view());
        match add_check(input, made_so_far, document, &document.checks[at]) {
            Ok(more) => {
                made_so_far = more;
            },
            Err(failure) => {
                return Err(failure);
            },
        }
        at += 1;
    }
    Ok(made_so_far)
}

impl MemoryExtractor for RuntimeProvenanceExtractor {
    open spec fn named(&self) -> MemoryExtractorIdentityView {
        extractor_model("ferrus.runtime-provenance"@)
    }

    open spec fn reads(&self, category: MemorySourceCategory) -> bool {
        category == MemorySourceCategory::RuntimeProvenance
    }

    open spec fn facts(&self, input: MemoryExtractionInputView) -> Result<
        MemoryFragmentView,
        MemoryExtractionFailureView,
    > {
        match input.document {
            SourceDocumentView::Runtime(document) => match runtime_facts(input, document) {
                Ok(facts) => Ok(facts),
                Err(code) => Err(failure_model("ferrus.runtime-provenance"@, code)),
            },
            _ => Err(failure_model("ferrus.runtime-provenance"@, "runtime.invalid"@)),
        }
    }

    fn identity(&self) -> (identity: MemoryExtractorIdentity) {
        proof {
            runtime_codes();
        }
        extractor_identity("ferrus.runtime-provenance")
    }

    fn supports(&self, category: MemorySourceCategory) -> (supported: bool) {
        category == MemorySourceCategory::RuntimeProvenance
    }

    fn extract(&self, input: &MemoryExtractionInput) -> (result: Result<
        MemoryFragment,
        MemoryExtractionFailure,
    >) {
        proof {
            runtime_codes();
        }
        let document = match input.document {
            SourceDocument::Runtime(document) => document,
            _ => {
                return Err(wrong("runtime.invalid"));
            },
        };
        let fragment = match add_tasks(input, empty_fragment(), document) {
            Ok(fragment) => fragment,
            Err(failure) => {
                return Err(failure);
            },
        };
        let fragment = match add_runs(input, fragment, document) {
            Ok(fragment) => fragment,
            Err(failure) => {
                return Err(failure);
            },
        };
        add_checks(input, fragment, document)
    }
}

}
