//! Which sources of a project are found, and what is recorded of its runtime.
use vstd::prelude::*;
use crate::digest::{sha256_of, DigestView};
use crate::documents::{
    parsed, ArchiveSourceDocumentView, RuntimeCheckDocumentView, RuntimeRunDocumentView,
    RuntimeTaskDocumentView, SpecOutcomeDocument, SpecOutcomeDocumentView, SpecStructureDocument,
};
use crate::domain::{MemorySourceCategory, MemorySourceLocatorView, ProjectRefView};
use crate::json::{byte_len, ToJson};
use crate::laws::lists::{push_holds, sum_holds};
use crate::laws::searching::{occurring_is_standing, stands_in};
use crate::order::{in_order_holds, increasing, listed};
use crate::policy::MemoryPolicyView;
use crate::ports::SourceDocumentView;
use crate::repository::is_repo_path;
use crate::source::{
    all_spec_sources, approved_outcomes, archive_record, archive_source, archived_milestones, archived_tasks,
    check_record, check_records, checks_of_run, found_sources, is_markdown, outcome_fingerprint, proven, reads_of,
    run_records, runtime_record, runtime_source, says_the_same, spec_sources, structure_fingerprint, task_names,
    task_of_run, task_records, tracked_source, with_archives, with_checks, with_heading, ArchiveProofView,
    ArchiveRowView, EventRowView, RawArchiveTaskView, ReadEventView, RunRowView, SourceInventoryView,
    SourceMaterialView, TaskRowView, TrackedFileView, MAX_SPEC_BYTES,
};
use crate::text::signed_decimal;

verus! {

/// A check passed exactly where its event's type says so somewhere, and else it failed.
pub proof fn checks_pass_where_their_event_says_so(
    tasks: Seq<RuntimeTaskDocumentView>,
    runs: Seq<RuntimeRunDocumentView>,
    event: ReadEventView,
)
    ensures
        check_record(tasks, runs, event) matches Some(check) ==> {
            &&& check.status == "passed"@ || check.status == "failed"@
            &&& (check.status == "passed"@) == stands_in("passed"@, event.event_type)
        },
{
    occurring_is_standing("passed"@, event.event_type);
    reveal_strlit("passed");
    reveal_strlit("failed");
    assert("passed"@[0] == 'p' && "failed"@[0] == 'f');
}

proof fn nothing_passed_without_its_letter(text: Seq<char>)
    requires
        forall|i: int| 0 <= i < text.len() ==> #[trigger] text[i] != 'p',
    ensures
        !stands_in("passed"@, text),
{
    if stands_in("passed"@, text) {
        let (before, behind) = choose|before: Seq<char>, behind: Seq<char>|
            text == #[trigger] (before + "passed"@ + behind);
        reveal_strlit("passed");
        assert(text[before.len() as int] == 'p');
    }
}

/// Of the events that are checks, those of passed checks and passed task checks are passed, and those of
/// failed checks, failed task checks, failed checks of a submission and exceeded limits are failed.
pub proof fn every_sort_of_check_has_its_status(
    tasks: Seq<RuntimeTaskDocumentView>,
    runs: Seq<RuntimeRunDocumentView>,
    event: ReadEventView,
)
    requires
        check_record(tasks, runs, event) is Some,
    ensures
        event.event_type == "check_passed"@ || event.event_type == "task_check_passed"@ ==> check_record(
            tasks,
            runs,
            event,
        )->0.status == "passed"@,
        event.event_type == "check_failed"@ || event.event_type == "task_check_failed"@ || event.event_type
            == "submit_check_failed"@ || event.event_type == "task_check_limit_exceeded"@ ==> check_record(
            tasks,
            runs,
            event,
        )->0.status == "failed"@,
{
    checks_pass_where_their_event_says_so(tasks, runs, event);
    reveal_strlit("passed");
    reveal_strlit("check_");
    reveal_strlit("task_check_");
    reveal_strlit("check_passed");
    reveal_strlit("task_check_passed");
    reveal_strlit("check_failed");
    reveal_strlit("task_check_failed");
    reveal_strlit("submit_check_failed");
    reveal_strlit("task_check_limit_exceeded");
    let none = Seq::<char>::empty();
    assert("check_passed"@ =~= "check_"@ + "passed"@ + none);
    assert("task_check_passed"@ =~= "task_check_"@ + "passed"@ + none);
    nothing_passed_without_its_letter("check_failed"@);
    nothing_passed_without_its_letter("task_check_failed"@);
    nothing_passed_without_its_letter("submit_check_failed"@);
    nothing_passed_without_its_letter("task_check_limit_exceeded"@);
}

proof fn runs_name_their_task(runs: Seq<RuntimeRunDocumentView>, id: Seq<char>, task: Seq<char>)
    ensures
        task_of_run(runs, id) == Some(task) ==> exists|i: int|
            0 <= i < runs.len() && (#[trigger] runs[i]).id == id && runs[i].task_id == task,
        task_of_run(runs, id) is None == (forall|i: int| 0 <= i < runs.len() ==> (#[trigger] runs[i]).id != id),
    decreases runs.len(),
{
    if runs.len() > 0 {
        let rest = runs.drop_last();
        runs_name_their_task(rest, id, task);
        assert forall|i: int| 0 <= i < rest.len() implies #[trigger] rest[i] == runs[i] by {}
        assert(runs[runs.len() - 1] == runs.last());
        if task_of_run(rest, id) == Some(task) {
            let i = choose|i: int| 0 <= i < rest.len() && (#[trigger] rest[i]).id == id && rest[i].task_id == task;
            assert(runs[i].id == id && runs[i].task_id == task);
        }
        if runs.last().id != id && task_of_run(rest, id) is Some {
            let i = choose|i: int| 0 <= i < rest.len() && (#[trigger] rest[i]).id == id;
            assert(runs[i].id == id);
        }
        if runs.last().id != id && task_of_run(rest, id) is None {
            assert forall|i: int| 0 <= i < runs.len() implies (#[trigger] runs[i]).id != id by {
                if i < rest.len() {
                    assert(rest[i].id != id);
                }
            }
        }
    }
}

/// A check belongs to the task of its run, or, where its event names no run, to the task that the
/// payload names; it is recorded where the task it belongs to is known and the payload is not too
/// large; and it keeps the run and the number of its event.
pub proof fn checks_belong_to_the_task_of_their_run(
    tasks: Seq<RuntimeTaskDocumentView>,
    runs: Seq<RuntimeRunDocumentView>,
    event: ReadEventView,
    run: int,
)
    requires
        event.run_id matches Some(id) ==> 0 <= run < runs.len() && runs[run].id == id && forall|i: int|
            0 <= i < runs.len() && (#[trigger] runs[i]).id == id ==> runs[i].task_id == runs[run].task_id,
    ensures
        ({
            let task = if event.run_id is Some {
                Some(runs[run].task_id)
            } else {
                event.payload_task_id
            };
            let known = task is Some && exists|i: int| 0 <= i < tasks.len() && (#[trigger] tasks[i]).id == task->0;
            &&& check_record(tasks, runs, event) is Some == (known && event.payload_bytes <= 64 * 1024)
            &&& check_record(tasks, runs, event) matches Some(check) ==> {
                &&& Some(check.task_id) == task
                &&& check.run_id == event.run_id
                &&& check.id == "event:"@ + signed_decimal(event.id)
            }
        }),
{
    if event.run_id is Some {
        let id = event.run_id->0;
        runs_name_their_task(runs, id, runs[run].task_id);
        assert(runs[run].id == id);
        assert(task_of_run(runs, id) is Some);
        let found = task_of_run(runs, id)->0;
        runs_name_their_task(runs, id, found);
    }
    let task = if event.run_id is Some {
        Some(runs[run].task_id)
    } else {
        event.payload_task_id
    };
    if task is Some {
        names_are_those_of_tasks(tasks, task->0);
    }
}

/// An event of a run that is not known is no check.
pub proof fn events_of_unknown_runs_are_no_checks(
    tasks: Seq<RuntimeTaskDocumentView>,
    runs: Seq<RuntimeRunDocumentView>,
    event: ReadEventView,
)
    requires
        event.run_id is Some,
        forall|i: int| 0 <= i < runs.len() ==> (#[trigger] runs[i]).id != event.run_id->0,
    ensures
        check_record(tasks, runs, event) is None,
{
    runs_name_their_task(runs, event.run_id->0, Seq::empty());
}

proof fn names_are_those_of_tasks(tasks: Seq<RuntimeTaskDocumentView>, id: Seq<char>)
    ensures
        task_names(tasks).contains(id) == exists|i: int| 0 <= i < tasks.len() && (#[trigger] tasks[i]).id == id,
{
    let names = tasks.map_values(|task: RuntimeTaskDocumentView| task.id);
    if names.contains(id) {
        let i = choose|i: int| 0 <= i < names.len() && names[i] == id;
        assert(tasks[i].id == id);
    }
    if exists|i: int| 0 <= i < tasks.len() && (#[trigger] tasks[i]).id == id {
        let i = choose|i: int| 0 <= i < tasks.len() && (#[trigger] tasks[i]).id == id;
        assert(names[i] == id);
    }
}

proof fn checks_hold(
    tasks: Seq<RuntimeTaskDocumentView>,
    runs: Seq<RuntimeRunDocumentView>,
    events: Seq<ReadEventView>,
    check: RuntimeCheckDocumentView,
)
    requires
        check_records(tasks, runs, events) is Ok,
    ensures
        check_records(tasks, runs, events)->Ok_0.contains(check) == exists|i: int|
            0 <= i < events.len() && check_record(tasks, runs, #[trigger] events[i]) == Some(check),
    decreases events.len(),
{
    if events.len() > 0 {
        let rest = events.drop_last();
        checks_hold(tasks, runs, rest, check);
        let before = check_records(tasks, runs, rest)->Ok_0;
        assert(events[events.len() - 1] == events.last());
        if let Some(new) = check_record(tasks, runs, events.last()) {
            push_holds(before, new, check);
        }
        if before.contains(check) {
            let i = choose|i: int|
                0 <= i < rest.len() && check_record(tasks, runs, #[trigger] rest[i]) == Some(check);
            assert(events[i] == rest[i]);
        }
        if exists|i: int| 0 <= i < events.len() && check_record(tasks, runs, #[trigger] events[i]) == Some(check) {
            let i = choose|i: int|
                0 <= i < events.len() && check_record(tasks, runs, #[trigger] events[i]) == Some(check);
            if i < rest.len() {
                assert(rest[i] == events[i]);
            }
        }
    }
}

/// The checks that are recorded are those of the events, each that is one and no other.
pub proof fn every_check_is_recorded(
    tasks: Seq<RuntimeTaskDocumentView>,
    runs: Seq<RuntimeRunDocumentView>,
    events: Seq<ReadEventView>,
    check: RuntimeCheckDocumentView,
)
    requires
        check_records(tasks, runs, events) is Ok,
    ensures
        check_records(tasks, runs, events)->Ok_0.contains(check) == exists|i: int|
            0 <= i < events.len() && check_record(tasks, runs, #[trigger] events[i]) == Some(check),
{
    checks_hold(tasks, runs, events, check);
}

proof fn own_checks_hold(checks: Seq<RuntimeCheckDocumentView>, run: Seq<char>, id: Seq<char>)
    ensures
        checks_of_run(checks, run).contains(id) == exists|i: int|
            0 <= i < checks.len() && (#[trigger] checks[i]).run_id == Some(run) && checks[i].id == id,
    decreases checks.len(),
{
    if checks.len() > 0 {
        let rest = checks.drop_last();
        own_checks_hold(rest, run, id);
        let before = checks_of_run(rest, run);
        assert(checks[checks.len() - 1] == checks.last());
        push_holds(before, checks.last().id, id);
        if before.contains(id) {
            let i = choose|i: int|
                0 <= i < rest.len() && (#[trigger] rest[i]).run_id == Some(run) && rest[i].id == id;
            assert(checks[i] == rest[i]);
        }
        if exists|i: int|
            0 <= i < checks.len() && (#[trigger] checks[i]).run_id == Some(run) && checks[i].id == id {
            let i = choose|i: int|
                0 <= i < checks.len() && (#[trigger] checks[i]).run_id == Some(run) && checks[i].id == id;
            if i < rest.len() {
                assert(rest[i] == checks[i]);
            }
        }
    }
}

/// A run lists exactly those checks that were made in it, and is else what it was.
pub proof fn runs_list_their_own_checks(
    runs: Seq<RuntimeRunDocumentView>,
    checks: Seq<RuntimeCheckDocumentView>,
    at: int,
    id: Seq<char>,
)
    requires
        0 <= at < runs.len(),
    ensures
        with_checks(runs, checks).len() == runs.len(),
        with_checks(runs, checks)[at].id == runs[at].id,
        with_checks(runs, checks)[at].task_id == runs[at].task_id,
        with_checks(runs, checks)[at].status == runs[at].status,
        with_checks(runs, checks)[at].baseline_snapshot_id == runs[at].baseline_snapshot_id,
        with_checks(runs, checks)[at].repository_snapshot_id == runs[at].repository_snapshot_id,
        with_checks(runs, checks)[at].check_ids.contains(id) == exists|i: int|
            0 <= i < checks.len() && (#[trigger] checks[i]).run_id == Some(runs[at].id) && checks[i].id == id,
{
    own_checks_hold(checks, runs[at].id, id);
}

/// A path is one of a Markdown file where it ends in the letters for that.
pub proof fn markdown_paths_end_so(path: Seq<char>)
    ensures
        is_markdown(path) == exists|start: Seq<char>| path == #[trigger] (start + ".md"@),
{
    reveal_strlit(".md");
    if is_markdown(path) {
        assert(path =~= path.take(path.len() - 3) + ".md"@);
    }
    if exists|start: Seq<char>| path == #[trigger] (start + ".md"@) {
        let start = choose|start: Seq<char>| path == #[trigger] (start + ".md"@);
        assert(path.skip(path.len() - 3) =~= ".md"@);
    }
}

/// Whether a source is the structure of the specification in a file, as it is now.
pub open spec fn is_structure_of(
    material: SourceMaterialView,
    project: ProjectRefView,
    path: Seq<char>,
    text: Seq<char>,
    bytes: nat,
) -> bool {
    &&& material.descriptor.project == project
    &&& material.descriptor.category == MemorySourceCategory::SpecificationStructure
    &&& material.descriptor.locator == (MemorySourceLocatorView::TrackedFile { path })
    &&& material.descriptor.fingerprint == sha256_of(
        <SpecStructureDocument as ToJson>::json(parsed(text).structure),
    )
    &&& material.descriptor.byte_len == bytes
}

/// Whether a source is the approved outcome in a file, as it is now.
pub open spec fn is_outcome_of(
    material: SourceMaterialView,
    project: ProjectRefView,
    path: Seq<char>,
    outcome: SpecOutcomeDocumentView,
) -> bool {
    &&& material.descriptor.project == project
    &&& material.descriptor.category == MemorySourceCategory::ApprovedOutcome
    &&& material.descriptor.locator == (MemorySourceLocatorView::TrackedFile { path })
    &&& material.descriptor.fingerprint == sha256_of(<SpecOutcomeDocument as ToJson>::json(outcome))
    &&& material.descriptor.byte_len == byte_len(outcome.text) as u64
}

proof fn specs_hold(
    project: ProjectRefView,
    policy: MemoryPolicyView,
    files: Seq<TrackedFileView>,
    approved: Map<Seq<char>, Seq<DigestView>>,
    at: int,
    material: SourceMaterialView,
)
    requires
        0 <= at < files.len(),
        files[at].bytes.len() <= MAX_SPEC_BYTES,
        spec_sources(
            project,
            policy,
            files[at].path,
            files[at].bytes,
            files[at].bytes.len() as u64,
            listed(approved, files[at].path),
        ).contains(material),
    ensures
        all_spec_sources(project, policy, files, approved).contains(material),
    decreases files.len(),
{
    let rest = files.drop_last();
    let file = files.last();
    let before = all_spec_sources(project, policy, rest, approved);
    if at < rest.len() {
        assert(rest[at] == files[at]);
        specs_hold(project, policy, rest, approved, at, material);
    }
    if file.bytes.len() <= MAX_SPEC_BYTES {
        sum_holds(
            before,
            spec_sources(
                project,
                policy,
                file.path,
                file.bytes,
                file.bytes.len() as u64,
                listed(approved, file.path),
            ),
            material,
        );
    }
}

proof fn archives_keep(
    materials: Seq<SourceMaterialView>,
    project: ProjectRefView,
    archives: Seq<ArchiveRowView>,
    material: SourceMaterialView,
)
    requires
        with_archives(materials, project, archives) is Ok,
        materials.contains(material),
    ensures
        with_archives(materials, project, archives)->Ok_0.contains(material),
    decreases archives.len(),
{
    if archives.len() > 0 {
        archives_keep(materials, project, archives.drop_last(), material);
        let before = with_archives(materials, project, archives.drop_last())->Ok_0;
        let all = with_archives(materials, project, archives)->Ok_0;
        push_holds(before, all.last(), material);
        assert(all =~= before.push(all.last()));
    }
}

proof fn archives_hold(
    materials: Seq<SourceMaterialView>,
    project: ProjectRefView,
    archives: Seq<ArchiveRowView>,
    at: int,
)
    requires
        with_archives(materials, project, archives) is Ok,
        0 <= at < archives.len(),
    ensures
        ({
            let row = archives[at];
            let record = archive_record(row.archive_id, row.manifest, row.task_count, row.run_count);
            &&& record is Ok
            &&& with_archives(materials, project, archives)->Ok_0.contains(
                archive_source(project, record->Ok_0, row.file_bytes),
            )
        }),
    decreases archives.len(),
{
    let rest = archives.drop_last();
    let row = archives[at];
    let before = with_archives(materials, project, rest)->Ok_0;
    let all = with_archives(materials, project, archives)->Ok_0;
    assert(all =~= before.push(all.last()));
    let wanted = archive_source(
        project,
        archive_record(row.archive_id, row.manifest, row.task_count, row.run_count)->Ok_0,
        row.file_bytes,
    );
    push_holds(before, all.last(), wanted);
    if at < rest.len() {
        assert(rest[at] == archives[at]);
        archives_hold(materials, project, rest, at);
    }
}

proof fn found_hold_specs(
    project: ProjectRefView,
    policy: MemoryPolicyView,
    inventory: SourceInventoryView,
    events: Seq<EventRowView>,
    material: SourceMaterialView,
)
    requires
        found_sources(project, policy, inventory, events) is Ok,
        policy.authorizes(MemorySourceCategory::SpecificationStructure) || policy.authorizes(
            MemorySourceCategory::ApprovedOutcome,
        ),
        all_spec_sources(project, policy, inventory.files, approved_outcomes(inventory.proofs)).contains(material),
    ensures
        found_sources(project, policy, inventory, events)->Ok_0.contains(material),
{
    let specs = all_spec_sources(project, policy, inventory.files, approved_outcomes(inventory.proofs));
    let archived = if policy.authorizes(MemorySourceCategory::ArchiveManifest) {
        archives_keep(specs, project, inventory.archives, material);
        with_archives(specs, project, inventory.archives)->Ok_0
    } else {
        specs
    };
    if policy.authorizes(MemorySourceCategory::RuntimeProvenance) {
        let all = found_sources(project, policy, inventory, events)->Ok_0;
        if let Ok(Some(document)) = runtime_record(inventory.tasks, inventory.runs, reads_of(events)) {
            push_holds(archived, runtime_source(project, document), material);
        }
    }
}

/// Where the policy authorizes them, the structure of every specification that is not too large is found,
/// as it stands in its file.
pub proof fn structures_are_found(
    project: ProjectRefView,
    policy: MemoryPolicyView,
    inventory: SourceInventoryView,
    events: Seq<EventRowView>,
    at: int,
)
    requires
        found_sources(project, policy, inventory, events) is Ok,
        policy.authorizes(MemorySourceCategory::SpecificationStructure),
        0 <= at < inventory.files.len(),
        inventory.files[at].bytes.len() <= 4 * 1024 * 1024,
        vstd::utf8::valid_utf8(inventory.files[at].bytes),
    ensures
        exists|i: int|
            0 <= i < found_sources(project, policy, inventory, events)->Ok_0.len() && is_structure_of(
                #[trigger] found_sources(project, policy, inventory, events)->Ok_0[i],
                project,
                inventory.files[at].path,
                vstd::utf8::decode_utf8(inventory.files[at].bytes),
                inventory.files[at].bytes.len(),
            ),
{
    let file = inventory.files[at];
    let text = vstd::utf8::decode_utf8(file.bytes);
    let approved = approved_outcomes(inventory.proofs);
    let material = tracked_source(
        project,
        MemorySourceCategory::SpecificationStructure,
        file.path,
        structure_fingerprint(text),
        file.bytes.len() as u64,
    );
    let found = spec_sources(
        project,
        policy,
        file.path,
        file.bytes,
        file.bytes.len() as u64,
        listed(approved, file.path),
    );
    assert(found[0] == material);
    specs_hold(project, policy, inventory.files, approved, at, material);
    found_hold_specs(project, policy, inventory, events, material);
    let all = found_sources(project, policy, inventory, events)->Ok_0;
    let i = choose|i: int| 0 <= i < all.len() && all[i] == material;
    assert(is_structure_of(all[i], project, file.path, text, file.bytes.len()));
}

/// Whether an archive proves the outcome of a specification: it names the specification in its
/// manifest, and what was recorded says, under its heading or without it, what the archived copy says.
pub open spec fn proves(
    archive: ArchiveProofView,
    path: Seq<char>,
    outcome: SpecOutcomeDocumentView,
) -> bool {
    &&& archive.spec_path == path
    &&& archive.manifest_spec_path == Some(path)
    &&& archive.spec_copy is Some
    &&& parsed(archive.spec_copy->0).outcome == Some(outcome)
    &&& parsed(with_heading(archive.recorded_outcome)).outcome matches Some(recorded) && {
        &&& recorded.text == outcome.text
        &&& recorded.sections.len() == outcome.sections.len()
        &&& forall|i: int|
            0 <= i < recorded.sections.len() ==> (#[trigger] recorded.sections[i]).kind == outcome.sections[i].kind
                && recorded.sections[i].text == outcome.sections[i].text
    }
}

proof fn proofs_hold(archives: Seq<ArchiveProofView>, path: Seq<char>, outcome: SpecOutcomeDocumentView, at: int)
    requires
        0 <= at < archives.len(),
        proves(archives[at], path, outcome),
        is_repo_path(path),
    ensures
        listed(approved_outcomes(archives), path).contains(outcome_fingerprint(outcome)),
    decreases archives.len(),
{
    let rest = archives.drop_last();
    let before = approved_outcomes(rest);
    if at < rest.len() {
        assert(rest[at] == archives[at]);
        proofs_hold(rest, path, outcome, at);
    } else {
        let recorded = parsed(with_heading(archives[at].recorded_outcome)).outcome->0;
        assert(says_the_same(outcome, recorded)) by {
            assert forall|i: int| 0 <= i < outcome.sections.len() implies (#[trigger] outcome.sections[i]).kind
                == recorded.sections[i].kind && outcome.sections[i].text == recorded.sections[i].text by {
                assert(recorded.sections[i].kind == outcome.sections[i].kind);
            }
        }
        assert(proven(archives.last()) == Some((path, outcome_fingerprint(outcome))));
    }
    if let Some((proved, digest)) = proven(archives.last()) {
        push_holds(listed(before, proved), digest, outcome_fingerprint(outcome));
    }
}

/// Where the policy authorizes them, every outcome that an archive proves is found, as long as the
/// specification still has it.
pub proof fn proven_outcomes_are_found(
    project: ProjectRefView,
    policy: MemoryPolicyView,
    inventory: SourceInventoryView,
    events: Seq<EventRowView>,
    at: int,
    outcome: SpecOutcomeDocumentView,
    by: int,
)
    requires
        found_sources(project, policy, inventory, events) is Ok,
        policy.authorizes(MemorySourceCategory::ApprovedOutcome),
        0 <= at < inventory.files.len(),
        inventory.files[at].bytes.len() <= 4 * 1024 * 1024,
        vstd::utf8::valid_utf8(inventory.files[at].bytes),
        is_repo_path(inventory.files[at].path),
        parsed(vstd::utf8::decode_utf8(inventory.files[at].bytes)).outcome == Some(outcome),
        0 <= by < inventory.proofs.len(),
        proves(inventory.proofs[by], inventory.files[at].path, outcome),
    ensures
        exists|i: int|
            0 <= i < found_sources(project, policy, inventory, events)->Ok_0.len() && is_outcome_of(
                #[trigger] found_sources(project, policy, inventory, events)->Ok_0[i],
                project,
                inventory.files[at].path,
                outcome,
            ),
{
    let file = inventory.files[at];
    let approved = approved_outcomes(inventory.proofs);
    proofs_hold(inventory.proofs, file.path, outcome, by);
    let material = tracked_source(
        project,
        MemorySourceCategory::ApprovedOutcome,
        file.path,
        outcome_fingerprint(outcome),
        byte_len(outcome.text) as u64,
    );
    let found = spec_sources(
        project,
        policy,
        file.path,
        file.bytes,
        file.bytes.len() as u64,
        listed(approved, file.path),
    );
    assert(found.last() == material);
    assert(found[found.len() - 1] == material);
    specs_hold(project, policy, inventory.files, approved, at, material);
    found_hold_specs(project, policy, inventory, events, material);
    let all = found_sources(project, policy, inventory, events)->Ok_0;
    let i = choose|i: int| 0 <= i < all.len() && all[i] == material;
    assert(is_outcome_of(all[i], project, file.path, outcome));
}

/// What an archive records: the ids of its tasks and of their milestones, each once and in order, and the
/// counts that it was given.
pub open spec fn records_archive(document: ArchiveSourceDocumentView, row: ArchiveRowView) -> bool {
    &&& document.archive_id == row.archive_id
    &&& document.spec_path == row.manifest.spec_path
    &&& document.archived_at == row.manifest.archived_at
    &&& document.task_count == row.task_count
    &&& document.run_count == row.run_count
    &&& increasing(document.task_ids)
    &&& increasing(document.milestone_ids)
    &&& forall|id: Seq<char>| #[trigger]
        document.task_ids.contains(id) == exists|i: int|
            0 <= i < row.manifest.tasks.len() && (#[trigger] row.manifest.tasks[i]).id == id
    &&& forall|id: Seq<char>| #[trigger]
        document.milestone_ids.contains(id) == exists|i: int|
            0 <= i < row.manifest.tasks.len() && (#[trigger] row.manifest.tasks[i]).milestone_id == Some(id)
}

proof fn milestones_are_archived(tasks: Seq<RawArchiveTaskView>, id: Seq<char>)
    ensures
        archived_milestones(tasks).contains(id) == exists|i: int|
            0 <= i < tasks.len() && (#[trigger] tasks[i]).milestone_id == Some(id),
    decreases tasks.len(),
{
    if tasks.len() > 0 {
        let rest = tasks.drop_last();
        milestones_are_archived(rest, id);
        let before = archived_milestones(rest);
        assert(tasks[tasks.len() - 1] == tasks.last());
        if let Some(milestone) = tasks.last().milestone_id {
            push_holds(before, milestone, id);
        }
        if before.contains(id) {
            let i = choose|i: int| 0 <= i < rest.len() && (#[trigger] rest[i]).milestone_id == Some(id);
            assert(tasks[i] == rest[i]);
        }
        if exists|i: int| 0 <= i < tasks.len() && (#[trigger] tasks[i]).milestone_id == Some(id) {
            let i = choose|i: int| 0 <= i < tasks.len() && (#[trigger] tasks[i]).milestone_id == Some(id);
            if i < rest.len() {
                assert(rest[i] == tasks[i]);
            }
        }
    }
}

/// Where the policy authorizes them, every archive is found, and what is recorded of it is what its
/// manifest and its counts say.
pub proof fn archives_are_found(
    project: ProjectRefView,
    policy: MemoryPolicyView,
    inventory: SourceInventoryView,
    events: Seq<EventRowView>,
    at: int,
)
    requires
        found_sources(project, policy, inventory, events) is Ok,
        policy.authorizes(MemorySourceCategory::ArchiveManifest),
        0 <= at < inventory.archives.len(),
    ensures
        exists|i: int|
            0 <= i < found_sources(project, policy, inventory, events)->Ok_0.len() && {
                let material = #[trigger] found_sources(project, policy, inventory, events)->Ok_0[i];
                &&& material.descriptor.project == project
                &&& material.descriptor.category == MemorySourceCategory::ArchiveManifest
                &&& material.descriptor.locator == (MemorySourceLocatorView::ArchiveManifest {
                    archive_id: inventory.archives[at].archive_id,
                })
                &&& material.descriptor.byte_len == inventory.archives[at].file_bytes
                &&& material.document matches SourceDocumentView::Archive(document) && records_archive(
                    document,
                    inventory.archives[at],
                )
            },
{
    let row = inventory.archives[at];
    let reads_specs = policy.authorizes(MemorySourceCategory::SpecificationStructure) || policy.authorizes(
        MemorySourceCategory::ApprovedOutcome,
    );
    let specs = if reads_specs {
        all_spec_sources(project, policy, inventory.files, approved_outcomes(inventory.proofs))
    } else {
        Seq::empty()
    };
    archives_hold(specs, project, inventory.archives, at);
    let archived = with_archives(specs, project, inventory.archives)->Ok_0;
    let document = archive_record(row.archive_id, row.manifest, row.task_count, row.run_count)->Ok_0;
    let material = archive_source(project, document, row.file_bytes);
    let all = found_sources(project, policy, inventory, events)->Ok_0;
    if policy.authorizes(MemorySourceCategory::RuntimeProvenance) {
        if let Ok(Some(record)) = runtime_record(inventory.tasks, inventory.runs, reads_of(events)) {
            push_holds(archived, runtime_source(project, record), material);
        }
    }
    in_order_holds(archived_tasks(row.manifest.tasks));
    in_order_holds(archived_milestones(row.manifest.tasks));
    assert forall|id: Seq<char>| #[trigger] document.task_ids.contains(id) == exists|i: int|
        0 <= i < row.manifest.tasks.len() && (#[trigger] row.manifest.tasks[i]).id == id by {
        let names = archived_tasks(row.manifest.tasks);
        assert(document.task_ids.to_set().contains(id) == names.to_set().contains(id));
        if names.contains(id) {
            let i = choose|i: int| 0 <= i < names.len() && names[i] == id;
            assert(row.manifest.tasks[i].id == id);
        }
        if exists|i: int| 0 <= i < row.manifest.tasks.len() && (#[trigger] row.manifest.tasks[i]).id == id {
            let i = choose|i: int| 0 <= i < row.manifest.tasks.len() && (#[trigger] row.manifest.tasks[i]).id == id;
            assert(names[i] == id);
        }
    }
    assert forall|id: Seq<char>| #[trigger] document.milestone_ids.contains(id) == exists|i: int|
        0 <= i < row.manifest.tasks.len() && (#[trigger] row.manifest.tasks[i]).milestone_id == Some(id) by {
        milestones_are_archived(row.manifest.tasks, id);
        assert(document.milestone_ids.to_set().contains(id) == archived_milestones(
            row.manifest.tasks,
        ).to_set().contains(id));
    }
    let i = choose|i: int| 0 <= i < all.len() && all[i] == material;
    assert(records_archive(document, row));
    assert(all[i].document == SourceDocumentView::Archive(document));
}

/// Where the policy authorizes it and there are tasks, the runtime of a project is found, with the
/// tasks, the runs and the checks that its rows and events give.
pub proof fn runtime_is_found(
    project: ProjectRefView,
    policy: MemoryPolicyView,
    inventory: SourceInventoryView,
    events: Seq<EventRowView>,
)
    requires
        found_sources(project, policy, inventory, events) is Ok,
        policy.authorizes(MemorySourceCategory::RuntimeProvenance),
        inventory.tasks.len() > 0,
    ensures
        ({
            let all = found_sources(project, policy, inventory, events)->Ok_0;
            &&& all.len() > 0
            &&& all.last().descriptor.project == project
            &&& all.last().descriptor.category == MemorySourceCategory::RuntimeProvenance
            &&& all.last().document matches SourceDocumentView::Runtime(document) && {
                &&& document.tasks.len() == inventory.tasks.len()
                &&& document.runs.len() == inventory.runs.len()
                &&& forall|i: int|
                    0 <= i < document.tasks.len() ==> (#[trigger] document.tasks[i]).id == inventory.tasks[i].id
                        && document.tasks[i].milestone_id == inventory.tasks[i].milestone_id
                        && document.tasks[i].status == inventory.tasks[i].status
                        && document.tasks[i].baseline_snapshot_id == inventory.tasks[i].baseline_snapshot_id
                        && document.tasks[i].repository_snapshot_id == inventory.tasks[i].repository_snapshot_id
                &&& forall|i: int|
                    0 <= i < document.runs.len() ==> (#[trigger] document.runs[i]).id == inventory.runs[i].id
                        && document.runs[i].task_id == inventory.runs[i].task_id && document.runs[i].status
                        == inventory.runs[i].status && document.runs[i].baseline_snapshot_id
                        == inventory.runs[i].baseline_snapshot_id && document.runs[i].repository_snapshot_id
                        == inventory.runs[i].repository_snapshot_id
                &&& forall|i: int, id: Seq<char>|
                    0 <= i < document.runs.len() ==> (#[trigger] document.runs[i].check_ids.contains(id)
                        == exists|j: int|
                        0 <= j < document.checks.len() && (#[trigger] document.checks[j]).run_id == Some(
                            document.runs[i].id,
                        ) && document.checks[j].id == id)
            }
        }),
{
    task_rows_are_kept(inventory.tasks);
    run_rows_are_kept(inventory.runs);
    let tasks = task_records(inventory.tasks)->Ok_0;
    let runs = run_records(inventory.runs)->Ok_0;
    let document = runtime_record(inventory.tasks, inventory.runs, reads_of(events))->Ok_0->0;
    let checks = document.checks;
    let all = found_sources(project, policy, inventory, events)->Ok_0;
    assert(all.last() == runtime_source(project, document));
    assert(document.runs == with_checks(runs, checks));
    assert forall|i: int, id: Seq<char>| 0 <= i < document.runs.len() implies (#[trigger] document.runs[i].check_ids.contains(
        id,
    ) == exists|j: int|
        0 <= j < document.checks.len() && (#[trigger] document.checks[j]).run_id == Some(document.runs[i].id)
            && document.checks[j].id == id) by {
        runs_list_their_own_checks(runs, checks, i, id);
    }
}

proof fn task_rows_are_kept(rows: Seq<TaskRowView>)
    ensures
        task_records(rows) matches Ok(tasks) ==> tasks.len() == rows.len() && forall|i: int|
            0 <= i < tasks.len() ==> (#[trigger] tasks[i]).id == rows[i].id && tasks[i].milestone_id
                == rows[i].milestone_id && tasks[i].status == rows[i].status && tasks[i].baseline_snapshot_id
                == rows[i].baseline_snapshot_id && tasks[i].repository_snapshot_id == rows[i].repository_snapshot_id,
    decreases rows.len(),
{
    if rows.len() > 0 {
        task_rows_are_kept(rows.drop_last());
    }
}

proof fn run_rows_are_kept(rows: Seq<RunRowView>)
    ensures
        run_records(rows) matches Ok(runs) ==> runs.len() == rows.len() && forall|i: int|
            0 <= i < runs.len() ==> (#[trigger] runs[i]).id == rows[i].id && runs[i].task_id == rows[i].task_id
                && runs[i].status == rows[i].status && runs[i].baseline_snapshot_id == rows[i].baseline_snapshot_id
                && runs[i].repository_snapshot_id == rows[i].repository_snapshot_id,
    decreases rows.len(),
{
    if rows.len() > 0 {
        run_rows_are_kept(rows.drop_last());
    }
}

}
