//! What is recorded of rows and listings.
use vstd::prelude::*;
use crate::domain::{
    MemoryConfidence, MemoryEntityDataView, MemoryEvidenceLocatorView, MemoryProvenanceView,
    MemoryRelationshipKind, MemoryRelationshipTargetView, MemoryResolutionState,
};
use crate::extractors::{entity_model, provenance_model, relationship_model};
use crate::ports::{MemoryExtractionInputView, MemorySourceError};
use crate::repository::is_repo_path;
use crate::source::{
    entry_end, is_markdown, listed_paths, run_records, runtime_record, task_records, ReadEventView,
    RunRowView, TaskRowView,
};

verus! {

/// Every task is recorded as its row says, in the order of the rows.
pub proof fn tasks_are_recorded_row_by_row(rows: Seq<TaskRowView>)
    ensures
        task_records(rows) matches Ok(tasks) ==> tasks.len() == rows.len() && forall|i: int|
            0 <= i < rows.len() ==> {
                &&& (#[trigger] tasks[i]).id == rows[i].id
                &&& tasks[i].milestone_id == rows[i].milestone_id
                &&& tasks[i].status == rows[i].status
                &&& tasks[i].baseline_snapshot_id == rows[i].baseline_snapshot_id
                &&& tasks[i].repository_snapshot_id == rows[i].repository_snapshot_id
            },
    decreases rows.len(),
{
    if rows.len() > 0 {
        tasks_are_recorded_row_by_row(rows.drop_last());
        if let Ok(tasks) = task_records(rows) {
            let before = task_records(rows.drop_last())->Ok_0;
            assert forall|i: int| 0 <= i < rows.len() - 1 implies #[trigger] tasks[i] == before[i] by {}
        }
    }
}

/// Every run is recorded as its row says, in the order of the rows, with no checks as yet.
pub proof fn runs_are_recorded_row_by_row(rows: Seq<RunRowView>)
    ensures
        run_records(rows) matches Ok(runs) ==> runs.len() == rows.len() && forall|i: int|
            0 <= i < rows.len() ==> {
                &&& (#[trigger] runs[i]).id == rows[i].id
                &&& runs[i].task_id == rows[i].task_id
                &&& runs[i].status == rows[i].status
                &&& runs[i].check_ids.len() == 0
                &&& runs[i].baseline_snapshot_id == rows[i].baseline_snapshot_id
                &&& runs[i].repository_snapshot_id == rows[i].repository_snapshot_id
            },
    decreases rows.len(),
{
    if rows.len() > 0 {
        runs_are_recorded_row_by_row(rows.drop_last());
        if let Ok(runs) = run_records(rows) {
            let before = run_records(rows.drop_last())->Ok_0;
            assert forall|i: int| 0 <= i < rows.len() - 1 implies #[trigger] runs[i] == before[i] by {}
        }
    }
}

/// There is a record of what ran exactly where there are tasks, and it holds every task.
pub proof fn what_ran_is_recorded(
    tasks: Seq<TaskRowView>,
    runs: Seq<RunRowView>,
    events: Seq<ReadEventView>,
)
    ensures
        runtime_record(tasks, runs, events) matches Ok(record) ==> {
            &&& record is None <==> tasks.len() == 0
            &&& record matches Some(record) ==> {
                &&& record.tasks.len() == tasks.len()
                &&& forall|i: int| 0 <= i < tasks.len() ==> (#[trigger] record.tasks[i]).id == tasks[i].id
            }
        },
{
    tasks_are_recorded_row_by_row(tasks);
}

proof fn entries_end_where_they_end(bytes: Seq<u8>, from: int, skipped: int)
    requires
        0 <= skipped <= from <= bytes.len(),
    ensures
        entry_end(bytes, from) == skipped + entry_end(bytes.skip(skipped), from - skipped),
        from <= entry_end(bytes, from) <= bytes.len(),
    decreases bytes.len() - from,
{
    if from < bytes.len() {
        assert(bytes.skip(skipped)[from - skipped] == bytes[from]);
        if bytes[from] != 0 {
            entries_end_where_they_end(bytes, from + 1, skipped);
        }
    }
}

proof fn listings_are_read_from_anywhere(bytes: Seq<u8>, from: int, skipped: int)
    requires
        0 <= skipped <= from <= bytes.len(),
    ensures
        listed_paths(bytes, from) == listed_paths(bytes.skip(skipped), from - skipped),
    decreases bytes.len() - from,
{
    if from < bytes.len() {
        let rest = bytes.skip(skipped);
        let end = entry_end(bytes, from);
        entries_end_where_they_end(bytes, from, skipped);
        assert(bytes.subrange(from, end) =~= rest.subrange(from - skipped, end - skipped));
        if end < bytes.len() {
            listings_are_read_from_anywhere(bytes, end + 1, skipped);
        } else {
            assert(end > from);
            listings_are_read_from_anywhere(bytes, end, skipped);
        }
    }
}

proof fn first_entries_end_at_the_zero(entry: Seq<u8>, rest: Seq<u8>, from: int)
    requires
        0 <= from <= entry.len(),
        forall|i: int| 0 <= i < entry.len() ==> #[trigger] entry[i] != 0,
    ensures
        entry_end(entry + seq![0u8] + rest, from) == entry.len(),
    decreases entry.len() - from,
{
    let bytes = entry + seq![0u8] + rest;
    if from < entry.len() {
        assert(bytes[from] == entry[from]);
        first_entries_end_at_the_zero(entry, rest, from + 1);
    } else {
        assert(bytes[from] == 0);
    }
}

/// A listing is read entry by entry: a path of a document is listed before what the rest lists, and
/// any other name is passed over.
pub proof fn listings_are_read_entry_by_entry(entry: Seq<u8>, rest: Seq<u8>)
    requires
        forall|i: int| 0 <= i < entry.len() ==> #[trigger] entry[i] != 0,
    ensures
        entry.len() == 0 ==> listed_paths(entry + seq![0u8] + rest, 0) == listed_paths(rest, 0),
        entry.len() > 0 && !vstd::utf8::valid_utf8(entry) ==> listed_paths(entry + seq![0u8] + rest, 0)
            == Err::<Seq<Seq<char>>, _>(MemorySourceError::PathNotUtf8),
        entry.len() > 0 && vstd::utf8::valid_utf8(entry) && !is_markdown(
            vstd::utf8::decode_utf8(entry),
        ) ==> listed_paths(entry + seq![0u8] + rest, 0) == listed_paths(rest, 0),
        entry.len() > 0 && vstd::utf8::valid_utf8(entry) && is_markdown(vstd::utf8::decode_utf8(entry))
            && !is_repo_path(vstd::utf8::decode_utf8(entry)) ==> listed_paths(
            entry + seq![0u8] + rest,
            0,
        ) == Err::<Seq<Seq<char>>, _>(MemorySourceError::InvalidPath),
        entry.len() > 0 && vstd::utf8::valid_utf8(entry) && is_markdown(vstd::utf8::decode_utf8(entry))
            && is_repo_path(vstd::utf8::decode_utf8(entry)) ==> (listed_paths(rest, 0) matches Ok(paths)
            ==> listed_paths(entry + seq![0u8] + rest, 0) == Ok::<_, MemorySourceError>(
            seq![vstd::utf8::decode_utf8(entry)] + paths,
        )),
{
    let bytes = entry + seq![0u8] + rest;
    let end = entry.len() as int;
    first_entries_end_at_the_zero(entry, rest, 0);
    assert(bytes.subrange(0, end) =~= entry);
    listings_are_read_from_anywhere(bytes, end + 1, end + 1);
    assert(bytes.skip(end + 1) =~= rest);
}

/// What is read out of a source says where it comes from, and is certain.
pub proof fn facts_say_where_they_come_from(
    input: MemoryExtractionInputView,
    name: Seq<char>,
    evidence: MemoryEvidenceLocatorView,
)
    ensures
        provenance_model(input, name, evidence).source_category == input.source.category,
        provenance_model(input, name, evidence).source_locator == input.source.locator,
        provenance_model(input, name, evidence).source_fingerprint == input.source.fingerprint,
        provenance_model(input, name, evidence).extractor.id == name,
        provenance_model(input, name, evidence).evidence == evidence,
        provenance_model(input, name, evidence).resolution == MemoryResolutionState::Resolved,
        provenance_model(input, name, evidence).confidence == MemoryConfidence::Exact,
        provenance_model(input, name, evidence).timestamps.indexed_at == input.context.indexed_at,
        provenance_model(input, name, evidence).timestamps.source_observed_at
            == input.context.indexed_at,
{
}

/// What is read out of a source belongs to the project and the revision it is read for.
pub proof fn facts_belong_to_their_revision(
    input: MemoryExtractionInputView,
    id: Seq<char>,
    data: MemoryEntityDataView,
    provenance: MemoryProvenanceView,
    what: Seq<char>,
    end: Seq<char>,
    kind: MemoryRelationshipKind,
    source: Seq<char>,
    target: MemoryRelationshipTargetView,
)
    ensures
        entity_model(input, id, data, provenance).project == input.context.project,
        entity_model(input, id, data, provenance).memory_revision_id == input.context.revision_id,
        entity_model(input, id, data, provenance).id == id,
        entity_model(input, id, data, provenance).data == data,
        entity_model(input, id, data, provenance).provenance == provenance,
        relationship_model(input, what, end, kind, source, target, provenance).project
            == input.context.project,
        relationship_model(input, what, end, kind, source, target, provenance).memory_revision_id
            == input.context.revision_id,
        relationship_model(input, what, end, kind, source, target, provenance).kind == kind,
        relationship_model(input, what, end, kind, source, target, provenance).source == source,
        relationship_model(input, what, end, kind, source, target, provenance).target == target,
        relationship_model(input, what, end, kind, source, target, provenance).provenance == provenance,
{
}

} // verus!
