//! Where a page goes on, and which pages go on from one another.
use vstd::prelude::*;
use crate::cursor::{federation_cursor_payload, page_offset, FederationCursorPayloadView};
use crate::deadline::is_up;
use crate::federation::search::{revisions_agree, taken};
use crate::links::{file_map, is_consistent};
use crate::query::MemoryTruncationReason;
use crate::repository::GraphNodeView;

verus! {

/// A page without a cursor starts at the beginning.
pub proof fn first_pages_start_at_the_beginning(
    operation: Seq<char>,
    revision_id: Seq<char>,
    fingerprint: Seq<char>,
)
    ensures
        page_offset(None, operation, revision_id, fingerprint) == Some(0u64),
{
}

/// A cursor goes on with one question only: the same operation and the same request, in the same
/// revision, always at the same place.
pub proof fn cursors_go_on_with_one_question(
    token: Seq<char>,
    operation: Seq<char>,
    revision_id: Seq<char>,
    fingerprint: Seq<char>,
    other_operation: Seq<char>,
    other_revision_id: Seq<char>,
    other_fingerprint: Seq<char>,
)
    requires
        page_offset(Some(token), operation, revision_id, fingerprint) is Some,
        page_offset(Some(token), other_operation, other_revision_id, other_fingerprint) is Some,
    ensures
        operation == other_operation,
        revision_id == other_revision_id,
        fingerprint == other_fingerprint,
{
}

/// A cursor over both domains goes on with one operation and one request only, and says in which
/// revisions of the domains it was made.
pub proof fn federated_cursors_go_on_with_one_question(
    token: Seq<char>,
    operation: Seq<char>,
    fingerprint: Seq<char>,
    other_operation: Seq<char>,
    other_fingerprint: Seq<char>,
)
    requires
        federation_cursor_payload(token, operation, fingerprint) is Some,
        federation_cursor_payload(token, other_operation, other_fingerprint) is Some,
    ensures
        operation == other_operation,
        fingerprint == other_fingerprint,
        federation_cursor_payload(token, operation, fingerprint)->0.operation == operation,
        federation_cursor_payload(token, operation, fingerprint)->0.fingerprint == fingerprint,
{
}

/// A cursor made in some revisions does not go on in any others.
pub proof fn cursors_stay_in_their_revisions(
    payload: FederationCursorPayloadView,
    key: Seq<char>,
    other: Seq<char>,
)
    requires
        key != other,
    ensures
        revisions_agree(None, key),
        revisions_agree(Some(payload), key) ==> !revisions_agree(Some(payload), other),
        revisions_agree(Some(payload), payload.revision_key),
{
}

/// Results are taken one by one while time lasts, up to the limit. What is left is left for want of
/// room or of time, and it is said which; where nothing is left, nothing is said.
pub proof fn results_are_taken_up_to_the_limit(
    available: int,
    count: int,
    reason: Option<MemoryTruncationReason>,
    max_results: u32,
    answers: Seq<u64>,
    at: int,
)
    requires
        0 <= count <= available,
        count <= max_results,
    ensures
        count <= taken(available, count, reason, max_results, answers, at).0 <= available,
        taken(available, count, reason, max_results, answers, at).0 <= max_results,
        taken(available, count, reason, max_results, answers, at).0 == available ==> taken(
            available,
            count,
            reason,
            max_results,
            answers,
            at,
        ).1 == reason,
        taken(available, count, reason, max_results, answers, at).0 < available ==> {
            ||| taken(available, count, reason, max_results, answers, at).1 == Some(
                MemoryTruncationReason::Results,
            ) && taken(available, count, reason, max_results, answers, at).0 == max_results
            ||| taken(available, count, reason, max_results, answers, at).1 == Some(
                MemoryTruncationReason::Duration,
            ) && is_up(
                answers[taken(available, count, reason, max_results, answers, at).2 - 1],
            )
        },
    decreases available - count,
{
    reveal(taken);
    if count < available && count < max_results && !is_up(answers[at]) {
        results_are_taken_up_to_the_limit(available, count + 1, reason, max_results, answers, at + 1);
    }
}

/// In time, all results are taken that there is room for.
pub proof fn all_results_are_taken_in_time(
    available: int,
    count: int,
    reason: Option<MemoryTruncationReason>,
    max_results: u32,
    answers: Seq<u64>,
    at: int,
)
    requires
        0 <= count <= available,
        count <= max_results,
        forall|i: int| at <= i < at + (available - count) ==> !is_up(#[trigger] answers[i]),
    ensures
        taken(available, count, reason, max_results, answers, at).0 == if available <= max_results {
            available
        } else {
            max_results as int
        },
    decreases available - count,
{
    reveal(taken);
    if count < available && count < max_results {
        all_results_are_taken_in_time(available, count + 1, reason, max_results, answers, at + 1);
    }
}

proof fn consistent_files_are_mapped(nodes: Seq<GraphNodeView>, at: int)
    requires
        is_consistent(nodes),
        0 <= at < nodes.len(),
        nodes[at].provenance.evidence is Some,
    ensures
        file_map(nodes).contains_key(nodes[at].provenance.evidence->0.path),
        file_map(nodes)[nodes[at].provenance.evidence->0.path]
            == nodes[at].provenance.evidence->0.content_identity,
    decreases nodes.len(),
{
    if at < nodes.len() - 1 {
        assert(nodes.drop_last()[at] == nodes[at]);
        consistent_files_are_mapped(nodes.drop_last(), at);
    }
}

/// The nodes of a consistent snapshot agree on the content of each file.
pub proof fn consistent_nodes_agree(nodes: Seq<GraphNodeView>, left: int, right: int)
    requires
        is_consistent(nodes),
        0 <= left < nodes.len(),
        0 <= right < nodes.len(),
        nodes[left].provenance.evidence is Some,
        nodes[right].provenance.evidence is Some,
        nodes[left].provenance.evidence->0.path == nodes[right].provenance.evidence->0.path,
    ensures
        nodes[left].provenance.evidence->0.content_identity
            == nodes[right].provenance.evidence->0.content_identity,
{
    consistent_files_are_mapped(nodes, left);
    consistent_files_are_mapped(nodes, right);
}

} // verus!
