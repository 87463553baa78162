//! What is quoted of the sources beside what is known of them.
use vstd::prelude::*;
use crate::context::{
    content_request, snippet_of, with_candidate, with_item, with_relationship, ContextPage, PageSource,
    PageStep,
};
use crate::domain::{MemoryEntityView, MemoryRelationship, MemoryRelationshipView, MemoryRevisionView};
use crate::json::{byte_len, ToJson};
use crate::query::{
    MemoryContentResponseView, MemoryContextItem, MemoryContextItemView, MemoryQueryErrorView,
    MemoryTruncationReason,
};
use crate::traversal::ContextCandidateView;

verus! {

/// A quotation is asked for where its entity comes from: the evidence of it, in the source that had
/// this fingerprint.
pub proof fn quotations_are_asked_for_where_entities_come_from(
    revision: MemoryRevisionView,
    entity: MemoryEntityView,
    max_bytes: u64,
)
    ensures
        content_request(revision, entity, max_bytes).project == revision.project,
        content_request(revision, entity, max_bytes).revision_id == revision.id,
        content_request(revision, entity, max_bytes).source_category
            == entity.provenance.source_category,
        content_request(revision, entity, max_bytes).locator == entity.provenance.source_locator,
        content_request(revision, entity, max_bytes).expected_fingerprint
            == entity.provenance.source_fingerprint,
        content_request(revision, entity, max_bytes).evidence == Some(entity.provenance.evidence),
        content_request(revision, entity, max_bytes).max_bytes == max_bytes,
{
}

/// Only what the source still says is quoted: its bytes, read as text, under the fingerprint that the
/// entity was found with.
pub proof fn quotations_are_what_the_source_says(
    entity: MemoryEntityView,
    reply: Result<MemoryContentResponseView, MemoryQueryErrorView>,
)
    ensures
        snippet_of(entity, reply) is Ok <==> reply is Ok && reply->Ok_0.verified_fingerprint
            == entity.provenance.source_fingerprint && vstd::utf8::valid_utf8(reply->Ok_0.bytes),
        snippet_of(entity, reply) matches Ok(snippet) ==> {
            &&& snippet.source_locator == entity.provenance.source_locator
            &&& snippet.evidence == Some(entity.provenance.evidence)
            &&& snippet.verified_fingerprint == entity.provenance.source_fingerprint
            &&& snippet.text == vstd::utf8::decode_utf8(reply->Ok_0.bytes)
            &&& snippet.truncated == reply->Ok_0.truncated
        },
        reply matches Err(error) ==> snippet_of(entity, reply)->Err_0 == error,
        reply matches Ok(response) ==> response.verified_fingerprint
            != entity.provenance.source_fingerprint ==> snippet_of(entity, reply)->Err_0
            == MemoryQueryErrorView::ContentChanged,
{
}

/// An item that fits is put behind those that are there, with its reasons.
pub proof fn items_that_fit_are_answered(source: PageSource, page: ContextPage, item: MemoryContextItemView)
    requires
        page.bytes + byte_len(<MemoryContextItem as ToJson>::json(item)) <= source.budget.max_bytes,
    ensures
        with_item(source, page, item) is More,
        with_item(source, page, item)->More_0.items == page.items.push(item),
        with_item(source, page, item)->More_0.relationships == page.relationships,
        with_item(source, page, item)->More_0.bytes == page.bytes + byte_len(
            <MemoryContextItem as ToJson>::json(item),
        ),
        with_item(source, page, item)->More_0.reason == page.reason,
{
}

/// A page that is full ends there, for want of bytes, unless there is nothing on it yet.
pub proof fn full_pages_end(
    source: PageSource,
    page: ContextPage,
    item: MemoryContextItemView,
    relationship: MemoryRelationshipView,
)
    requires
        page.items.len() + page.relationships.len() > 0,
    ensures
        byte_len(<MemoryContextItem as ToJson>::json(item)) <= u64::MAX && page.bytes + byte_len(
            <MemoryContextItem as ToJson>::json(item),
        ) > source.budget.max_bytes && page.bytes + byte_len(
            <MemoryContextItem as ToJson>::json(item),
        ) <= u64::MAX ==> {
            &&& with_item(source, page, item) is Done
            &&& with_item(source, page, item)->Done_0.items == page.items
            &&& with_item(source, page, item)->Done_0.reason == Some(MemoryTruncationReason::Bytes)
        },
        byte_len(<MemoryRelationship as ToJson>::json(relationship)) <= u64::MAX && page.bytes + byte_len(
            <MemoryRelationship as ToJson>::json(relationship),
        ) > source.budget.max_bytes && page.bytes + byte_len(
            <MemoryRelationship as ToJson>::json(relationship),
        ) <= u64::MAX ==> {
            &&& with_relationship(source, page, relationship) is Done
            &&& with_relationship(source, page, relationship)->Done_0.relationships
                == page.relationships
            &&& with_relationship(source, page, relationship)->Done_0.reason == Some(
                MemoryTruncationReason::Bytes,
            )
        },
{
}

/// A relationship that fits is put behind those that are there.
pub proof fn relationships_that_fit_are_answered(
    source: PageSource,
    page: ContextPage,
    relationship: MemoryRelationshipView,
)
    requires
        page.bytes + byte_len(<MemoryRelationship as ToJson>::json(relationship))
            <= source.budget.max_bytes,
    ensures
        with_relationship(source, page, relationship) is More,
        with_relationship(source, page, relationship)->More_0.items == page.items,
        with_relationship(source, page, relationship)->More_0.relationships
            == page.relationships.push(relationship),
{
}

/// Without a wish for quotations, without content to quote from, or without room for a quotation,
/// nothing is read, and an entity that fits stands on the page without one.
pub proof fn entities_stand_without_quotations(
    source: PageSource,
    page: ContextPage,
    candidate: ContextCandidateView,
    answers: Seq<u64>,
    replies: Seq<Result<MemoryContentResponseView, MemoryQueryErrorView>>,
)
    requires
        !source.include_snippets || !source.has_content || page.snippet_bytes
            >= source.budget.max_snippet_bytes,
    ensures
        with_candidate(source, page, candidate, answers, replies) matches PageStep::More(next) ==> {
            &&& next.requests == page.requests
            &&& next.items.drop_last() == page.items
            &&& next.items.last().entity == candidate.entity
            &&& next.items.last().snippet is None
            &&& next.items.last().selection_reasons == candidate.selection_reasons
        },
        page.items.len() + page.relationships.len() > 0 ==> !(with_candidate(
            source,
            page,
            candidate,
            answers,
            replies,
        ) is Failed),
{
    if let PageStep::More(next) = with_candidate(source, page, candidate, answers, replies) {
        assert(next.items.drop_last() =~= page.items);
    }
}

/// With a wish for quotations and room for one, what the source says stands beside its entity, and
/// what was asked for is no longer than the room.
pub proof fn entities_stand_beside_their_quotation(
    source: PageSource,
    page: ContextPage,
    candidate: ContextCandidateView,
    answers: Seq<u64>,
    replies: Seq<Result<MemoryContentResponseView, MemoryQueryErrorView>>,
)
    requires
        source.include_snippets,
        source.has_content,
        page.snippet_bytes < source.budget.max_snippet_bytes,
    ensures
        with_candidate(source, page, candidate, answers, replies) matches PageStep::More(next) ==> {
            &&& next.requests.len() == page.requests.len() + 1
            &&& next.requests.last().0.max_bytes == source.budget.max_snippet_bytes - page.snippet_bytes
            &&& next.requests.last().0.locator == candidate.entity.provenance.source_locator
            &&& next.requests.last().0.evidence == Some(candidate.entity.provenance.evidence)
            &&& next.requests.last().1 <= source.budget.max_duration_ms
            &&& next.items.last().entity == candidate.entity
            &&& next.items.last().selection_reasons == candidate.selection_reasons
            &&& next.items.last().snippet is Some
            &&& next.items.last().snippet->0.text == vstd::utf8::decode_utf8(
                replies[page.read]->Ok_0.bytes,
            )
            &&& next.items.last().snippet->0.verified_fingerprint
                == candidate.entity.provenance.source_fingerprint
        },
        replies[page.read] == Err::<MemoryContentResponseView, _>(
            MemoryQueryErrorView::BudgetExceeded(MemoryTruncationReason::Duration),
        ) ==> {
            &&& with_candidate(source, page, candidate, answers, replies) is Done
            &&& with_candidate(source, page, candidate, answers, replies)->Done_0.items == page.items
            &&& with_candidate(source, page, candidate, answers, replies)->Done_0.reason == Some(
                MemoryTruncationReason::Duration,
            )
        },
        replies[page.read] == Err::<MemoryContentResponseView, _>(
            MemoryQueryErrorView::ContentChanged,
        ) ==> with_candidate(source, page, candidate, answers, replies) is Failed,
{
}

} // verus!
