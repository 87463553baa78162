//! Paging through a context, call by call.
use vstd::prelude::*;
use crate::budget::{effective, saturated, EffectiveBudget};
use crate::context::{
    all_pages_hold_every_entry, are_all_pages, assembled, context_answer, context_answer_in,
    context_members,
    context_pages_follow_the_entries, context_response, empty_page, filled, first_reason,
    follows_entries, is_item_of_a_page, is_on_a_page, next_entry, own_cursor_is_read, said_by,
    ContextPage, ContextRecords, PageSource, PageStep,
};
use crate::cursor::{memory_cursor, page_offset};
use crate::domain::{MemoryEntityView, MemoryRelationshipView, MemoryRevisionView};
use crate::json::json_object;
use crate::order::{in_order, values_in_order};
use crate::ports::MemoryContent;
use crate::query::{
    MemoryContentResponseView, MemoryContextPolicyView, MemoryContextRequestView,
    MemoryContextResponseView, MemoryPageRequestView, MemoryQueryErrorView, MemoryTruncationReason,
};
use crate::reach::{
    every_followed_relationship_is_on_a_page, everything_in_reach_is_selected, more_steps_reach_as_far,
    start_set, traversal_ends, within,
};
use crate::record::outcome;
use crate::repository::{EdgeDirection, QueryLimitsConfigView};
use crate::scope::{resolved, ResolvedScopeView};
use crate::search::fingerprint_of;
use crate::seeds::{all_relationships, entities_by_id, seed_reasons};
use crate::service::{context_went, selection, MemoryRecords, SqliteMemoryQuery};
use crate::traversal::{
    end_is_stable, followed, gathered, is_finished, next_visit, started, visits, walked, with_edges,
    ContextAssemblyView, EdgeView, Traversal,
};

verus! {

/// Whether two traversals are at the same point, whenever they asked for the time.
spec fn in_step(one: Traversal, other: Traversal) -> bool {
    one == Traversal { at: one.at, ..other }
}

/// Whether a traversal has run out of time.
spec fn is_late(state: Traversal) -> bool {
    state.truncation == Some(MemoryTruncationReason::Duration)
}

proof fn edges_stay_late(
    state: Traversal,
    edges: Seq<EdgeView>,
    count: int,
    depth: u32,
    relationships: Seq<MemoryRelationshipView>,
    budget: EffectiveBudget,
    answers: Seq<u64>,
)
    requires
        state.truncation is Some,
    ensures
        with_edges(state, edges, count, depth, relationships, budget, answers) == state,
    decreases count,
{
    if count > 0 {
        edges_stay_late(state, edges, count - 1, depth, relationships, budget, answers);
    }
}

proof fn edges_in_step(
    one: Traversal,
    other: Traversal,
    edges: Seq<EdgeView>,
    count: int,
    depth: u32,
    relationships: Seq<MemoryRelationshipView>,
    budget: EffectiveBudget,
    one_answers: Seq<u64>,
    other_answers: Seq<u64>,
)
    requires
        in_step(one, other),
        !is_late(with_edges(one, edges, count, depth, relationships, budget, one_answers)),
        !is_late(with_edges(other, edges, count, depth, relationships, budget, other_answers)),
    ensures
        in_step(
            with_edges(one, edges, count, depth, relationships, budget, one_answers),
            with_edges(other, edges, count, depth, relationships, budget, other_answers),
        ),
    decreases count,
{
    if count > 0 {
        let left = with_edges(one, edges, count - 1, depth, relationships, budget, one_answers);
        let right = with_edges(other, edges, count - 1, depth, relationships, budget, other_answers);
        edges_in_step(
            one,
            other,
            edges,
            count - 1,
            depth,
            relationships,
            budget,
            one_answers,
            other_answers,
        );
        assert(in_step(left, right));
    }
}

proof fn visit_in_step(
    one: Traversal,
    other: Traversal,
    relationships: Seq<MemoryRelationshipView>,
    policy: MemoryContextPolicyView,
    budget: EffectiveBudget,
    one_answers: Seq<u64>,
    other_answers: Seq<u64>,
)
    requires
        in_step(one, other),
        !is_late(next_visit(one, relationships, policy, budget, one_answers)),
        !is_late(next_visit(other, relationships, policy, budget, other_answers)),
    ensures
        in_step(
            next_visit(one, relationships, policy, budget, one_answers),
            next_visit(other, relationships, policy, budget, other_answers),
        ),
{
    if !is_finished(one) {
        let visit = one.queue[0];
        let depth = if visit.depth > one.explored_depth {
            visit.depth
        } else {
            one.explored_depth
        };
        let left = Traversal {
            queue: one.queue.skip(1),
            at: one.at + 1,
            explored_depth: depth,
            ..one
        };
        let right = Traversal {
            queue: other.queue.skip(1),
            at: other.at + 1,
            explored_depth: depth,
            ..other
        };
        let edges = crate::traversal::neighbors(relationships, policy, visit.id);
        if visit.depth < budget.max_depth {
            edges_in_step(
                left,
                right,
                edges,
                edges.len() as int,
                visit.depth,
                relationships,
                budget,
                one_answers,
                other_answers,
            );
        }
    }
}

/// Traversals from one start go the same way, where neither runs out of time.
proof fn visits_in_step(
    one: Traversal,
    other: Traversal,
    count: nat,
    relationships: Seq<MemoryRelationshipView>,
    policy: MemoryContextPolicyView,
    budget: EffectiveBudget,
    one_answers: Seq<u64>,
    other_answers: Seq<u64>,
)
    requires
        in_step(one, other),
        !is_late(visits(one, count, relationships, policy, budget, one_answers)),
        !is_late(visits(other, count, relationships, policy, budget, other_answers)),
    ensures
        in_step(
            visits(one, count, relationships, policy, budget, one_answers),
            visits(other, count, relationships, policy, budget, other_answers),
        ),
    decreases count,
{
    if count > 0 {
        let less = (count - 1) as nat;
        visits_in_step(
            one,
            other,
            less,
            relationships,
            policy,
            budget,
            one_answers,
            other_answers,
        );
        visit_in_step(
            visits(one, less, relationships, policy, budget, one_answers),
            visits(other, less, relationships, policy, budget, other_answers),
            relationships,
            policy,
            budget,
            one_answers,
            other_answers,
        );
    }
}

proof fn starts_in_step(
    ids: Seq<Seq<char>>,
    reasons: Map<Seq<char>, Seq<Seq<char>>>,
    entities: Map<Seq<char>, MemoryEntityView>,
    one_at: int,
    other_at: int,
)
    ensures
        in_step(started(ids, reasons, entities, one_at), started(ids, reasons, entities, other_at)),
        started(ids, reasons, entities, one_at).selected.dom().finite(),
    decreases ids.len(),
{
    if ids.len() > 0 {
        starts_in_step(ids.drop_last(), reasons, entities, one_at, other_at);
    }
}

proof fn walks_agree(
    reasons: Map<Seq<char>, Seq<Seq<char>>>,
    entities: Map<Seq<char>, MemoryEntityView>,
    relationships: Seq<MemoryRelationshipView>,
    policy: MemoryContextPolicyView,
    budget: EffectiveBudget,
    one_answers: Seq<u64>,
    one_at: int,
    other_answers: Seq<u64>,
    other_at: int,
)
    requires
        !is_late(walked(reasons, entities, relationships, policy, budget, one_answers, one_at)),
        !is_late(walked(reasons, entities, relationships, policy, budget, other_answers, other_at)),
    ensures
        in_step(
            walked(reasons, entities, relationships, policy, budget, one_answers, one_at),
            walked(reasons, entities, relationships, policy, budget, other_answers, other_at),
        ),
{
    let ids = in_order(reasons.dom());
    let one = started(ids, reasons, entities, one_at);
    let other = started(ids, reasons, entities, other_at);
    starts_in_step(ids, reasons, entities, one_at, other_at);
    starts_in_step(ids, reasons, entities, other_at, one_at);
    let first = traversal_ends(one, relationships, policy, budget, one_answers);
    let second = traversal_ends(other, relationships, policy, budget, other_answers);
    let count = if first <= second {
        second
    } else {
        first
    };
    end_is_stable(one, first, count, relationships, policy, budget, one_answers);
    end_is_stable(other, second, count, relationships, policy, budget, other_answers);
    visits_in_step(one, other, count, relationships, policy, budget, one_answers, other_answers);
}

/// What a context is made of does not depend on when it is asked for, where the time does not run out.
pub proof fn assemblies_agree(
    one: MemoryContextRequestView,
    other: MemoryContextRequestView,
    budget: EffectiveBudget,
    entities: Result<Seq<MemoryEntityView>, MemoryQueryErrorView>,
    relationships: Result<Seq<MemoryRelationshipView>, MemoryQueryErrorView>,
    links: Result<Seq<MemoryRelationshipView>, MemoryQueryErrorView>,
    one_answers: Seq<u64>,
    one_at: int,
    other_answers: Seq<u64>,
    other_at: int,
)
    requires
        one.seeds == other.seeds,
        one.policy == other.policy,
        in_time(assembled(one, budget, entities, relationships, links, one_answers, one_at)),
        in_time(assembled(other, budget, entities, relationships, links, other_answers, other_at)),
    ensures
        assembled(one, budget, entities, relationships, links, one_answers, one_at)->Ok_0.0 == assembled(
            other,
            budget,
            entities,
            relationships,
            links,
            other_answers,
            other_at,
        )->Ok_0.0,
{
    reveal(assembled);
    if entities is Ok && relationships is Ok && links is Ok {
        let by_id = entities_by_id(entities->Ok_0);
        let merged = all_relationships(relationships->Ok_0, links->Ok_0);
        let reasons = seed_reasons(one.seeds, values_in_order(by_id), merged, one.policy);
        walks_agree(
            reasons,
            by_id,
            merged,
            one.policy,
            budget,
            one_answers,
            one_at,
            other_answers,
            other_at,
        );
    }
}

/// Whether a context was put together before the time was up.
pub open spec fn in_time(
    assembly: Result<(ContextAssemblyView, int), MemoryQueryErrorView>,
) -> bool {
    assembly is Ok && assembly->Ok_0.0.truncation != Some(MemoryTruncationReason::Duration)
}

/// A page that does not say why it ends holds the last entry.
proof fn unbroken_pages_end_with_the_last(
    source: PageSource,
    page: ContextPage,
    answers: Seq<u64>,
    replies: Seq<Result<MemoryContentResponseView, MemoryQueryErrorView>>,
)
    ensures
        filled(source, page, answers, replies) matches Ok(end) ==> {
            &&& end.reason is None ==> page.reason is None && source.offset + end.count()
                >= source.total()
        },
    decreases source.total() - source.offset - page.count(),
{
    reveal(filled);
    if let PageStep::More(more) = next_entry(source, page, answers, replies) {
        assert(source.offset + page.count() < source.total());
        unbroken_pages_end_with_the_last(source, more, answers, replies);
    }
}

/// What a call for a page of a context came from: the limits, the revision that it selected, what it read,
/// whether there is content, the times that were left and from which on, what the content said and from
/// which on, and its answer.
pub struct AnsweredCall {
    pub limits: QueryLimitsConfigView,
    pub revision: Result<Option<MemoryRevisionView>, MemoryQueryErrorView>,
    pub records: ContextRecords,
    pub has_content: bool,
    pub answers: Seq<u64>,
    pub at: int,
    pub replies: Seq<Result<MemoryContentResponseView, MemoryQueryErrorView>>,
    pub read: int,
    pub response: MemoryContextResponseView,
}

impl AnsweredCall {
    /// What the call put together.
    pub open spec fn assembly(self, request: MemoryContextRequestView) -> Result<
        (ContextAssemblyView, int),
        MemoryQueryErrorView,
    > {
        assembled(
            request,
            effective(request.scope.budget, self.limits),
            outcome(self.records.entities),
            outcome(self.records.relationships),
            outcome(self.records.links),
            self.answers,
            self.at,
        )
    }

    /// What the call's scope reads.
    pub open spec fn scope(self, request: MemoryContextRequestView) -> Result<
        ResolvedScopeView,
        MemoryQueryErrorView,
    > {
        resolved(request.scope, self.limits, self.revision)
    }
}

/// What a call of a query came from.
pub open spec fn call_of<S: MemoryRecords, C: MemoryContent>(
    request: MemoryContextRequestView,
    before: SqliteMemoryQuery<S, C>,
    after: SqliteMemoryQuery<S, C>,
    records: ContextRecords,
    answers: Seq<u64>,
    response: MemoryContextResponseView,
) -> AnsweredCall {
    AnsweredCall {
        limits: before.limits.deep_view(),
        revision: selection(request.scope, before.records.reads(), after.records.reads()).0,
        records,
        has_content: before.content is Some,
        answers,
        at: after.records.times().len() - before.records.times().len(),
        replies: said_by(after.content),
        read: said_by(before.content).len() as int,
        response,
    }
}

/// Whether a request was answered so.
#[verifier::opaque]
pub open spec fn is_answered(request: MemoryContextRequestView, call: AnsweredCall) -> bool {
    &&& context_answer(
        request,
        call.limits,
        call.revision,
        call.records,
        call.has_content,
        call.answers,
        call.at,
        call.replies,
        call.read,
    ) == Ok::<_, MemoryQueryErrorView>(call.response)
    &&& call.scope(request) matches Ok(scope) ==> own_cursor_is_read(request, scope)
}

/// Every call of a query that succeeds is answered so.
pub proof fn calls_are_answered<S: MemoryRecords, C: MemoryContent>(
    request: MemoryContextRequestView,
    before: SqliteMemoryQuery<S, C>,
    after: SqliteMemoryQuery<S, C>,
    records: ContextRecords,
    answers: Seq<u64>,
    response: MemoryContextResponseView,
)
    requires
        context_went(before, after, request, records, answers, Ok(response)),
    ensures
        is_answered(request, call_of(request, before, after, records, answers, response)),
{
    reveal(is_answered);
}

/// The request of a call: the first one from the start, each other one from the cursor of the call
/// before it.
pub open spec fn request_of(
    request: MemoryContextRequestView,
    calls: Seq<AnsweredCall>,
    at: int,
) -> MemoryContextRequestView {
    MemoryContextRequestView {
        page: MemoryPageRequestView {
            cursor: if at == 0 {
                None
            } else {
                calls[at - 1].response.page.next_cursor
            },
        },
        ..request
    }
}

/// Whether these calls page through a context from its start to its end: each goes on from the cursor of
/// the one before it, and the last one is complete.
pub open spec fn page_through(request: MemoryContextRequestView, calls: Seq<AnsweredCall>) -> bool {
    &&& calls.len() > 0
    &&& forall|i: int|
        0 <= i < calls.len() ==> #[trigger] is_answered(request_of(request, calls, i), calls[i])
    &&& forall|i: int|
        0 <= i < calls.len() - 1 ==> (#[trigger] calls[i]).response.page.next_cursor is Some
    &&& calls.last().response.page.truncation is None
}

/// Whether two calls read the same.
pub open spec fn reads_alike(one: AnsweredCall, other: AnsweredCall) -> bool {
    &&& one.limits == other.limits
    &&& one.has_content == other.has_content
    &&& one.revision == other.revision
    &&& outcome(one.records.entities) == outcome(other.records.entities)
    &&& outcome(one.records.relationships) == outcome(other.records.relationships)
    &&& outcome(one.records.links) == outcome(other.records.links)
}

/// Whether all the calls read the same, and none runs out of time while it follows relationships.
pub open spec fn read_the_same(request: MemoryContextRequestView, calls: Seq<AnsweredCall>) -> bool {
    forall|i: int|
        0 <= i < calls.len() ==> reads_alike(#[trigger] calls[i], calls[0]) && in_time(
            calls[i].assembly(request),
        )
}

/// What a call's page is filled from.
spec fn source_of(request: MemoryContextRequestView, call: AnsweredCall, offset: int) -> PageSource {
    let scope = call.scope(request)->Ok_0;
    PageSource {
        assembly: call.assembly(request)->Ok_0.0,
        offset,
        revision: scope.revision,
        budget: scope.budget,
        include_snippets: request.policy.include_snippets,
        has_content: call.has_content,
    }
}

/// The page of a call.
#[verifier::opaque]
spec fn page_of(request: MemoryContextRequestView, call: AnsweredCall, offset: int) -> ContextPage {
    let (assembly, gathered_at) = call.assembly(request)->Ok_0;
    let reason = first_reason(
        assembly.truncation,
        request.policy.include_snippets,
        call.has_content,
    );
    filled(
        source_of(request, call, offset),
        empty_page(reason, gathered_at, call.read),
        call.answers,
        call.replies,
    )->Ok_0
}

/// What a request is known by.
spec fn known_by(request: MemoryContextRequestView, call: AnsweredCall) -> Seq<char> {
    fingerprint_of(
        json_object(context_members(request, call.scope(request)->Ok_0.budget.max_depth)),
    )
}

/// Where a request starts.
spec fn start_of(
    request: MemoryContextRequestView,
    cursor: Option<Seq<char>>,
    call: AnsweredCall,
) -> Option<u64> {
    page_offset(
        cursor,
        "context"@,
        call.scope(request)->Ok_0.revision.id,
        known_by(request, call),
    )
}

/// How many entries the context of a call has.
pub open spec fn entries(request: MemoryContextRequestView, call: AnsweredCall) -> int {
    let assembly = call.assembly(request)->Ok_0.0;
    (assembly.candidates.len() + assembly.relationships.len()) as int
}

/// The cursor that goes on from a place.
spec fn cursor_at(request: MemoryContextRequestView, call: AnsweredCall, offset: u64) -> Seq<char> {
    memory_cursor(
        "context"@,
        call.scope(request)->Ok_0.revision.id,
        known_by(request, call),
        offset,
    )
}

/// Whether a call's answer shows the page from a place on.
spec fn shows_page(request: MemoryContextRequestView, call: AnsweredCall, offset: u64) -> bool {
    let source = source_of(request, call, offset as int);
    let page = page_of(request, call, offset as int);
    &&& follows_entries(source, page)
    &&& offset <= entries(request, call)
    &&& call.response.items == page.items
    &&& call.response.relationships == page.relationships
    &&& call.response.page.truncation is None ==> offset + page.count() >= entries(request, call)
        && source.assembly.truncation is None
    &&& call.response.page.next_cursor matches Some(cursor) ==> cursor == cursor_at(
        request,
        call,
        saturated(offset, page.count() as u64),
    )
}

/// What a call says is its page.
proof fn call_shows_page(
    request: MemoryContextRequestView,
    asked: MemoryContextRequestView,
    call: AnsweredCall,
    offset: u64,
)
    requires
        is_answered(asked, call),
        asked == (MemoryContextRequestView { page: asked.page, ..request }),
        in_time(call.assembly(request)),
        start_of(request, asked.page.cursor, call) == Some(offset),
    ensures
        shows_page(request, call, offset),
{
    reveal(is_answered);
    reveal(context_answer_in);
    reveal(context_response);
    reveal(page_of);
    assert(call.assembly(asked) == call.assembly(request)) by {
        reveal(assembled);
    }
    let source = source_of(request, call, offset as int);
    let (assembly, gathered_at) = call.assembly(request)->Ok_0;
    let reason = first_reason(
        assembly.truncation,
        request.policy.include_snippets,
        call.has_content,
    );
    let empty = empty_page(reason, gathered_at, call.read);
    assert(call.scope(asked) == call.scope(request));
    assert(known_by(asked, call) == known_by(request, call));
    context_pages_follow_the_entries(source, empty, call.answers, call.replies);
    unbroken_pages_end_with_the_last(source, empty, call.answers, call.replies);
}

/// A call from a cursor that was made for its request starts where the cursor says.
proof fn cursor_starts_call(
    request: MemoryContextRequestView,
    asked: MemoryContextRequestView,
    call: AnsweredCall,
    offset: u64,
)
    requires
        is_answered(asked, call),
        asked == (MemoryContextRequestView { page: asked.page, ..request }),
        asked.page.cursor == Some(cursor_at(request, call, offset)),
    ensures
        start_of(request, asked.page.cursor, call) == Some(offset),
{
    reveal(is_answered);
    reveal(context_answer_in);
    assert(call.scope(asked) == call.scope(request));
    assert(known_by(asked, call) == known_by(request, call));
}

/// Calls that read the same know the same.
proof fn calls_agree(request: MemoryContextRequestView, calls: Seq<AnsweredCall>, at: int)
    requires
        read_the_same(request, calls),
        0 <= at < calls.len(),
    ensures
        calls[at].scope(request) == calls[0].scope(request),
        calls[at].assembly(request)->Ok_0.0 == calls[0].assembly(request)->Ok_0.0,
        entries(request, calls[at]) == entries(request, calls[0]),
        known_by(request, calls[at]) == known_by(request, calls[0]),
        source_of(request, calls[at], 0) == source_of(request, calls[0], 0),
{
    let call = calls[at];
    let first = calls[0];
    assert(reads_alike(call, first) && in_time(call.assembly(request)));
    assert(in_time(first.assembly(request)));
    assemblies_agree(
        request,
        request,
        effective(request.scope.budget, first.limits),
        outcome(first.records.entities),
        outcome(first.records.relationships),
        outcome(first.records.links),
        call.answers,
        call.at,
        first.answers,
        first.at,
    );
}

/// Where the page of a call starts.
spec fn offset_at(request: MemoryContextRequestView, calls: Seq<AnsweredCall>, at: int) -> int
    decreases at,
{
    if at <= 0 {
        0
    } else {
        let before = offset_at(request, calls, at - 1);
        before + page_of(request, calls[at - 1], before).count()
    }
}

proof fn offsets_follow(request: MemoryContextRequestView, calls: Seq<AnsweredCall>, at: int)
    requires
        page_through(request, calls),
        read_the_same(request, calls),
        entries(request, calls[0]) <= u64::MAX,
        0 <= at < calls.len(),
    ensures
        0 <= offset_at(request, calls, at) <= entries(request, calls[0]),
        shows_page(request, calls[at], offset_at(request, calls, at) as u64),
    decreases at,
{
    let asked = request_of(request, calls, at);
    assert(is_answered(asked, calls[at]));
    assert(in_time(calls[at].assembly(request)));
    calls_agree(request, calls, at);
    if at > 0 {
        let before = offset_at(request, calls, at - 1);
        offsets_follow(request, calls, at - 1);
        calls_agree(request, calls, at - 1);
        let page = page_of(request, calls[at - 1], before);
        let offset = offset_at(request, calls, at);
        assert(calls[at - 1].response.page.next_cursor is Some);
        assert(page.count() >= 0);
        assert(saturated(before as u64, page.count() as u64) == offset as u64);
        assert(cursor_at(request, calls[at - 1], offset as u64) == cursor_at(
            request,
            calls[at],
            offset as u64,
        ));
        cursor_starts_call(request, asked, calls[at], offset as u64);
    }
    call_shows_page(request, asked, calls[at], offset_at(request, calls, at) as u64);
}

/// Whether one of the answers shows a relationship.
pub open spec fn shows_relationship(
    calls: Seq<AnsweredCall>,
    relationship: MemoryRelationshipView,
) -> bool {
    exists|i: int|
        0 <= i < calls.len() && (#[trigger] calls[i]).response.relationships.contains(relationship)
}

/// Whether an entity is an item of one of the answers.
pub open spec fn shows_entity(calls: Seq<AnsweredCall>, entity: MemoryEntityView) -> bool {
    exists|i: int, j: int|
        0 <= i < calls.len() && 0 <= j < calls[i].response.items.len() && (
        #[trigger] calls[i].response.items[j]).entity == entity
}

proof fn calls_are_all_pages(request: MemoryContextRequestView, calls: Seq<AnsweredCall>) -> (result: (
    PageSource,
    Seq<int>,
    Seq<ContextPage>,
))
    requires
        page_through(request, calls),
        read_the_same(request, calls),
        entries(request, calls[0]) <= u64::MAX,
    ensures
        are_all_pages(result.0, result.1, result.2),
        result.0.assembly == calls[0].assembly(request)->Ok_0.0,
        result.0.assembly.truncation is None,
        result.2.len() == calls.len(),
        forall|i: int|
            0 <= i < calls.len() ==> (#[trigger] result.2[i]).items == calls[i].response.items
                && result.2[i].relationships == calls[i].response.relationships,
{
    let count = calls.len() as int;
    let source = source_of(request, calls[0], 0);
    let offsets = Seq::new((count + 1) as nat, |i: int| offset_at(request, calls, i));
    let pages = Seq::new(
        count as nat,
        |i: int| page_of(request, calls[i], offset_at(request, calls, i)),
    );
    assert forall|i: int| 0 <= i < pages.len() implies follows_entries(
        PageSource { offset: offsets[i], ..source },
        #[trigger] pages[i],
    ) && offsets[i + 1] == offsets[i] + pages[i].count() && pages[i].items == calls[i].response.items
        && pages[i].relationships == calls[i].response.relationships by {
        let offset = offset_at(request, calls, i);
        offsets_follow(request, calls, i);
        calls_agree(request, calls, i);
        assert(source_of(request, calls[i], offset) == PageSource { offset, ..source });
    }
    offsets_follow(request, calls, count - 1);
    calls_agree(request, calls, count - 1);
    let last = pages[count - 1];
    assert(follows_entries(PageSource { offset: offsets[count - 1], ..source }, last));
    (source, offsets, pages)
}

/// Calls that page through a context show all of it: where each goes on from the cursor of the one before
/// it until one is complete, the memory stays as it is and no call runs out of time, the answers together
/// show every relationship and every entity of the context, and no other relationship.
pub proof fn paging_shows_everything(request: MemoryContextRequestView, calls: Seq<AnsweredCall>)
    requires
        page_through(request, calls),
        read_the_same(request, calls),
        entries(request, calls[0]) <= u64::MAX,
    ensures
        ({
            let assembly = calls[0].assembly(request)->Ok_0.0;
            &&& forall|relationship: MemoryRelationshipView|
                assembly.relationships.contains(relationship) <==> #[trigger] shows_relationship(
                    calls,
                    relationship,
                )
            &&& forall|c: int|
                0 <= c < assembly.candidates.len() ==> shows_entity(
                    calls,
                    (#[trigger] assembly.candidates[c]).entity,
                )
        }),
{
    let (source, offsets, pages) = calls_are_all_pages(request, calls);
    all_pages_hold_every_entry(source, offsets, pages);
    let assembly = calls[0].assembly(request)->Ok_0.0;
    assert forall|relationship: MemoryRelationshipView|
        assembly.relationships.contains(relationship) <==> #[trigger] shows_relationship(
            calls,
            relationship,
        ) by {
        if assembly.relationships.contains(relationship) {
            let r = choose|r: int|
                0 <= r < assembly.relationships.len() && assembly.relationships[r] == relationship;
            assert(is_on_a_page(pages, assembly.relationships[r]));
            let p = choose|p: int|
                0 <= p < pages.len() && (#[trigger] pages[p]).relationships.contains(relationship);
            assert(calls[p].response.relationships.contains(relationship));
        }
        if shows_relationship(calls, relationship) {
            let p = choose|p: int|
                0 <= p < calls.len() && (#[trigger] calls[p]).response.relationships.contains(
                    relationship,
                );
            let i = choose|i: int|
                0 <= i < calls[p].response.relationships.len() && calls[p].response.relationships[i]
                    == relationship;
            assert(pages[p].relationships[i] == relationship);
        }
    }
    assert forall|c: int| 0 <= c < assembly.candidates.len() implies shows_entity(
        calls,
        (#[trigger] assembly.candidates[c]).entity,
    ) by {
        let entity = assembly.candidates[c].entity;
        assert(is_item_of_a_page(pages, source.assembly.candidates[c].entity));
        let (p, i) = choose|p: int, i: int|
            0 <= p < pages.len() && 0 <= i < pages[p].items.len() && (
            #[trigger] pages[p].items[i]).entity == entity;
        assert(pages[p].items == calls[p].response.items);
        assert(calls[p].response.items[i].entity == entity);
    }
}

/// Whether selected relationships stand under their names.
spec fn are_named(state: Traversal) -> bool {
    forall|id: Seq<char>| #[trigger]
        state.relationships.contains_key(id) ==> state.relationships[id].id == id
}

proof fn edges_keep_names(
    state: Traversal,
    edges: Seq<EdgeView>,
    count: int,
    depth: u32,
    relationships: Seq<MemoryRelationshipView>,
    budget: EffectiveBudget,
    answers: Seq<u64>,
)
    requires
        are_named(state),
    ensures
        are_named(with_edges(state, edges, count, depth, relationships, budget, answers)),
    decreases count,
{
    if count > 0 {
        edges_keep_names(state, edges, count - 1, depth, relationships, budget, answers);
    }
}

proof fn visits_keep_names(
    state: Traversal,
    count: nat,
    relationships: Seq<MemoryRelationshipView>,
    policy: MemoryContextPolicyView,
    budget: EffectiveBudget,
    answers: Seq<u64>,
)
    requires
        are_named(state),
    ensures
        are_named(visits(state, count, relationships, policy, budget, answers)),
    decreases count,
{
    if count > 0 {
        visits_keep_names(state, (count - 1) as nat, relationships, policy, budget, answers);
        let before = visits(state, (count - 1) as nat, relationships, policy, budget, answers);
        if !is_finished(before) {
            let visit = before.queue[0];
            let explored = Traversal {
                queue: before.queue.skip(1),
                at: before.at + 1,
                explored_depth: if visit.depth > before.explored_depth {
                    visit.depth
                } else {
                    before.explored_depth
                },
                ..before
            };
            let edges = crate::traversal::neighbors(relationships, policy, visit.id);
            edges_keep_names(
                explored,
                edges,
                edges.len() as int,
                visit.depth,
                relationships,
                budget,
                answers,
            );
        }
    }
}

proof fn start_is_named(
    ids: Seq<Seq<char>>,
    reasons: Map<Seq<char>, Seq<Seq<char>>>,
    entities: Map<Seq<char>, MemoryEntityView>,
    at: int,
)
    ensures
        are_named(started(ids, reasons, entities, at)),
    decreases ids.len(),
{
    if ids.len() > 0 {
        start_is_named(ids.drop_last(), reasons, entities, at);
    }
}

/// Paging through a context shows every relationship that the policy follows from a seed: such calls show
/// each of them, however few entries an answer may hold.
pub proof fn paging_shows_every_relationship_of_a_seed(
    request: MemoryContextRequestView,
    calls: Seq<AnsweredCall>,
    id: Seq<char>,
    place: int,
)
    requires
        page_through(request, calls),
        read_the_same(request, calls),
        entries(request, calls[0]) <= u64::MAX,
        effective(request.scope.budget, calls[0].limits).max_depth > 0,
        outcome(calls[0].records.entities) is Ok,
        outcome(calls[0].records.relationships) is Ok,
        outcome(calls[0].records.links) is Ok,
        ({
            let by_id = entities_by_id(outcome(calls[0].records.entities)->Ok_0);
            let merged = all_relationships(
                outcome(calls[0].records.relationships)->Ok_0,
                outcome(calls[0].records.links)->Ok_0,
            );
            let reasons = seed_reasons(
                request.seeds,
                values_in_order(by_id),
                merged,
                request.policy,
            );
            &&& in_order(reasons.dom()).contains(id)
            &&& by_id.contains_key(id)
            &&& 0 <= place < merged.len()
            &&& followed(merged[place], request.policy) is Some
            &&& request.policy.direction != EdgeDirection::Incoming && merged[place].source == id
                || request.policy.direction != EdgeDirection::Outgoing && followed(
                merged[place],
                request.policy,
            ) == Some(id)
        }),
    ensures
        ({
            let merged = all_relationships(
                outcome(calls[0].records.relationships)->Ok_0,
                outcome(calls[0].records.links)->Ok_0,
            );
            exists|relationship: MemoryRelationshipView|
                relationship.id == merged[place].id && #[trigger] shows_relationship(
                    calls,
                    relationship,
                )
        }),
{
    let first = calls[0];
    let budget = effective(request.scope.budget, first.limits);
    let by_id = entities_by_id(outcome(first.records.entities)->Ok_0);
    let merged = all_relationships(
        outcome(first.records.relationships)->Ok_0,
        outcome(first.records.links)->Ok_0,
    );
    let reasons = seed_reasons(request.seeds, values_in_order(by_id), merged, request.policy);
    let ids = in_order(reasons.dom());
    let at = first.at;
    let end = walked(reasons, by_id, merged, request.policy, budget, first.answers, at);
    let (source, offsets, pages) = calls_are_all_pages(request, calls);
    assert(source.assembly == gathered(end, by_id)) by {
        reveal(assembled);
    }
    everything_in_reach_is_selected(
        ids,
        reasons,
        by_id,
        at,
        merged,
        request.policy,
        budget,
        first.answers,
    );
    let starts = start_set(ids, by_id);
    assert(starts.contains(id));
    assert(within(merged, request.policy, starts, id, 0));
    more_steps_reach_as_far(merged, request.policy, starts, id, 0, budget.max_depth as nat);
    assert(end.selected.contains_key(id));
    assert(end.selected[id].depth == 0);
    every_followed_relationship_is_on_a_page(
        reasons,
        by_id,
        merged,
        request.policy,
        budget,
        first.answers,
        at,
        source,
        offsets,
        pages,
        id,
        place,
    );
    let start = started(ids, reasons, by_id, at);
    starts_in_step(ids, reasons, by_id, at, at);
    start_is_named(ids, reasons, by_id, at);
    let count = traversal_ends(start, merged, request.policy, budget, first.answers);
    visits_keep_names(start, count, merged, request.policy, budget, first.answers);
    let found = end.relationships[merged[place].id];
    let p = choose|p: int| 0 <= p < pages.len() && (#[trigger] pages[p]).relationships.contains(found);
    assert(pages[p].relationships == calls[p].response.relationships);
    assert(calls[p].response.relationships.contains(found));
    assert(shows_relationship(calls, found));
}

}
