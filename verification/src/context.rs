//! The context around some seeds: what is gathered, the snippets that are read for it, and the page
//! that is returned.
use vstd::prelude::*;
use crate::budget::{
    backend, backend_error, effective, saturated, saturating_sum, EffectiveBudget,
};
use crate::cursor::{
    decode_cursor, is_continued, memory_cursor, memory_page, page_model, page_offset,
};
use crate::deadline::{begins, is_up, remaining_of, shorter, Deadline};
use crate::diagnostics::{MemoryDiagnostic, MemoryDiagnosticView};
use crate::domain::{
    MemoryEntity, MemoryEntityView, MemoryRelationship, MemoryRelationshipKind,
    MemoryRelationshipView, MemoryRevision, MemoryRevisionView, MAX_ID_BYTES,
};
use crate::json::{
    byte_len, json_object, json_string, serialized_len, text_json, JsonObject, ToJson,
};
use crate::order::{in_order, sorted_distinct, values_in_order};
use crate::ports::MemoryContent;
use crate::query::{
    MemoryContentRequest, MemoryContentRequestView, MemoryContentResponse,
    MemoryContentResponseView, MemoryContextItem, MemoryContextItemView, MemoryContextRequest,
    MemoryContextRequestView, MemoryContextResponse, MemoryContextResponseView, MemoryContextSeed,
    MemoryContextSeedView, MemoryQueryError, MemoryQueryErrorView, MemorySnippet, MemorySnippetView,
    MemoryTruncationReason,
};
use crate::record::{outcome, Record};
use crate::repository::{QueryLimitsConfig, QueryLimitsConfigView};
use crate::scope::{
    diagnostics_with_deadline, diagnostics_within, invalid_request, resolve_scope, resolved,
    ResolvedScope, ResolvedScopeView,
};
use crate::search::{fingerprint, fingerprint_of, MAX_FILTERS};
use crate::seeds::{
    all_relationships, entities_by_id, entity_map, merge_relationships, seed_reasons, start_reasons,
};
use crate::sort::{dedup, deduplicated, sort, sorted};
use crate::text::utf8_text;
use crate::traversal::{
    assemble, gathered, walked, ContextAssembly, ContextAssemblyView, ContextCandidate,
    ContextCandidateView,
};
use crate::value::{is_bounded_text, NonZeroU64};
use crate::MEMORY_QUERY_WIRE_VERSION;

verus! {

/// The JSON texts of some seeds.
pub open spec fn seed_texts(seeds: Seq<MemoryContextSeedView>) -> Seq<Seq<char>> {
    seeds.map_values(|seed: MemoryContextSeedView| <MemoryContextSeed as ToJson>::json(seed))
}

/// The members of what the fingerprint of a question for context is made of.
pub open spec fn context_members(
    request: MemoryContextRequestView,
    max_depth: u32,
) -> Seq<(Seq<char>, Seq<char>)> {
    seq![
        ("seeds"@, <Vec<String> as ToJson>::json(in_order(seed_texts(request.seeds).to_set()))),
        (
            "relationship_kinds"@,
            <Vec<MemoryRelationshipKind> as ToJson>::json(
                deduplicated::<MemoryRelationshipKind>(
                    sorted::<MemoryRelationshipKind>(request.policy.relationship_kinds),
                ),
            ),
        ),
        ("include_unresolved"@, <bool as ToJson>::json(request.policy.include_unresolved)),
        ("include_stale"@, <bool as ToJson>::json(request.policy.include_stale)),
        ("include_snippets"@, <bool as ToJson>::json(request.policy.include_snippets)),
        ("max_depth"@, <u32 as ToJson>::json(max_depth)),
        ("marker"@, json_string("context"@)),
    ]
}

/// What tells two questions for context apart: their seeds and kinds in whatever order, what they
/// show, and how deep they go.
pub fn context_fingerprint(request: &MemoryContextRequest, max_depth: u32) -> (digest: String)
    ensures
        digest@ == fingerprint_of(json_object(context_members(request.deep_view(), max_depth))),
{
    let mut seeds: Vec<String> = Vec::new();
    let mut at: usize = 0;
    while at < request.seeds.len()
        invariant
            at <= request.seeds.len(),
            seeds.deep_view() =~= seed_texts(request.seeds.deep_view()).take(at as int),
        decreases request.seeds.len() - at,
    {
        let ghost before = seeds.deep_view();
        let text = request.seeds[at].to_json();
        seeds.push(text);
        assert(seeds.deep_view() =~= before.push(text@));
        at += 1;
    }
    assert(seeds.deep_view() =~= seed_texts(request.seeds.deep_view()));
    let kinds = sort(request.policy.relationship_kinds.copied());
    let object = JsonObject::new()
        .member("seeds", sorted_distinct(&seeds).to_json())
        .member("relationship_kinds", dedup(&kinds).to_json())
        .member("include_unresolved", request.policy.include_unresolved.to_json())
        .member("include_stale", request.policy.include_stale.to_json())
        .member("include_snippets", request.policy.include_snippets.to_json())
        .member("max_depth", max_depth.to_json())
        .member("marker", text_json("context"));
    assert(object.members() =~= context_members(request.deep_view(), max_depth));
    fingerprint(object.finish())
}

/// What is asked of the content of an entity's source.
pub open spec fn content_request(
    revision: MemoryRevisionView,
    entity: MemoryEntityView,
    max_bytes: u64,
) -> MemoryContentRequestView {
    MemoryContentRequestView {
        project: revision.project,
        revision_id: revision.id,
        source_category: entity.provenance.source_category,
        locator: entity.provenance.source_locator,
        expected_fingerprint: entity.provenance.source_fingerprint,
        evidence: Some(entity.provenance.evidence),
        max_bytes,
    }
}

/// The snippet of an entity, given what the reading of its source gave. Content that changed, or
/// that is no text, gives none.
pub open spec fn snippet_of(
    entity: MemoryEntityView,
    reply: Result<MemoryContentResponseView, MemoryQueryErrorView>,
) -> Result<MemorySnippetView, MemoryQueryErrorView> {
    match reply {
        Err(error) => Err(error),
        Ok(response) => if response.verified_fingerprint != entity.provenance.source_fingerprint {
            Err(MemoryQueryErrorView::ContentChanged)
        } else if !vstd::utf8::valid_utf8(response.bytes) {
            Err(backend("content.nonutf8"@))
        } else {
            Ok(
                MemorySnippetView {
                    source_locator: entity.provenance.source_locator,
                    evidence: Some(entity.provenance.evidence),
                    verified_fingerprint: response.verified_fingerprint,
                    text: vstd::utf8::decode_utf8(response.bytes),
                    truncated: response.truncated,
                },
            )
        },
    }
}

/// The snippet of an entity, given what the reading of its source gave.
pub fn accept_snippet(
    entity: &MemoryEntity,
    reply: Result<MemoryContentResponse, MemoryQueryError>,
) -> (result: Result<MemorySnippet, MemoryQueryError>)
    ensures
        outcome(result) == snippet_of(entity.deep_view(), outcome(reply)),
{
    let response = match reply {
        Ok(response) => response,
        Err(error) => {
            return Err(error);
        },
    };
    if !response.verified_fingerprint.same(&entity.provenance.source_fingerprint) {
        return Err(MemoryQueryError::ContentChanged);
    }
    assert(response.bytes.deep_view() =~= response.bytes@);
    match utf8_text(response.bytes.as_slice()) {
        Some(text) => Ok(
            MemorySnippet {
                source_locator: entity.provenance.source_locator.copied(),
                evidence: Some(entity.provenance.evidence.copied()),
                verified_fingerprint: response.verified_fingerprint,
                text,
                truncated: response.truncated,
            },
        ),
        None => {
            proof {
                reveal_strlit("content.nonutf8");
            }
            Err(backend_error("content.nonutf8"))
        },
    }
}

/// What was asked of the content, where there is any, with the milliseconds for each answer.
pub open spec fn asked_of<C: MemoryContent>(content: Option<C>) -> Seq<(MemoryContentRequestView, u64)> {
    match content {
        Some(content) => content.requests(),
        None => Seq::empty(),
    }
}

/// What the content answered, where there is any.
pub open spec fn said_by<C: MemoryContent>(content: Option<C>) -> Seq<
    Result<MemoryContentResponseView, MemoryQueryErrorView>,
> {
    match content {
        Some(content) => content.replies(),
        None => Seq::empty(),
    }
}

/// Whether every answer in between could take so many milliseconds at most.
pub open spec fn asked_within<C: MemoryContent>(
    before: Option<C>,
    after: Option<C>,
    limit_ms: u64,
) -> bool {
    &&& begins(asked_of(before), asked_of(after))
    &&& forall|i: int|
        asked_of(before).len() <= i < asked_of(after).len() ==> (#[trigger] asked_of(after)[i]).1
            <= limit_ms
}

/// Reads the snippet of an entity, where there is content and room for a snippet.
pub fn attach_snippet<C: MemoryContent, D: Deadline>(
    revision: &MemoryRevision,
    entity: &MemoryEntity,
    remaining_bytes: u64,
    max_duration_ms: u64,
    content: &mut Option<C>,
    deadline: &mut D,
) -> (result: Result<Option<MemorySnippet>, MemoryQueryError>)
    ensures
        (*final(content)) is Some == (*old(content)) is Some,
        asked_within(*old(content), *final(content), max_duration_ms),
        (*old(content)) is None || remaining_bytes == 0 ==> result == Ok::<_, MemoryQueryError>(
            None::<MemorySnippet>,
        ) && said_by(*final(content)) == said_by(*old(content)) && asked_of(*final(content)) == asked_of(
            *old(content),
        ) && final(deadline).answers() == old(deadline).answers(),
        (*old(content)) is Some && remaining_bytes > 0 ==> {
            &&& said_by(*final(content)).len() == said_by(*old(content)).len() + 1
            &&& begins(said_by(*old(content)), said_by(*final(content)))
            &&& final(deadline).answers().len() == old(deadline).answers().len() + 1
            &&& final(deadline).answers() == old(deadline).answers().push(
                final(deadline).answers().last(),
            )
            &&& asked_of(*final(content)) == asked_of(*old(content)).push(
                (
                    content_request(revision.deep_view(), entity.deep_view(), remaining_bytes),
                    shorter(final(deadline).answers().last(), max_duration_ms),
                ),
            )
            &&& match snippet_of(entity.deep_view(), said_by(*final(content)).last()) {
                Ok(snippet) => result matches Ok(Some(found)) && found.deep_view() == snippet,
                Err(error) => result matches Err(found) && found.deep_view() == error,
            }
        },
{
    let max_bytes = match NonZeroU64::new(remaining_bytes) {
        Some(max_bytes) => max_bytes,
        None => {
            return Ok(None);
        },
    };
    match content {
        None => Ok(None),
        Some(content) => {
            let request = MemoryContentRequest {
                project: revision.project.copied(),
                revision_id: revision.id.copied(),
                source_category: entity.provenance.source_category,
                locator: entity.provenance.source_locator.copied(),
                expected_fingerprint: entity.provenance.source_fingerprint.copied(),
                evidence: Some(entity.provenance.evidence.copied()),
                max_bytes,
            };
            let remaining_ms = remaining_of(deadline, max_duration_ms);
            let reply = content.content_with_deadline(request, remaining_ms);
            match accept_snippet(entity, reply) {
                Ok(snippet) => Ok(Some(snippet)),
                Err(error) => Err(error),
            }
        },
    }
}

/// A page of a context as it fills: what it holds, the size of that and of the snippets, why the
/// answer ends early, what was asked of the content, and how many answers of the deadline and of the
/// content are known.
#[verifier::ext_equal]
pub struct ContextPage {
    pub items: Seq<MemoryContextItemView>,
    pub relationships: Seq<MemoryRelationshipView>,
    pub bytes: u64,
    pub snippet_bytes: u64,
    pub reason: Option<MemoryTruncationReason>,
    pub requests: Seq<(MemoryContentRequestView, u64)>,
    pub at: int,
    pub read: int,
}

/// What a page is filled from: the gathered entities and, behind them, the relationships; where in
/// them it starts; what it may use; and whether snippets are wanted and can be read.
pub struct PageSource {
    pub assembly: ContextAssemblyView,
    pub offset: int,
    pub revision: MemoryRevisionView,
    pub budget: EffectiveBudget,
    pub include_snippets: bool,
    pub has_content: bool,
}

/// What becomes of a page with one more entry.
pub enum PageStep {
    More(ContextPage),
    Done(ContextPage),
    Failed(FailedPage),
}

/// A page that failed: why, and what was asked of the content for it.
#[verifier::ext_equal]
pub struct FailedPage {
    pub error: MemoryQueryErrorView,
    pub requests: Seq<(MemoryContentRequestView, u64)>,
}

impl ContextPage {
    /// How many entries the page holds.
    pub open spec fn count(self) -> int {
        (self.items.len() + self.relationships.len()) as int
    }
}

impl PageSource {
    /// How many entries there are.
    pub open spec fn total(self) -> int {
        (self.assembly.candidates.len() + self.assembly.relationships.len()) as int
    }

    /// How many bytes of snippets still fit.
    pub open spec fn snippet_room(self, page: ContextPage) -> u64 {
        if self.budget.max_snippet_bytes > page.snippet_bytes {
            (self.budget.max_snippet_bytes - page.snippet_bytes) as u64
        } else {
            0
        }
    }
}

/// The page with one more entity, where it still fits.
pub open spec fn with_item(
    source: PageSource,
    page: ContextPage,
    item: MemoryContextItemView,
) -> PageStep {
    let total = saturated(page.bytes, byte_len(<MemoryContextItem as ToJson>::json(item)) as u64);
    if total > source.budget.max_bytes {
        full(page)
    } else {
        PageStep::More(
            ContextPage {
                items: page.items.push(item),
                bytes: total,
                snippet_bytes: match item.snippet {
                    Some(snippet) => saturated(page.snippet_bytes, byte_len(snippet.text) as u64),
                    None => page.snippet_bytes,
                },
                ..page
            },
        )
    }
}

/// The page with one more relationship, where it still fits.
pub open spec fn with_relationship(
    source: PageSource,
    page: ContextPage,
    relationship: MemoryRelationshipView,
) -> PageStep {
    let total = saturated(
        page.bytes,
        byte_len(<MemoryRelationship as ToJson>::json(relationship)) as u64,
    );
    if total > source.budget.max_bytes {
        full(page)
    } else {
        PageStep::More(
            ContextPage { relationships: page.relationships.push(relationship), bytes: total, ..page },
        )
    }
}

/// The page where the next entry does not fit: an empty page is none.
pub open spec fn full(page: ContextPage) -> PageStep {
    if page.count() == 0 {
        PageStep::Failed(
            FailedPage {
                error: MemoryQueryErrorView::BudgetExceeded(MemoryTruncationReason::Bytes),
                requests: page.requests,
            },
        )
    } else {
        PageStep::Done(ContextPage { reason: Some(MemoryTruncationReason::Bytes), ..page })
    }
}

/// The page with one more candidate and, where it is wanted and can be read, its snippet. It is read
/// in the time that is left then.
pub open spec fn with_candidate(
    source: PageSource,
    page: ContextPage,
    candidate: ContextCandidateView,
    answers: Seq<u64>,
    replies: Seq<Result<MemoryContentResponseView, MemoryQueryErrorView>>,
) -> PageStep {
    let room = source.snippet_room(page);
    if source.include_snippets && source.has_content && room > 0 {
        let read = ContextPage {
            requests: page.requests.push(
                (
                    content_request(source.revision, candidate.entity, room),
                    shorter(answers[page.at], source.budget.max_duration_ms),
                ),
            ),
            at: page.at + 1,
            read: page.read + 1,
            ..page
        };
        match snippet_of(candidate.entity, replies[page.read]) {
            Ok(snippet) => with_item(
                source,
                read,
                MemoryContextItemView {
                    entity: candidate.entity,
                    snippet: Some(snippet),
                    selection_reasons: candidate.selection_reasons,
                },
            ),
            Err(error) => if error == MemoryQueryErrorView::BudgetExceeded(
                MemoryTruncationReason::Duration,
            ) {
                PageStep::Done(ContextPage { reason: Some(MemoryTruncationReason::Duration), ..read })
            } else {
                PageStep::Failed(FailedPage { error, requests: read.requests })
            },
        }
    } else {
        with_item(
            source,
            page,
            MemoryContextItemView {
                entity: candidate.entity,
                snippet: None,
                selection_reasons: candidate.selection_reasons,
            },
        )
    }
}

/// The page with the next entry, or its end: by the number of entries, by the time, by the size, or
/// because there is no more.
pub open spec fn next_entry(
    source: PageSource,
    page: ContextPage,
    answers: Seq<u64>,
    replies: Seq<Result<MemoryContentResponseView, MemoryQueryErrorView>>,
) -> PageStep {
    let next = source.offset + page.count();
    let asked = ContextPage { at: page.at + 1, ..page };
    if page.count() >= source.budget.max_results {
        PageStep::Done(
            ContextPage {
                reason: if next < source.total() {
                    Some(MemoryTruncationReason::Results)
                } else {
                    page.reason
                },
                ..page
            },
        )
    } else if is_up(answers[page.at]) {
        PageStep::Done(ContextPage { reason: Some(MemoryTruncationReason::Duration), ..asked })
    } else if next >= source.total() {
        PageStep::Done(asked)
    } else if next < source.assembly.candidates.len() {
        with_candidate(source, asked, source.assembly.candidates[next], answers, replies)
    } else {
        with_relationship(
            source,
            asked,
            source.assembly.relationships[next - source.assembly.candidates.len()],
        )
    }
}

/// The page, filled to its end.
#[verifier::opaque]
pub open spec fn filled(
    source: PageSource,
    page: ContextPage,
    answers: Seq<u64>,
    replies: Seq<Result<MemoryContentResponseView, MemoryQueryErrorView>>,
) -> Result<ContextPage, FailedPage>
    decreases source.total() - source.offset - page.count(),
{
    match next_entry(source, page, answers, replies) {
        PageStep::More(more) => filled(source, more, answers, replies),
        PageStep::Done(page) => Ok(page),
        PageStep::Failed(failed) => Err(failed),
    }
}

/// The page before its first entry.
pub open spec fn empty_page(
    reason: Option<MemoryTruncationReason>,
    at: int,
    read: int,
) -> ContextPage {
    ContextPage {
        items: Seq::empty(),
        relationships: Seq::empty(),
        bytes: 0,
        snippet_bytes: 0,
        reason,
        requests: Seq::empty(),
        at,
        read,
    }
}

/// A page of a context as it fills.
struct Page {
    items: Vec<MemoryContextItem>,
    relationships: Vec<MemoryRelationship>,
    bytes: u64,
    snippet_bytes: u64,
    reason: Option<MemoryTruncationReason>,
}

impl Page {
    spec fn model(
        self,
        requests: Seq<(MemoryContentRequestView, u64)>,
        at: int,
        read: int,
    ) -> ContextPage {
        ContextPage {
            items: self.items.deep_view(),
            relationships: self.relationships.deep_view(),
            bytes: self.bytes,
            snippet_bytes: self.snippet_bytes,
            reason: self.reason,
            requests,
            at,
            read,
        }
    }

    /// Whether the page holds entries from this position on, the entities before the relationships.
    spec fn is_within(
        self,
        assembly: ContextAssembly,
        from: Position,
        budget: EffectiveBudget,
    ) -> bool {
        &&& from.is_in(assembly)
        &&& self.items.len() <= assembly.candidates.len() - from.candidate
        &&& self.relationships.len() <= assembly.relationships.len() - from.relationship
        &&& self.relationships.len() > 0 ==> self.items.len() == assembly.candidates.len()
            - from.candidate
        &&& self.items.len() + self.relationships.len() <= budget.max_results
    }

    fn add_item(
        &mut self,
        item: MemoryContextItem,
        budget: EffectiveBudget,
        source: Ghost<PageSource>,
        requests: Ghost<Seq<(MemoryContentRequestView, u64)>>,
        at: Ghost<int>,
        read: Ghost<int>,
    ) -> (result: Result<bool, MemoryQueryError>)
        requires
            source@.budget == budget,
        ensures
            final(self).relationships == old(self).relationships,
            final(self).items.len() == old(self).items.len() + added(result),
            stepped(
                with_item(source@, old(self).model(requests@, at@, read@), item.deep_view()),
                result,
                final(self).model(requests@, at@, read@),
            ),
    {
        let size = serialized_len(&item);
        let total = saturating_sum(self.bytes, size);
        if total > budget.max_bytes {
            if self.items.len() == 0 && self.relationships.len() == 0 {
                return Err(MemoryQueryError::BudgetExceeded(MemoryTruncationReason::Bytes));
            }
            self.reason = Some(MemoryTruncationReason::Bytes);
            return Ok(false);
        }
        self.bytes = total;
        if let Some(snippet) = &item.snippet {
            self.snippet_bytes = saturating_sum(
                self.snippet_bytes,
                snippet.text.as_str().as_bytes().len() as u64,
            );
        }
        let ghost before = self.items.deep_view();
        self.items.push(item);
        assert(self.items.deep_view() =~= before.push(item.deep_view()));
        Ok(true)
    }

    fn add_relationship(
        &mut self,
        relationship: MemoryRelationship,
        budget: EffectiveBudget,
        source: Ghost<PageSource>,
        requests: Ghost<Seq<(MemoryContentRequestView, u64)>>,
        at: Ghost<int>,
        read: Ghost<int>,
    ) -> (result: Result<bool, MemoryQueryError>)
        requires
            source@.budget == budget,
        ensures
            final(self).items == old(self).items,
            final(self).relationships.len() == old(self).relationships.len() + added(result),
            stepped(
                with_relationship(
                    source@,
                    old(self).model(requests@, at@, read@),
                    relationship.deep_view(),
                ),
                result,
                final(self).model(requests@, at@, read@),
            ),
    {
        let size = serialized_len(&relationship);
        let total = saturating_sum(self.bytes, size);
        if total > budget.max_bytes {
            if self.items.len() == 0 && self.relationships.len() == 0 {
                return Err(MemoryQueryError::BudgetExceeded(MemoryTruncationReason::Bytes));
            }
            self.reason = Some(MemoryTruncationReason::Bytes);
            return Ok(false);
        }
        self.bytes = total;
        let ghost before = self.relationships.deep_view();
        self.relationships.push(relationship);
        assert(self.relationships.deep_view() =~= before.push(relationship.deep_view()));
        Ok(true)
    }
}

/// How many entries a step added.
spec fn added(result: Result<bool, MemoryQueryError>) -> int {
    if result == Ok::<bool, MemoryQueryError>(true) {
        1
    } else {
        0
    }
}

/// Whether a step came to this: more entries may follow, or none.
spec fn stepped(step: PageStep, result: Result<bool, MemoryQueryError>, page: ContextPage) -> bool {
    match step {
        PageStep::More(more) => result == Ok::<bool, MemoryQueryError>(true) && page == more,
        PageStep::Done(done) => result == Ok::<bool, MemoryQueryError>(false) && page == done,
        PageStep::Failed(failed) => result matches Err(found) && found.deep_view() == failed.error
            && page.requests == failed.requests,
    }
}

/// Where among the gathered entities and the relationships behind them a page starts.
#[derive(Clone, Copy)]
struct Position {
    candidate: usize,
    relationship: usize,
}

impl Position {
    spec fn is_in(self, assembly: ContextAssembly) -> bool {
        &&& self.candidate <= assembly.candidates.len()
        &&& self.relationship <= assembly.relationships.len()
        &&& self.relationship > 0 ==> self.candidate == assembly.candidates.len()
    }

    /// The position so many entries from the first; none behind the last.
    fn at(offset: u64, assembly: &ContextAssembly) -> (position: Option<Self>)
        ensures
            match position {
                Some(position) => position.is_in(*assembly) && position.candidate + position.relationship
                    == offset,
                None => offset > assembly.candidates.len() + assembly.relationships.len(),
            },
    {
        let candidates = assembly.candidates.len();
        if offset <= candidates as u64 {
            return Some(Position { candidate: offset as usize, relationship: 0 });
        }
        let behind = offset - candidates as u64;
        if behind <= assembly.relationships.len() as u64 {
            Some(Position { candidate: candidates, relationship: behind as usize })
        } else {
            None
        }
    }
}

/// What a page is filled from, with what was gathered.
spec fn page_source<C: MemoryContent>(
    assembly: ContextAssembly,
    from: Position,
    revision: MemoryRevision,
    budget: EffectiveBudget,
    include_snippets: bool,
    content: Option<C>,
) -> PageSource {
    PageSource {
        assembly: assembly.deep_view(),
        offset: from.candidate + from.relationship,
        revision: revision.deep_view(),
        budget,
        include_snippets,
        has_content: content is Some,
    }
}

fn add_candidate<C: MemoryContent, D: Deadline>(
    page: &mut Page,
    candidate: &ContextCandidate,
    revision: &MemoryRevision,
    budget: EffectiveBudget,
    include_snippets: bool,
    content: &mut Option<C>,
    deadline: &mut D,
    source: Ghost<PageSource>,
    requests: Ghost<Seq<(MemoryContentRequestView, u64)>>,
) -> (result: Result<bool, MemoryQueryError>)
    requires
        source@.revision == revision.deep_view(),
        source@.budget == budget,
        source@.include_snippets == include_snippets,
        source@.has_content == (*old(content)) is Some,
        begins(requests@, asked_of(*old(content))),
    ensures
        (*final(content)) is Some == (*old(content)) is Some,
        asked_within(*old(content), *final(content), budget.max_duration_ms),
        begins(said_by(*old(content)), said_by(*final(content))),
        begins(requests@, asked_of(*final(content))),
        begins(old(deadline).answers(), final(deadline).answers()),
        final(page).relationships == old(page).relationships,
        final(page).items.len() == old(page).items.len() + added(result),
        forall|
            all: Seq<u64>,
            said: Seq<Result<MemoryContentResponseView, MemoryQueryErrorView>>,
        |
            begins(final(deadline).answers(), all) && begins(said_by(*final(content)), said) ==> stepped(
                #[trigger] with_candidate(
                    source@,
                    old(page).model(
                        asked_of(*old(content)).skip(requests@.len() as int),
                        old(deadline).answers().len() as int,
                        said_by(*old(content)).len() as int,
                    ),
                    candidate.deep_view(),
                    all,
                    said,
                ),
                result,
                final(page).model(
                    asked_of(*final(content)).skip(requests@.len() as int),
                    final(deadline).answers().len() as int,
                    said_by(*final(content)).len() as int,
                ),
            ),
{
    let ghost answered = deadline.answers();
    let ghost asked_before = asked_of(*content);
    let ghost said_before = said_by(*content);
    let room = if budget.max_snippet_bytes > page.snippet_bytes {
        budget.max_snippet_bytes - page.snippet_bytes
    } else {
        0
    };
    let snippet = if include_snippets {
        match attach_snippet(
            revision,
            &candidate.entity,
            room,
            budget.max_duration_ms,
            content,
            deadline,
        ) {
            Ok(snippet) => snippet,
            Err(error) => {
                proof {
                    assert(begins(requests@, asked_of(*content)));
                    assert(asked_of(*content).skip(requests@.len() as int) =~= asked_before.skip(
                        requests@.len() as int,
                    ).push(
                        (
                            content_request(source@.revision, candidate.deep_view().entity, room),
                            shorter(deadline.answers().last(), budget.max_duration_ms),
                        ),
                    ));
                    assert forall|all: Seq<u64>|
                        begins(deadline.answers(), all) implies #[trigger] all[answered.len() as int]
                        == deadline.answers().last() by {
                        assert(all[answered.len() as int] == deadline.answers()[answered.len() as int]);
                    }
                    assert forall|said: Seq<Result<MemoryContentResponseView, MemoryQueryErrorView>>|
                        begins(said_by(*content), said) implies #[trigger] said[said_before.len() as int]
                        == said_by(*content).last() by {
                        assert(said[said_before.len() as int] == said_by(*content)[said_before.len() as int]);
                    }
                }
                match error {
                    MemoryQueryError::BudgetExceeded(MemoryTruncationReason::Duration) => {
                        page.reason = Some(MemoryTruncationReason::Duration);
                        return Ok(false);
                    },
                    error => {
                        return Err(error);
                    },
                }
            },
        }
    } else {
        None
    };
    let ghost read = include_snippets && source@.has_content && room > 0;
    proof {
        if read {
            assert(asked_of(*content).skip(requests@.len() as int) =~= asked_before.skip(
                requests@.len() as int,
            ).push(
                (
                    content_request(source@.revision, candidate.deep_view().entity, room),
                    shorter(deadline.answers().last(), budget.max_duration_ms),
                ),
            ));
            assert forall|all: Seq<u64>|
                begins(deadline.answers(), all) implies #[trigger] all[answered.len() as int]
                == deadline.answers().last() by {
                assert(all[answered.len() as int] == deadline.answers()[answered.len() as int]);
            }
            assert forall|said: Seq<Result<MemoryContentResponseView, MemoryQueryErrorView>>|
                begins(said_by(*content), said) implies #[trigger] said[said_before.len() as int]
                == said_by(*content).last() by {
                assert(said[said_before.len() as int] == said_by(*content)[said_before.len() as int]);
            }
        }
    }
    let item = MemoryContextItem {
        entity: candidate.entity.copied(),
        snippet,
        selection_reasons: candidate.selection_reasons.copied(),
    };
    page.add_item(
        item,
        budget,
        source,
        Ghost(asked_of(*content).skip(requests@.len() as int)),
        Ghost(deadline.answers().len() as int),
        Ghost(said_by(*content).len() as int),
    )
}

#[verifier::rlimit(60)]
fn add_next<C: MemoryContent, D: Deadline>(
    page: &mut Page,
    assembly: &ContextAssembly,
    from: Position,
    revision: &MemoryRevision,
    budget: EffectiveBudget,
    include_snippets: bool,
    content: &mut Option<C>,
    deadline: &mut D,
    requests: Ghost<Seq<(MemoryContentRequestView, u64)>>,
) -> (result: Result<bool, MemoryQueryError>)
    requires
        old(page).is_within(*assembly, from, budget),
        begins(requests@, asked_of(*old(content))),
    ensures
        final(page).is_within(*assembly, from, budget),
        (*final(content)) is Some == (*old(content)) is Some,
        asked_within(*old(content), *final(content), budget.max_duration_ms),
        begins(old(deadline).answers(), final(deadline).answers()),
        begins(said_by(*old(content)), said_by(*final(content))),
        begins(requests@, asked_of(*final(content))),
        forall|
            all: Seq<u64>,
            said: Seq<Result<MemoryContentResponseView, MemoryQueryErrorView>>,
        |
            begins(final(deadline).answers(), all) && begins(said_by(*final(content)), said) ==> stepped(
                #[trigger] next_entry(
                    page_source(*assembly, from, *revision, budget, include_snippets, *old(content)),
                    old(page).model(
                        asked_of(*old(content)).skip(requests@.len() as int),
                        old(deadline).answers().len() as int,
                        said_by(*old(content)).len() as int,
                    ),
                    all,
                    said,
                ),
                result,
                final(page).model(
                    asked_of(*final(content)).skip(requests@.len() as int),
                    final(deadline).answers().len() as int,
                    said_by(*final(content)).len() as int,
                ),
            ),
{
    let ghost source = page_source(*assembly, from, *revision, budget, include_snippets, *content);
    let ghost asked_from = deadline.answers().len() as int;
    let ghost asked_before = asked_of(*content);
    let ghost said_before = said_by(*content);
    let ghost before = *page;
    let count = page.items.len() as u64 + page.relationships.len() as u64;
    let more_candidates = page.items.len() < assembly.candidates.len() - from.candidate;
    let more_relationships = page.relationships.len() < assembly.relationships.len() - from.relationship;
    if count >= budget.max_results as u64 {
        if more_candidates || more_relationships {
            page.reason = Some(MemoryTruncationReason::Results);
        }
        return Ok(false);
    }
    let expired = deadline.expired();
    assert forall|all: Seq<u64>|
        begins(deadline.answers(), all) implies is_up(all[asked_from]) == expired by {
        assert(all[asked_from] == deadline.answers()[asked_from]);
    }
    if expired {
        page.reason = Some(MemoryTruncationReason::Duration);
        return Ok(false);
    }
    if !more_candidates && !more_relationships {
        return Ok(false);
    }
    if !more_candidates {
        let relationship = &assembly.relationships[from.relationship + page.relationships.len()];
        assert(source.assembly.relationships[from.relationship + page.relationships.len()]
            == relationship.deep_view());
        return page.add_relationship(
            relationship.copied(),
            budget,
            Ghost(source),
            Ghost(asked_before.skip(requests@.len() as int)),
            Ghost(asked_from + 1),
            Ghost(said_before.len() as int),
        );
    }
    let candidate = &assembly.candidates[from.candidate + page.items.len()];
    assert(source.assembly.candidates[from.candidate + page.items.len()] == candidate.deep_view());
    add_candidate(
        page,
        candidate,
        revision,
        budget,
        include_snippets,
        content,
        deadline,
        Ghost(source),
        requests,
    )
}

/// A page goes on as its next entry says.
proof fn page_goes_on(
    source: PageSource,
    page: ContextPage,
    answers: Seq<u64>,
    replies: Seq<Result<MemoryContentResponseView, MemoryQueryErrorView>>,
    result: Result<bool, MemoryQueryError>,
    after: ContextPage,
)
    requires
        stepped(next_entry(source, page, answers, replies), result, after),
    ensures
        filled(source, page, answers, replies) == went_on(source, answers, replies, result, after),
        result matches Ok(more) ==> after.count() == page.count() + if more {
            1int
        } else {
            0
        },
        result == Ok::<bool, MemoryQueryError>(true) ==> source.offset + page.count() < source.total(),
{
    reveal(filled);
}

/// What a page comes to after a step.
spec fn went_on(
    source: PageSource,
    answers: Seq<u64>,
    replies: Seq<Result<MemoryContentResponseView, MemoryQueryErrorView>>,
    result: Result<bool, MemoryQueryError>,
    after: ContextPage,
) -> Result<ContextPage, FailedPage> {
    match result {
        Ok(true) => filled(source, after, answers, replies),
        Ok(false) => Ok(after),
        Err(error) => Err(FailedPage { error: error.deep_view(), requests: after.requests }),
    }
}

#[verifier::rlimit(40)]
fn fill_page<C: MemoryContent, D: Deadline>(
    assembly: &ContextAssembly,
    from: Position,
    reason: Option<MemoryTruncationReason>,
    revision: &MemoryRevision,
    budget: EffectiveBudget,
    include_snippets: bool,
    content: &mut Option<C>,
    deadline: &mut D,
) -> (result: Result<Page, MemoryQueryError>)
    requires
        from.is_in(*assembly),
    ensures
        (*final(content)) is Some == (*old(content)) is Some,
        asked_within(*old(content), *final(content), budget.max_duration_ms),
        begins(old(deadline).answers(), final(deadline).answers()),
        begins(said_by(*old(content)), said_by(*final(content))),
        begins(asked_of(*old(content)), asked_of(*final(content))),
        result matches Ok(page) ==> page.is_within(*assembly, from, budget),
        forall|
            all: Seq<u64>,
            said: Seq<Result<MemoryContentResponseView, MemoryQueryErrorView>>,
        |
            begins(final(deadline).answers(), all) && begins(said_by(*final(content)), said)
                ==> #[trigger] filled(
                page_source(*assembly, from, *revision, budget, include_snippets, *old(content)),
                empty_page(
                    reason,
                    old(deadline).answers().len() as int,
                    said_by(*old(content)).len() as int,
                ),
                all,
                said,
            ) == match result {
                Ok(page) => Ok::<_, FailedPage>(
                    page.model(
                        asked_of(*final(content)).skip(asked_of(*old(content)).len() as int),
                        final(deadline).answers().len() as int,
                        said_by(*final(content)).len() as int,
                    ),
                ),
                Err(error) => Err::<ContextPage, _>(
                    FailedPage {
                        error: error.deep_view(),
                        requests: asked_of(*final(content)).skip(
                            asked_of(*old(content)).len() as int,
                        ),
                    },
                ),
            },
{
    let ghost source = page_source(*assembly, from, *revision, budget, include_snippets, *content);
    let ghost requests = asked_of(*content);
    let ghost empty = empty_page(
        reason,
        deadline.answers().len() as int,
        said_by(*content).len() as int,
    );
    let mut page = Page {
        items: Vec::new(),
        relationships: Vec::new(),
        bytes: 0,
        snippet_bytes: 0,
        reason,
    };
    assert(page.model(
        asked_of(*content).skip(requests.len() as int),
        deadline.answers().len() as int,
        said_by(*content).len() as int,
    ) =~~= empty);
    loop
        invariant
            page.is_within(*assembly, from, budget),
            source == page_source(
                *assembly,
                from,
                *revision,
                budget,
                include_snippets,
                *old(content),
            ),
            requests == asked_of(*old(content)),
            empty == empty_page(
                reason,
                old(deadline).answers().len() as int,
                said_by(*old(content)).len() as int,
            ),
            (*content) is Some == (*old(content)) is Some,
            asked_within(*old(content), *content, budget.max_duration_ms),
            begins(old(deadline).answers(), deadline.answers()),
            begins(said_by(*old(content)), said_by(*content)),
            begins(requests, asked_of(*content)),
            forall|
                all: Seq<u64>,
                said: Seq<Result<MemoryContentResponseView, MemoryQueryErrorView>>,
            |
                begins(deadline.answers(), all) && begins(said_by(*content), said) ==> #[trigger] filled(
                    source,
                    empty,
                    all,
                    said,
                ) == filled(
                    source,
                    page.model(
                        asked_of(*content).skip(requests.len() as int),
                        deadline.answers().len() as int,
                        said_by(*content).len() as int,
                    ),
                    all,
                    said,
                ),
        decreases
            assembly.candidates.len() - from.candidate + assembly.relationships.len() - from.relationship
                - page.items.len() - page.relationships.len(),
    {
        let ghost before = page.model(
            asked_of(*content).skip(requests.len() as int),
            deadline.answers().len() as int,
            said_by(*content).len() as int,
        );
        let ghost answered = deadline.answers();
        let ghost replied = said_by(*content);
        let result = add_next(
            &mut page,
            assembly,
            from,
            revision,
            budget,
            include_snippets,
            content,
            deadline,
            Ghost(requests),
        );
        proof {
            let after = page.model(
                asked_of(*content).skip(requests.len() as int),
                deadline.answers().len() as int,
                said_by(*content).len() as int,
            );
            assert forall|
                all: Seq<u64>,
                said: Seq<Result<MemoryContentResponseView, MemoryQueryErrorView>>,
            | begins(deadline.answers(), all) && begins(said_by(*content), said) implies #[trigger] filled(
                source,
                empty,
                all,
                said,
            ) == went_on(source, all, said, result, after) by {
                assert(begins(answered, all));
                assert(begins(replied, said));
                assert(filled(source, empty, all, said) == filled(source, before, all, said));
                page_goes_on(source, before, all, said, result, after);
            }
            page_goes_on(source, before, deadline.answers(), said_by(*content), result, after);
        }
        match result {
            Ok(true) => {},
            Ok(false) => {
                return Ok(page);
            },
            Err(error) => {
                return Err(error);
            },
        }
    }
}

/// What is read to answer a question for context: the entities of the revision, its own
/// relationships, the links of its link sets from the newest set on, and the diagnostics of its
/// build.
pub struct ContextRecords {
    pub entities: Result<Vec<MemoryEntity>, MemoryQueryError>,
    pub relationships: Result<Vec<MemoryRelationship>, MemoryQueryError>,
    pub links: Result<Vec<MemoryRelationship>, MemoryQueryError>,
    pub diagnostics: Result<Vec<MemoryDiagnostic>, MemoryQueryError>,
}

/// Nothing, because the time ran out.
pub open spec fn nothing_gathered() -> ContextAssemblyView {
    ContextAssemblyView {
        candidates: Seq::empty(),
        relationships: Seq::empty(),
        explored_depth: 0,
        truncation: Some(MemoryTruncationReason::Duration),
    }
}

/// What cannot be gathered after an error in reading.
pub open spec fn gathered_after(error: MemoryQueryErrorView, at: int) -> Result<
    (ContextAssemblyView, int),
    MemoryQueryErrorView,
> {
    if error == MemoryQueryErrorView::BudgetExceeded(MemoryTruncationReason::Duration) {
        Ok((nothing_gathered(), at))
    } else {
        Err(error)
    }
}

/// What a context is made of, given what was read, and how many answers of the deadline are known
/// then.
#[verifier::opaque]
pub open spec fn assembled(
    request: MemoryContextRequestView,
    budget: EffectiveBudget,
    entities: Result<Seq<MemoryEntityView>, MemoryQueryErrorView>,
    relationships: Result<Seq<MemoryRelationshipView>, MemoryQueryErrorView>,
    links: Result<Seq<MemoryRelationshipView>, MemoryQueryErrorView>,
    answers: Seq<u64>,
    at: int,
) -> Result<(ContextAssemblyView, int), MemoryQueryErrorView> {
    match (entities, relationships, links) {
        (Err(error), _, _) => gathered_after(error, at),
        (_, Err(error), _) => gathered_after(error, at),
        (_, _, Err(error)) => gathered_after(error, at),
        (Ok(entities), Ok(relationships), Ok(links)) => {
            let by_id = entities_by_id(entities);
            let merged = all_relationships(relationships, links);
            let reasons = seed_reasons(
                request.seeds,
                values_in_order(by_id),
                merged,
                request.policy,
            );
            let end = walked(reasons, by_id, merged, request.policy, budget, answers, at);
            Ok((gathered(end, by_id), end.at))
        },
    }
}

fn nothing_in_time() -> (assembly: ContextAssembly)
    ensures
        assembly.deep_view() == nothing_gathered(),
{
    let assembly = ContextAssembly {
        candidates: Vec::new(),
        relationships: Vec::new(),
        explored_depth: 0,
        truncation: Some(MemoryTruncationReason::Duration),
    };
    assert(assembly.deep_view().candidates =~= nothing_gathered().candidates);
    assert(assembly.deep_view().relationships =~= nothing_gathered().relationships);
    assembly
}

fn after_error(
    error: MemoryQueryError,
    at: Ghost<int>,
) -> (result: Result<ContextAssembly, MemoryQueryError>)
    ensures
        match result {
            Ok(assembly) => gathered_after(error.deep_view(), at@) == Ok::<_, MemoryQueryErrorView>(
                (assembly.deep_view(), at@),
            ),
            Err(error) => gathered_after(error.deep_view(), at@) == Err::<(ContextAssemblyView, int), _>(
                error.deep_view(),
            ) && gathered_after(error.deep_view(), at@) is Err,
        },
        result matches Err(found) ==> found == error,
{
    match error {
        MemoryQueryError::BudgetExceeded(MemoryTruncationReason::Duration) => Ok(nothing_in_time()),
        error => Err(error),
    }
}

/// Gathers what a context is made of, given what was read.
pub fn context_assembly<D: Deadline>(
    request: &MemoryContextRequest,
    budget: EffectiveBudget,
    entities: Result<Vec<MemoryEntity>, MemoryQueryError>,
    relationships: Result<Vec<MemoryRelationship>, MemoryQueryError>,
    links: Result<Vec<MemoryRelationship>, MemoryQueryError>,
    deadline: &mut D,
) -> (result: Result<ContextAssembly, MemoryQueryError>)
    ensures
        begins(old(deadline).answers(), final(deadline).answers()),
        forall|all: Seq<u64>|
            begins(final(deadline).answers(), all) ==> #[trigger] assembled(
                request.deep_view(),
                budget,
                outcome(entities),
                outcome(relationships),
                outcome(links),
                all,
                old(deadline).answers().len() as int,
            ) == match result {
                Ok(assembly) => Ok::<_, MemoryQueryErrorView>(
                    (assembly.deep_view(), final(deadline).answers().len() as int),
                ),
                Err(error) => Err::<(ContextAssemblyView, int), _>(error.deep_view()),
            },
{
    proof {
        reveal(assembled);
    }
    let ghost at = deadline.answers().len() as int;
    let entities = match entities {
        Ok(entities) => entities,
        Err(error) => {
            return after_error(error, Ghost(at));
        },
    };
    let relationships = match relationships {
        Ok(relationships) => relationships,
        Err(error) => {
            return after_error(error, Ghost(at));
        },
    };
    let links = match links {
        Ok(links) => links,
        Err(error) => {
            return after_error(error, Ghost(at));
        },
    };
    let by_id = entity_map(&entities);
    let merged = merge_relationships(&relationships, &links);
    let reasons = start_reasons(&request.seeds, by_id.values(), &merged, &request.policy);
    Ok(assemble(&reasons, &by_id, &merged, &request.policy, budget, deadline))
}

/// Why an answer is incomplete from the start: what was gathered is, or snippets are wanted that
/// cannot be read.
pub open spec fn first_reason(
    truncation: Option<MemoryTruncationReason>,
    include_snippets: bool,
    has_content: bool,
) -> Option<MemoryTruncationReason> {
    if include_snippets && !has_content && truncation is None {
        Some(MemoryTruncationReason::Capability)
    } else {
        truncation
    }
}

/// The answer made of a filled page.
#[verifier::opaque]
pub open spec fn context_response(
    scope: ResolvedScopeView,
    source: PageSource,
    page: ContextPage,
    diagnostics: Result<Seq<MemoryDiagnosticView>, MemoryQueryErrorView>,
    fingerprint: Seq<char>,
    offset: u64,
    answers: Seq<u64>,
) -> Result<MemoryContextResponseView, MemoryQueryErrorView> {
    match diagnostics_within(diagnostics, scope.budget.max_diagnostics, answers, page.at) {
        Err(error) => Err(error),
        Ok((kept, late, _)) => {
            let reason = if late {
                Some(MemoryTruncationReason::Duration)
            } else {
                page.reason
            };
            let has_more = source.offset + page.count() < source.total();
            let cursor = memory_cursor(
                "context"@,
                scope.revision.id,
                fingerprint,
                saturated(offset, page.count() as u64),
            );
            if is_continued(reason, page.count() as nat, has_more) && !is_bounded_text(
                cursor,
                MAX_ID_BYTES as nat,
                false,
            ) {
                Err(backend("query.cursor"@))
            } else {
                Ok(
                    MemoryContextResponseView {
                        wire_version: MEMORY_QUERY_WIRE_VERSION,
                        project: scope.revision.project,
                        revision_id: scope.revision.id,
                        freshness: scope.freshness,
                        diagnostics: kept,
                        page: page_model(
                            reason,
                            page.count() as nat,
                            page.bytes,
                            source.assembly.explored_depth,
                            has_more,
                            cursor,
                        ),
                        items: page.items,
                        relationships: page.relationships,
                    },
                )
            }
        },
    }
}

/// The answer to a question for context of what a scope reads.
#[verifier::opaque]
pub open spec fn context_answer_in(
    request: MemoryContextRequestView,
    scope: ResolvedScopeView,
    records: ContextRecords,
    has_content: bool,
    answers: Seq<u64>,
    at: int,
    replies: Seq<Result<MemoryContentResponseView, MemoryQueryErrorView>>,
    read: int,
) -> Result<MemoryContextResponseView, MemoryQueryErrorView> {
    let fingerprint = fingerprint_of(json_object(context_members(request, scope.budget.max_depth)));
    match page_offset(request.page.cursor, "context"@, scope.revision.id, fingerprint) {
        None => Err(MemoryQueryErrorView::StaleCursor),
        Some(offset) => match assembled(
            request,
            scope.budget,
            outcome(records.entities),
            outcome(records.relationships),
            outcome(records.links),
            answers,
            at,
        ) {
            Err(error) => Err(error),
            Ok((assembly, gathered_at)) => {
                let source = PageSource {
                    assembly,
                    offset: offset as int,
                    revision: scope.revision,
                    budget: scope.budget,
                    include_snippets: request.policy.include_snippets,
                    has_content,
                };
                let reason = first_reason(
                    assembly.truncation,
                    request.policy.include_snippets,
                    has_content,
                );
                if offset > source.total() {
                    Err(MemoryQueryErrorView::StaleCursor)
                } else {
                    match filled(source, empty_page(reason, gathered_at, read), answers, replies) {
                        Err(failed) => Err(failed.error),
                        Ok(page) => context_response(
                            scope,
                            source,
                            page,
                            outcome(records.diagnostics),
                            fingerprint,
                            offset,
                            answers,
                        ),
                    }
                }
            },
        },
    }
}

/// Whether a cursor that was made for a request on what a scope reads gives back its offset.
pub open spec fn own_cursor_is_read(request: MemoryContextRequestView, scope: ResolvedScopeView) -> bool {
    let fingerprint = fingerprint_of(json_object(context_members(request, scope.budget.max_depth)));
    forall|offset: u64|
        request.page.cursor == Some(
            #[trigger] memory_cursor("context"@, scope.revision.id, fingerprint, offset),
        ) ==> page_offset(request.page.cursor, "context"@, scope.revision.id, fingerprint) == Some(offset)
}

/// What is asked of the content to answer a question for context of what a scope reads.
#[verifier::opaque]
pub open spec fn snippets_asked_in(
    request: MemoryContextRequestView,
    scope: ResolvedScopeView,
    records: ContextRecords,
    has_content: bool,
    answers: Seq<u64>,
    at: int,
    replies: Seq<Result<MemoryContentResponseView, MemoryQueryErrorView>>,
    read: int,
) -> Seq<(MemoryContentRequestView, u64)> {
    let fingerprint = fingerprint_of(json_object(context_members(request, scope.budget.max_depth)));
    match page_offset(request.page.cursor, "context"@, scope.revision.id, fingerprint) {
        None => Seq::empty(),
        Some(offset) => match assembled(
            request,
            scope.budget,
            outcome(records.entities),
            outcome(records.relationships),
            outcome(records.links),
            answers,
            at,
        ) {
            Err(_) => Seq::empty(),
            Ok((assembly, gathered_at)) => {
                let source = PageSource {
                    assembly,
                    offset: offset as int,
                    revision: scope.revision,
                    budget: scope.budget,
                    include_snippets: request.policy.include_snippets,
                    has_content,
                };
                let reason = first_reason(
                    assembly.truncation,
                    request.policy.include_snippets,
                    has_content,
                );
                if offset > source.total() {
                    Seq::empty()
                } else {
                    match filled(source, empty_page(reason, gathered_at, read), answers, replies) {
                        Err(failed) => failed.requests,
                        Ok(page) => page.requests,
                    }
                }
            },
        },
    }
}

/// What is asked of the content to answer a question for context: the snippet of each entity of the
/// page, as far as there is room for it.
pub open spec fn snippets_asked(
    request: MemoryContextRequestView,
    limits: QueryLimitsConfigView,
    revision: Result<Option<MemoryRevisionView>, MemoryQueryErrorView>,
    records: ContextRecords,
    has_content: bool,
    answers: Seq<u64>,
    at: int,
    replies: Seq<Result<MemoryContentResponseView, MemoryQueryErrorView>>,
    read: int,
) -> Seq<(MemoryContentRequestView, u64)> {
    if request.seeds.len() == 0 || request.seeds.len() > MAX_FILTERS
        || request.policy.relationship_kinds.len() > MAX_FILTERS {
        Seq::empty()
    } else {
        match resolved(request.scope, limits, revision) {
            Err(_) => Seq::empty(),
            Ok(scope) => snippets_asked_in(
                request,
                scope,
                records,
                has_content,
                answers,
                at,
                replies,
                read,
            ),
        }
    }
}

/// The answer to a question for context, given what was read for it.
pub open spec fn context_answer(
    request: MemoryContextRequestView,
    limits: QueryLimitsConfigView,
    revision: Result<Option<MemoryRevisionView>, MemoryQueryErrorView>,
    records: ContextRecords,
    has_content: bool,
    answers: Seq<u64>,
    at: int,
    replies: Seq<Result<MemoryContentResponseView, MemoryQueryErrorView>>,
    read: int,
) -> Result<MemoryContextResponseView, MemoryQueryErrorView> {
    if request.seeds.len() == 0 || request.seeds.len() > MAX_FILTERS {
        Err(backend("context.seeds"@))
    } else if request.policy.relationship_kinds.len() > MAX_FILTERS {
        Err(backend("context.filters"@))
    } else {
        match resolved(request.scope, limits, revision) {
            Err(error) => Err(error),
            Ok(scope) => context_answer_in(
                request,
                scope,
                records,
                has_content,
                answers,
                at,
                replies,
                read,
            ),
        }
    }
}

/// Answers a question for context, given the revision that its scope selects and what was read of
/// that revision. Snippets are read as the answer is made.
pub fn context<C: MemoryContent, D: Deadline>(
    request: &MemoryContextRequest,
    limits: &QueryLimitsConfig,
    revision: Result<Option<MemoryRevision>, MemoryQueryError>,
    records: ContextRecords,
    content: &mut Option<C>,
    deadline: &mut D,
) -> (result: Result<MemoryContextResponse, MemoryQueryError>)
    ensures
        begins(old(deadline).answers(), final(deadline).answers()),
        begins(said_by(*old(content)), said_by(*final(content))),
        asked_within(
            *old(content),
            *final(content),
            effective(request.deep_view().scope.budget, limits.deep_view()).max_duration_ms,
        ),
        request.deep_view().seeds.len() > 0 && request.deep_view().seeds.len() <= MAX_FILTERS
            && request.deep_view().policy.relationship_kinds.len() <= MAX_FILTERS ==> match resolved(
            request.deep_view().scope,
            limits.deep_view(),
            outcome(revision),
        ) {
            Ok(scope) => own_cursor_is_read(request.deep_view(), scope),
            Err(_) => true,
        },
        asked_of(*final(content)) == asked_of(*old(content)) + snippets_asked(
            request.deep_view(),
            limits.deep_view(),
            outcome(revision),
            records,
            (*old(content)) is Some,
            final(deadline).answers(),
            old(deadline).answers().len() as int,
            said_by(*final(content)),
            said_by(*old(content)).len() as int,
        ),
        outcome(result) == context_answer(
            request.deep_view(),
            limits.deep_view(),
            outcome(revision),
            records,
            (*old(content)) is Some,
            final(deadline).answers(),
            old(deadline).answers().len() as int,
            said_by(*final(content)),
            said_by(*old(content)).len() as int,
        ),
{
    assert(asked_of(*content) =~= asked_of(*content) + Seq::empty());
    if request.seeds.len() == 0 || request.seeds.len() > MAX_FILTERS {
        proof {
            reveal_strlit("context.seeds");
        }
        return Err(invalid_request("context.seeds"));
    }
    if request.policy.relationship_kinds.len() > MAX_FILTERS {
        proof {
            reveal_strlit("context.filters");
        }
        return Err(invalid_request("context.filters"));
    }
    match resolve_scope(&request.scope, limits, revision) {
        Ok(scope) => context_in(request, scope, records, content, deadline),
        Err(error) => Err(error),
    }
}

fn context_in<C: MemoryContent, D: Deadline>(
    request: &MemoryContextRequest,
    scope: ResolvedScope,
    records: ContextRecords,
    content: &mut Option<C>,
    deadline: &mut D,
) -> (result: Result<MemoryContextResponse, MemoryQueryError>)
    ensures
        own_cursor_is_read(request.deep_view(), scope.deep_view()),
        begins(old(deadline).answers(), final(deadline).answers()),
        begins(said_by(*old(content)), said_by(*final(content))),
        asked_within(*old(content), *final(content), scope.budget.max_duration_ms),
        asked_of(*final(content)) == asked_of(*old(content)) + snippets_asked_in(
            request.deep_view(),
            scope.deep_view(),
            records,
            (*old(content)) is Some,
            final(deadline).answers(),
            old(deadline).answers().len() as int,
            said_by(*final(content)),
            said_by(*old(content)).len() as int,
        ),
        outcome(result) == context_answer_in(
            request.deep_view(),
            scope.deep_view(),
            records,
            (*old(content)) is Some,
            final(deadline).answers(),
            old(deadline).answers().len() as int,
            said_by(*final(content)),
            said_by(*old(content)).len() as int,
        ),
{
    proof {
        reveal(context_answer_in);
        reveal(snippets_asked_in);
        assert(asked_of(*content) =~= asked_of(*content) + Seq::empty());
    }
    let ghost asked = asked_of(*content);
    let fingerprint = context_fingerprint(request, scope.budget.max_depth);
    let offset = match decode_cursor(
        request.page.cursor.as_ref(),
        "context",
        &scope.revision.id,
        fingerprint.as_str(),
    ) {
        Ok(offset) => offset,
        Err(error) => {
            return Err(error);
        },
    };
    let assembly = match context_assembly(
        request,
        scope.budget,
        records.entities,
        records.relationships,
        records.links,
        deadline,
    ) {
        Ok(assembly) => assembly,
        Err(error) => {
            return Err(error);
        },
    };
    let from = match Position::at(offset, &assembly) {
        Some(from) => from,
        None => {
            return Err(MemoryQueryError::StaleCursor);
        },
    };
    let include_snippets = request.policy.include_snippets;
    let mut reason = assembly.truncation;
    if include_snippets && content.is_none() && reason.is_none() {
        reason = Some(MemoryTruncationReason::Capability);
    }
    let filling = fill_page(
        &assembly,
        from,
        reason,
        &scope.revision,
        scope.budget,
        include_snippets,
        content,
        deadline,
    );
    assert(asked_of(*content) =~= asked + asked_of(*content).skip(asked.len() as int));
    let page = match filling {
        Ok(page) => page,
        Err(error) => {
            return Err(error);
        },
    };
    let has_more = page.items.len() < assembly.candidates.len() - from.candidate
        || page.relationships.len() < assembly.relationships.len() - from.relationship;
    respond(scope, assembly.explored_depth, page, has_more, records.diagnostics, fingerprint, offset, deadline)
}

fn respond<D: Deadline>(
    scope: ResolvedScope,
    explored_depth: u32,
    page: Page,
    has_more: bool,
    diagnostics: Result<Vec<MemoryDiagnostic>, MemoryQueryError>,
    fingerprint: String,
    offset: u64,
    deadline: &mut D,
) -> (result: Result<MemoryContextResponse, MemoryQueryError>)
    requires
        page.items.len() + page.relationships.len() <= scope.budget.max_results,
    ensures
        begins(old(deadline).answers(), final(deadline).answers()),
        forall|source: PageSource, requests: Seq<(MemoryContentRequestView, u64)>, read: int|
            source.assembly.explored_depth == explored_depth && has_more == (source.offset
                + page.items.len() + page.relationships.len() < source.total()) ==> outcome(result)
                == #[trigger] context_response(
                scope.deep_view(),
                source,
                page.model(requests, old(deadline).answers().len() as int, read),
                outcome(diagnostics),
                fingerprint@,
                offset,
                final(deadline).answers(),
            ),
{
    proof {
        reveal(context_response);
    }
    let (kept, late) = match diagnostics_with_deadline(
        diagnostics,
        scope.budget.max_diagnostics,
        deadline,
    ) {
        Ok(read) => read,
        Err(error) => {
            return Err(error);
        },
    };
    let reason = if late {
        Some(MemoryTruncationReason::Duration)
    } else {
        page.reason
    };
    let returned = page.items.len() + page.relationships.len();
    match memory_page(
        reason,
        returned,
        page.bytes,
        explored_depth,
        has_more,
        "context",
        &scope.revision.id,
        fingerprint.as_str(),
        saturating_sum(offset, returned as u64),
    ) {
        Ok(info) => Ok(
            MemoryContextResponse {
                wire_version: MEMORY_QUERY_WIRE_VERSION,
                project: scope.revision.project,
                revision_id: scope.revision.id,
                freshness: scope.freshness,
                diagnostics: kept,
                page: info,
                items: page.items,
                relationships: page.relationships,
            },
        ),
        Err(error) => Err(error),
    }
}

/// Whether a page holds the entries from its offset on, one after the other, and no more of them, nor
/// of their bytes, than the budget allows.
pub open spec fn follows_entries(source: PageSource, page: ContextPage) -> bool {
    &&& page.count() <= source.budget.max_results
    &&& page.bytes <= source.budget.max_bytes
    &&& source.offset + page.count() <= source.total() || page.count() == 0
    &&& forall|i: int|
        0 <= i < page.items.len() ==> source.offset + i < source.assembly.candidates.len() && (
        #[trigger] page.items[i]).entity == source.assembly.candidates[source.offset + i].entity
            && page.items[i].selection_reasons == source.assembly.candidates[source.offset
            + i].selection_reasons
    &&& page.relationships.len() > 0 ==> source.offset + page.items.len()
        >= source.assembly.candidates.len()
    &&& forall|i: int|
        0 <= i < page.relationships.len() ==> #[trigger] page.relationships[i]
            == source.assembly.relationships[source.offset + page.items.len() + i
            - source.assembly.candidates.len()]
}

proof fn entry_follows(
    source: PageSource,
    page: ContextPage,
    answers: Seq<u64>,
    replies: Seq<Result<MemoryContentResponseView, MemoryQueryErrorView>>,
)
    requires
        0 <= source.offset,
        follows_entries(source, page),
    ensures
        match next_entry(source, page, answers, replies) {
            PageStep::More(more) => follows_entries(source, more) && more.count() == page.count() + 1
                && source.offset + page.count() < source.total(),
            PageStep::Done(done) => follows_entries(source, done) && (source.offset + done.count()
                < source.total() ==> done.reason is Some),
            PageStep::Failed(_) => true,
        },
{
    let next = source.offset + page.count();
    if let PageStep::More(more) = next_entry(source, page, answers, replies) {
        if next < source.assembly.candidates.len() {
            assert(page.relationships.len() == 0);
            assert forall|i: int| 0 <= i < more.items.len() implies source.offset + i
                < source.assembly.candidates.len() && (#[trigger] more.items[i]).entity
                == source.assembly.candidates[source.offset + i].entity
                && more.items[i].selection_reasons == source.assembly.candidates[source.offset
                + i].selection_reasons by {
                if i < page.items.len() {
                    assert(more.items[i] == page.items[i]);
                }
            }
        } else {
            assert forall|i: int| 0 <= i < more.relationships.len() implies #[trigger] more.relationships[i]
                == source.assembly.relationships[source.offset + more.items.len() + i
                - source.assembly.candidates.len()] by {
                if i < page.relationships.len() {
                    assert(more.relationships[i] == page.relationships[i]);
                }
            }
        }
    }
}

/// A page of a context holds the gathered entities from its offset on and, behind them, the
/// relationships, one after the other: so the next page, which starts where this one ends, neither
/// repeats an entry nor leaves one out. It keeps to its budget, and says why it ends wherever it
/// leaves an entry out.
pub proof fn context_pages_follow_the_entries(
    source: PageSource,
    page: ContextPage,
    answers: Seq<u64>,
    replies: Seq<Result<MemoryContentResponseView, MemoryQueryErrorView>>,
)
    requires
        0 <= source.offset,
        follows_entries(source, page),
    ensures
        filled(source, page, answers, replies) matches Ok(end) ==> follows_entries(source, end)
            && page.count() <= end.count() && (source.offset + end.count() < source.total()
            ==> end.reason is Some),
    decreases source.total() - source.offset - page.count(),
{
    reveal(filled);
    entry_follows(source, page, answers, replies);
    if let PageStep::More(more) = next_entry(source, page, answers, replies) {
        context_pages_follow_the_entries(source, more, answers, replies);
    }
}

/// Whether pages are those of one context from its first entry to its last: each starts where the one
/// before it ends.
pub open spec fn are_all_pages(source: PageSource, offsets: Seq<int>, pages: Seq<ContextPage>) -> bool {
    &&& pages.len() > 0
    &&& offsets.len() == pages.len() + 1
    &&& offsets[0] == 0
    &&& offsets.last() == source.total()
    &&& forall|i: int|
        0 <= i < pages.len() ==> follows_entries(
            PageSource { offset: offsets[i], ..source },
            #[trigger] pages[i],
        ) && offsets[i + 1] == offsets[i] + pages[i].count()
}

/// The page that holds an entry.
proof fn page_of_entry(source: PageSource, offsets: Seq<int>, pages: Seq<ContextPage>, entry: int, last: int) -> (
    at: int)
    requires
        are_all_pages(source, offsets, pages),
        0 <= entry < offsets[last],
        0 < last <= pages.len(),
    ensures
        0 <= at < last,
        offsets[at] <= entry < offsets[at] + pages[at].count(),
    decreases last,
{
    assert(offsets[last - 1 + 1] == offsets[last - 1] + pages[last - 1].count());
    if entry >= offsets[last - 1] {
        last - 1
    } else {
        page_of_entry(source, offsets, pages, entry, last - 1)
    }
}

/// Whether a relationship is on one of the pages.
pub open spec fn is_on_a_page(
    pages: Seq<ContextPage>,
    relationship: MemoryRelationshipView,
) -> bool {
    exists|p: int| 0 <= p < pages.len() && (#[trigger] pages[p]).relationships.contains(relationship)
}

/// Whether an entity is an item of one of the pages.
pub open spec fn is_item_of_a_page(pages: Seq<ContextPage>, entity: MemoryEntityView) -> bool {
    exists|p: int, i: int|
        0 <= p < pages.len() && 0 <= i < pages[p].items.len() && (#[trigger] pages[p].items[i]).entity
            == entity
}

/// All pages of one context together hold every gathered entity and every gathered relationship, and
/// nothing else: where each page starts where the one before it ends, and the last one ends with the last
/// entry.
pub proof fn all_pages_hold_every_entry(
    source: PageSource,
    offsets: Seq<int>,
    pages: Seq<ContextPage>,
)
    requires
        are_all_pages(source, offsets, pages),
    ensures
        forall|r: int|
            0 <= r < source.assembly.relationships.len() ==> is_on_a_page(
                pages,
                #[trigger] source.assembly.relationships[r],
            ),
        forall|c: int|
            0 <= c < source.assembly.candidates.len() ==> is_item_of_a_page(
                pages,
                (#[trigger] source.assembly.candidates[c]).entity,
            ),
        forall|p: int, i: int|
            0 <= p < pages.len() && 0 <= i < pages[p].relationships.len()
                ==> source.assembly.relationships.contains(#[trigger] pages[p].relationships[i]),
{
    let candidates = source.assembly.candidates;
    let relationships = source.assembly.relationships;
    let last = pages.len() as int;
    assert forall|r: int| 0 <= r < relationships.len() implies is_on_a_page(
        pages,
        #[trigger] relationships[r],
    ) by {
        let entry = candidates.len() + r;
        let p = page_of_entry(source, offsets, pages, entry, last);
        let page = pages[p];
        let here = PageSource { offset: offsets[p], ..source };
        assert(follows_entries(here, page));
        let i = entry - offsets[p] - page.items.len();
        if i < 0 {
            assert(page.items[entry - offsets[p]].entity == candidates[entry].entity);
        }
        assert(page.relationships[i] == relationships[r]);
        assert(pages[p].relationships.contains(relationships[r]));
    }
    assert forall|c: int| 0 <= c < candidates.len() implies is_item_of_a_page(
        pages,
        (#[trigger] candidates[c]).entity,
    ) by {
        let p = page_of_entry(source, offsets, pages, c, last);
        let page = pages[p];
        assert(follows_entries(PageSource { offset: offsets[p], ..source }, page));
        let i = c - offsets[p];
        if i >= page.items.len() {
            assert(page.relationships.len() > 0);
        }
        assert(pages[p].items[i].entity == candidates[c].entity);
    }
    assert forall|p: int, i: int|
        0 <= p < pages.len() && 0 <= i < pages[p].relationships.len() implies relationships.contains(
        #[trigger] pages[p].relationships[i],
    ) by {
        let page = pages[p];
        let here = PageSource { offset: offsets[p], ..source };
        assert(follows_entries(here, page));
        let at = offsets[p] + page.items.len() + i - candidates.len();
        assert(page.relationships[i] == relationships[at]);
        assert(0 <= at < relationships.len());
    }
}

}
