//! Searching a revision: how an entity matches, the order of the hits, and the page that is
//! returned.
use vstd::prelude::*;
use crate::budget::{backend, saturated, saturating_sum, EffectiveBudget};
use crate::cursor::{
    decode_cursor, is_continued, memory_cursor, memory_page, page_model, page_offset,
};
use crate::deadline::{begins, is_up, Deadline};
use crate::diagnostics::{
    diagnostic_code, MemoryDiagnostic, MemoryDiagnosticCode, MemoryDiagnosticView,
};
use crate::digest::{digest_of, text_digest};
use crate::domain::{
    MemoryEntity, MemoryEntityData, MemoryEntityDataView, MemoryEntityKind, MemoryEntityView,
    MemoryProvenance, MemoryRelationshipKind, MemoryRevision, MemoryRevisionView,
    MemorySourceCategory, MAX_ID_BYTES,
};
use crate::json::{
    byte_len, json_object, json_string, serialized_len, text_json, JsonObject, ToJson,
};
use crate::query::{
    MemoryQueryError, MemoryQueryErrorView, MemorySearchHit, MemorySearchHitView,
    MemorySearchMatchKind, MemorySearchRequest, MemorySearchRequestView, MemorySearchResponse,
    MemorySearchResponseView, MemoryTruncationReason,
};
use crate::record::{outcome, Record};
use crate::repository::{QueryLimitsConfig, QueryLimitsConfigView, Score, ScoreView};
use crate::scope::{
    diagnostics_with_deadline, diagnostics_within, invalid_request, resolve_scope, resolved,
    ResolvedScope, ResolvedScopeView,
};
use crate::sort::{
    dedup, deduplicated, insert_keyed, is_keyed, key_lt, keyed_stays_keyed, sort, sorted,
    with_keyed, Identified, SortKey, Sortable,
};
use crate::text::{
    contains_text, joined, lowercase, occurs_in, starts_with, to_lowercase, trim, trimmed,
};
use crate::value::is_bounded_text;
use crate::MEMORY_QUERY_WIRE_VERSION;

verus! {

/// How many filters of one sort a request may have.
pub const MAX_FILTERS: usize = 32;

/// What the fingerprints of requests start with.
pub open spec fn fingerprint_of(json: Seq<char>) -> Seq<char> {
    text_digest("ferrus.project-memory.cursor.v1\0"@ + json)
}

/// The fingerprint of a request in JSON.
pub fn fingerprint(json: String) -> (digest: String)
    ensures
        digest@ == fingerprint_of(json@),
{
    let text = joined("ferrus.project-memory.cursor.v1\0", json.as_str());
    digest_of(text.as_str())
}

/// Kinds of entities are in the order in which they are declared.
impl Sortable for MemoryEntityKind {
    open spec fn key(model: MemoryEntityKind) -> SortKey {
        SortKey { first: model.rank() as int, second: 0, text: Seq::empty(), third: 0, fourth: 0 }
    }

    fn before(&self, other: &Self) -> (before: bool) {
        self.place() < other.place()
    }
}

impl Identified for MemoryEntityKind {
    open spec fn identity(model: MemoryEntityKind) -> Seq<char> {
        model.name()
    }

    fn same_identity(&self, other: &Self) -> (same: bool) {
        self.as_str().to_owned() == other.as_str().to_owned()
    }
}

/// Categories are in the order in which they are declared.
impl Sortable for MemorySourceCategory {
    open spec fn key(model: MemorySourceCategory) -> SortKey {
        SortKey { first: model.rank() as int, second: 0, text: Seq::empty(), third: 0, fourth: 0 }
    }

    fn before(&self, other: &Self) -> (before: bool) {
        self.place() < other.place()
    }
}

impl Identified for MemorySourceCategory {
    open spec fn identity(model: MemorySourceCategory) -> Seq<char> {
        model.name()
    }

    fn same_identity(&self, other: &Self) -> (same: bool) {
        self.as_str().to_owned() == other.as_str().to_owned()
    }
}

/// Kinds of relationships are in the order in which they are declared.
impl Sortable for MemoryRelationshipKind {
    open spec fn key(model: MemoryRelationshipKind) -> SortKey {
        SortKey { first: model.rank() as int, second: 0, text: Seq::empty(), third: 0, fourth: 0 }
    }

    fn before(&self, other: &Self) -> (before: bool) {
        self.place() < other.place()
    }
}

impl Identified for MemoryRelationshipKind {
    open spec fn identity(model: MemoryRelationshipKind) -> Seq<char> {
        model.name()
    }

    fn same_identity(&self, other: &Self) -> (same: bool) {
        self.as_str().to_owned() == other.as_str().to_owned()
    }
}

/// The members of what the fingerprint of a search is made of.
pub open spec fn search_members(request: MemorySearchRequestView) -> Seq<(Seq<char>, Seq<char>)> {
    seq![
        ("text"@, json_string(lowercase(trimmed(request.text)))),
        (
            "entity_kinds"@,
            <Vec<MemoryEntityKind> as ToJson>::json(
                deduplicated::<MemoryEntityKind>(sorted::<MemoryEntityKind>(request.entity_kinds)),
            ),
        ),
        (
            "source_categories"@,
            <Vec<MemorySourceCategory> as ToJson>::json(
                deduplicated::<MemorySourceCategory>(
                    sorted::<MemorySourceCategory>(request.source_categories),
                ),
            ),
        ),
        ("marker"@, json_string("search"@)),
    ]
}

/// What tells two searches apart: their text but for case and surrounding space, and their filters
/// in whatever order.
pub fn search_fingerprint(request: &MemorySearchRequest) -> (digest: String)
    ensures
        digest@ == fingerprint_of(json_object(search_members(request.deep_view()))),
{
    let text = trim(request.text.as_str());
    let lower = to_lowercase(text.as_str());
    let kinds = sort(request.entity_kinds.copied());
    let categories = sort(request.source_categories.copied());
    let object = JsonObject::new()
        .member("text", text_json(lower.as_str()))
        .member("entity_kinds", dedup(&kinds).to_json())
        .member("source_categories", dedup(&categories).to_json())
        .member("marker", text_json("search"));
    assert(object.members() =~= search_members(request.deep_view()));
    fingerprint(object.finish())
}

/// The title of an entity that has one.
pub open spec fn title(data: MemoryEntityDataView) -> Option<Seq<char>> {
    match data {
        MemoryEntityDataView::Specification { title } => Some(title),
        MemoryEntityDataView::Milestone { title, .. } => Some(title),
        _ => None,
    }
}

/// The curated text of an entity that has one.
pub open spec fn curated_text(data: MemoryEntityDataView) -> Option<Seq<char>> {
    match data {
        MemoryEntityDataView::Outcome { text } => Some(text),
        MemoryEntityDataView::Decision { text } => Some(text),
        MemoryEntityDataView::Deviation { text } => Some(text),
        MemoryEntityDataView::FollowUpWork { text, .. } => Some(text),
        MemoryEntityDataView::ValidationEvidence { text, .. } => text,
        _ => None,
    }
}

/// The title of an entity that has one.
pub fn entity_title(entity: &MemoryEntity) -> (text: Option<&str>)
    ensures
        text.deep_view() == title(entity.deep_view().data),
{
    match &entity.data {
        MemoryEntityData::Specification { title } => Some(title.as_str()),
        MemoryEntityData::Milestone { title, .. } => Some(title.as_str()),
        _ => None,
    }
}

/// The curated text of an entity that has one.
pub fn entity_text(entity: &MemoryEntity) -> (result: Option<&str>)
    ensures
        result.deep_view() == curated_text(entity.deep_view().data),
{
    match &entity.data {
        MemoryEntityData::Outcome { text } => Some(text.as_str()),
        MemoryEntityData::Decision { text } => Some(text.as_str()),
        MemoryEntityData::Deviation { text } => Some(text.as_str()),
        MemoryEntityData::FollowUpWork { text, .. } => Some(text.as_str()),
        MemoryEntityData::ValidationEvidence { text: Some(text), .. } => Some(text.as_str()),
        _ => None,
    }
}

/// How an entity matches a text, without regard to case; the closest way counts.
pub open spec fn match_kind(
    entity: MemoryEntityView,
    raw_query: Seq<char>,
) -> Option<MemorySearchMatchKind> {
    let query = lowercase(trimmed(raw_query));
    let title = title(entity.data);
    let text = curated_text(entity.data);
    if lowercase(entity.id) == query {
        Some(MemorySearchMatchKind::ExactId)
    } else if title is Some && lowercase(title->0) == query {
        Some(MemorySearchMatchKind::ExactTitle)
    } else if title is Some && query.is_prefix_of(lowercase(title->0)) {
        Some(MemorySearchMatchKind::TitlePrefix)
    } else if title is Some && occurs_in(query, lowercase(title->0)) {
        Some(MemorySearchMatchKind::TitleContains)
    } else if text is Some && occurs_in(query, lowercase(text->0)) {
        Some(MemorySearchMatchKind::CuratedTextContains)
    } else if occurs_in(query, lowercase(<MemoryProvenance as ToJson>::json(entity.provenance))) {
        Some(MemorySearchMatchKind::ProvenanceReference)
    } else {
        None
    }
}

/// The score of a match, between 0.55 and 1.
pub open spec fn match_score(kind: MemorySearchMatchKind) -> ScoreView {
    match kind {
        MemorySearchMatchKind::ExactId => ScoreView { rank: 0xbff0_0000_0000_0000, text: "1.0"@ },
        MemorySearchMatchKind::ExactTitle => ScoreView {
            rank: 0xbfee_6666_6666_6666,
            text: "0.95"@,
        },
        MemorySearchMatchKind::TitlePrefix => ScoreView {
            rank: 0xbfeb_3333_3333_3333,
            text: "0.85"@,
        },
        MemorySearchMatchKind::TitleContains => ScoreView {
            rank: 0xbfe8_0000_0000_0000,
            text: "0.75"@,
        },
        MemorySearchMatchKind::CuratedTextContains => ScoreView {
            rank: 0xbfe4_cccc_cccc_cccd,
            text: "0.65"@,
        },
        MemorySearchMatchKind::ProvenanceReference => ScoreView {
            rank: 0xbfe1_9999_9999_999a,
            text: "0.55"@,
        },
    }
}

/// The closer match has the greater score.
pub proof fn closer_matches_score_higher(left: MemorySearchMatchKind, right: MemorySearchMatchKind)
    ensures
        (match_score(left).rank > match_score(right).rank) == (left.rank() < right.rank()),
{
}

/// Why a match was selected.
pub open spec fn match_reason(kind: MemorySearchMatchKind) -> Seq<char> {
    match kind {
        MemorySearchMatchKind::ExactId => "search.exactid"@,
        MemorySearchMatchKind::ExactTitle => "search.exacttitle"@,
        MemorySearchMatchKind::TitlePrefix => "search.titleprefix"@,
        MemorySearchMatchKind::TitleContains => "search.titlecontains"@,
        MemorySearchMatchKind::CuratedTextContains => "search.textcontains"@,
        MemorySearchMatchKind::ProvenanceReference => "search.provenance"@,
    }
}

/// The hit that an entity is for a text, if it is one.
pub open spec fn hit_of(
    entity: MemoryEntityView,
    raw_query: Seq<char>,
) -> Option<MemorySearchHitView> {
    match match_kind(entity, raw_query) {
        Some(kind) => Some(
            MemorySearchHitView {
                entity,
                match_kind: kind,
                score: match_score(kind),
                selection_reasons: Seq::empty().push(match_reason(kind)),
            },
        ),
        None => None,
    }
}

fn score_of(kind: MemorySearchMatchKind) -> (score: Score)
    ensures
        score.deep_view() == match_score(kind),
{
    match kind {
        MemorySearchMatchKind::ExactId => Score {
            rank: 0xbff0_0000_0000_0000,
            text: "1.0".to_owned(),
        },
        MemorySearchMatchKind::ExactTitle => Score {
            rank: 0xbfee_6666_6666_6666,
            text: "0.95".to_owned(),
        },
        MemorySearchMatchKind::TitlePrefix => Score {
            rank: 0xbfeb_3333_3333_3333,
            text: "0.85".to_owned(),
        },
        MemorySearchMatchKind::TitleContains => Score {
            rank: 0xbfe8_0000_0000_0000,
            text: "0.75".to_owned(),
        },
        MemorySearchMatchKind::CuratedTextContains => Score {
            rank: 0xbfe4_cccc_cccc_cccd,
            text: "0.65".to_owned(),
        },
        MemorySearchMatchKind::ProvenanceReference => Score {
            rank: 0xbfe1_9999_9999_999a,
            text: "0.55".to_owned(),
        },
    }
}

fn reason_of(kind: MemorySearchMatchKind) -> (reason: MemoryDiagnosticCode)
    ensures
        reason.deep_view() == match_reason(kind),
{
    proof {
        reveal_strlit("search.exactid");
        reveal_strlit("search.exacttitle");
        reveal_strlit("search.titleprefix");
        reveal_strlit("search.titlecontains");
        reveal_strlit("search.textcontains");
        reveal_strlit("search.provenance");
    }
    diagnostic_code(
        match kind {
            MemorySearchMatchKind::ExactId => "search.exactid",
            MemorySearchMatchKind::ExactTitle => "search.exacttitle",
            MemorySearchMatchKind::TitlePrefix => "search.titleprefix",
            MemorySearchMatchKind::TitleContains => "search.titlecontains",
            MemorySearchMatchKind::CuratedTextContains => "search.textcontains",
            MemorySearchMatchKind::ProvenanceReference => "search.provenance",
        },
    )
}

fn match_of(entity: &MemoryEntity, raw_query: &str) -> (kind: Option<MemorySearchMatchKind>)
    ensures
        kind == match_kind(entity.deep_view(), raw_query@),
{
    let trimmed_query = trim(raw_query);
    let query = to_lowercase(trimmed_query.as_str());
    if to_lowercase(entity.id.as_str()) == query {
        return Some(MemorySearchMatchKind::ExactId);
    }
    if let Some(title) = entity_title(entity) {
        let title = to_lowercase(title);
        if title == query {
            return Some(MemorySearchMatchKind::ExactTitle);
        }
        if starts_with(title.as_str(), query.as_str()) {
            return Some(MemorySearchMatchKind::TitlePrefix);
        }
        if contains_text(title.as_str(), query.as_str()) {
            return Some(MemorySearchMatchKind::TitleContains);
        }
    }
    if let Some(text) = entity_text(entity) {
        let text = to_lowercase(text);
        if contains_text(text.as_str(), query.as_str()) {
            return Some(MemorySearchMatchKind::CuratedTextContains);
        }
    }
    let provenance = entity.provenance.to_json();
    let provenance = to_lowercase(provenance.as_str());
    if contains_text(provenance.as_str(), query.as_str()) {
        Some(MemorySearchMatchKind::ProvenanceReference)
    } else {
        None
    }
}

/// The hit that an entity is for a text, if it is one.
pub fn memory_search_hit(entity: MemoryEntity, raw_query: &str) -> (hit: Option<MemorySearchHit>)
    ensures
        hit.deep_view() == hit_of(entity.deep_view(), raw_query@),
{
    match match_of(&entity, raw_query) {
        Some(kind) => {
            let mut selection_reasons: Vec<MemoryDiagnosticCode> = Vec::new();
            selection_reasons.push(reason_of(kind));
            assert(selection_reasons.deep_view() =~= Seq::empty().push(match_reason(kind)));
            Some(
                MemorySearchHit {
                    entity,
                    match_kind: kind,
                    score: score_of(kind),
                    selection_reasons,
                },
            )
        },
        None => None,
    }
}

/// Hits are ordered by their score, the greatest first, then by their kind, then by their id.
impl Sortable for MemorySearchHit {
    open spec fn key(model: MemorySearchHitView) -> SortKey {
        SortKey {
            first: -(model.score.rank as int),
            second: model.entity.data.kind().rank() as int,
            text: model.entity.id,
            third: 0,
            fourth: 0,
        }
    }

    fn before(&self, other: &Self) -> (before: bool) {
        let left = self.entity.data.kind().place();
        let right = other.entity.data.kind().place();
        if self.score.rank != other.score.rank {
            self.score.rank > other.score.rank
        } else if left != right {
            left < right
        } else {
            proof {
                crate::order::text_order_is_strict(self.entity.id.deep_view(), other.entity.id.deep_view());
            }
            crate::order::text_before(self.entity.id.as_str(), other.entity.id.as_str())
        }
    }
}

/// Whether the filters of a request let an entity through.
pub open spec fn is_admitted(entity: MemoryEntityView, request: MemorySearchRequestView) -> bool {
    &&& request.entity_kinds.len() == 0 || request.entity_kinds.contains(entity.data.kind())
    &&& request.source_categories.len() == 0 || request.source_categories.contains(
        entity.provenance.source_category,
    )
}

/// The hit that an entity is for a request, if it is one.
pub open spec fn requested_hit(
    entity: MemoryEntityView,
    request: MemorySearchRequestView,
) -> Option<MemorySearchHitView> {
    if is_admitted(entity, request) {
        hit_of(entity, request.text)
    } else {
        None
    }
}

fn contains_record<T: Record>(records: &Vec<T>, record: &T) -> (found: bool)
    ensures
        found == records.deep_view().contains(record.deep_view()),
{
    let mut at: usize = 0;
    while at < records.len()
        invariant
            at <= records.len(),
            forall|i: int| 0 <= i < at ==> records.deep_view()[i] != record.deep_view(),
        decreases records.len() - at,
    {
        if records[at].same(record) {
            assert(records.deep_view()[at as int] == record.deep_view());
            return true;
        }
        at += 1;
    }
    false
}

fn admits(request: &MemorySearchRequest, entity: &MemoryEntity) -> (admitted: bool)
    ensures
        admitted == is_admitted(entity.deep_view(), request.deep_view()),
{
    (request.entity_kinds.len() == 0 || contains_record(&request.entity_kinds, &entity.data.kind())) && (
    request.source_categories.len() == 0 || contains_record(
        &request.source_categories,
        &entity.provenance.source_category,
    ))
}

/// The hits among the entities from one on, added to those before it, whether the time ran out, and
/// how many answers of the deadline are known then. The deadline is asked at each entity, and once
/// more where the entity is a hit.
pub open spec fn ranked(
    entities: Seq<MemoryEntityView>,
    request: MemorySearchRequestView,
    from: int,
    hits: Seq<MemorySearchHitView>,
    answers: Seq<u64>,
    at: int,
) -> (Seq<MemorySearchHitView>, bool, int)
    decreases entities.len() - from,
{
    if from >= entities.len() {
        (hits, false, at)
    } else if is_up(answers[at]) {
        (hits, true, at + 1)
    } else {
        match requested_hit(entities[from], request) {
            None => ranked(entities, request, from + 1, hits, answers, at + 1),
            Some(hit) => if is_up(answers[at + 1]) {
                (hits, true, at + 2)
            } else {
                ranked(
                    entities,
                    request,
                    from + 1,
                    with_keyed::<MemorySearchHit>(hits, hit),
                    answers,
                    at + 2,
                )
            },
        }
    }
}

/// However the deadline answers, the hits stand in their order, and each of them is the hit that one
/// of the entities is for the request.
pub proof fn ranked_hits_are_ordered(
    entities: Seq<MemoryEntityView>,
    request: MemorySearchRequestView,
    from: int,
    hits: Seq<MemorySearchHitView>,
    answers: Seq<u64>,
    at: int,
)
    requires
        0 <= from,
        is_keyed::<MemorySearchHit>(hits),
    ensures
        is_keyed::<MemorySearchHit>(ranked(entities, request, from, hits, answers, at).0),
        forall|hit: MemorySearchHitView| #[trigger]
            ranked(entities, request, from, hits, answers, at).0.contains(hit) ==> hits.contains(hit)
                || is_hit_among(entities, request, hit),
    decreases entities.len() - from,
{
    if from < entities.len() && !is_up(answers[at]) {
        match requested_hit(entities[from], request) {
            None => ranked_hits_are_ordered(entities, request, from + 1, hits, answers, at + 1),
            Some(hit) => {
                keyed_stays_keyed::<MemorySearchHit>(hits, hit);
                assert(is_hit_among(entities, request, hit));
                if !is_up(answers[at + 1]) {
                    ranked_hits_are_ordered(
                        entities,
                        request,
                        from + 1,
                        with_keyed::<MemorySearchHit>(hits, hit),
                        answers,
                        at + 2,
                    );
                }
            },
        }
    }
}

/// Whether a hit is the one that some entity is for a request.
pub open spec fn is_hit_among(
    entities: Seq<MemoryEntityView>,
    request: MemorySearchRequestView,
    hit: MemorySearchHitView,
) -> bool {
    exists|i: int| 0 <= i < entities.len() && requested_hit(#[trigger] entities[i], request) == Some(hit)
}

/// The hits of a request in their order, and whether the time ran out before every entity was
/// looked at.
pub fn rank_memory_search_hits<D: Deadline>(
    entities: Vec<MemoryEntity>,
    request: &MemorySearchRequest,
    deadline: &mut D,
) -> (result: (Vec<MemorySearchHit>, bool))
    ensures
        begins(old(deadline).answers(), final(deadline).answers()),
        forall|all: Seq<u64>|
            #![trigger ranked(
                entities.deep_view(),
                request.deep_view(),
                0,
                Seq::empty(),
                all,
                old(deadline).answers().len() as int,
            )]
            begins(final(deadline).answers(), all) ==> ranked(
                entities.deep_view(),
                request.deep_view(),
                0,
                Seq::empty(),
                all,
                old(deadline).answers().len() as int,
            ) == (result.0.deep_view(), result.1, final(deadline).answers().len() as int),
{
    let ghost models = entities.deep_view();
    let ghost wanted = request.deep_view();
    let ghost start = deadline.answers();
    let mut hits: Vec<MemorySearchHit> = Vec::new();
    let mut at: usize = 0;
    assert(hits.deep_view() =~= Seq::<MemorySearchHitView>::empty());
    while at < entities.len()
        invariant
            at <= entities.len(),
            start == old(deadline).answers(),
            models == entities.deep_view(),
            wanted == request.deep_view(),
            begins(start, deadline.answers()),
            forall|all: Seq<u64>|
                #![trigger ranked(models, wanted, 0, Seq::empty(), all, start.len() as int)]
                begins(deadline.answers(), all) ==> ranked(
                    models,
                    wanted,
                    0,
                    Seq::empty(),
                    all,
                    start.len() as int,
                ) == ranked(
                    models,
                    wanted,
                    at as int,
                    hits.deep_view(),
                    all,
                    deadline.answers().len() as int,
                ),
        decreases entities.len() - at,
    {
        let ghost before = deadline.answers();
        assert(models[at as int] == entities@[at as int].deep_view());
        if deadline.expired() {
            return (hits, true);
        }
        let hit = if admits(request, &entities[at]) {
            memory_search_hit(entities[at].copied(), request.text.as_str())
        } else {
            None
        };
        assert(hit.deep_view() == requested_hit(models[at as int], wanted));
        assert forall|all: Seq<u64>| begins(deadline.answers(), all) implies begins(before, all) && !is_up(all[
            before.len() as int
        ]) by {
            assert(all[before.len() as int] == deadline.answers()[before.len() as int]);
        }
        if let Some(hit) = hit {
            let ghost middle = deadline.answers();
            if deadline.expired() {
                return (hits, true);
            }
            assert forall|all: Seq<u64>| begins(deadline.answers(), all) implies begins(middle, all) && !is_up(all[
                middle.len() as int
            ]) by {
                assert(all[middle.len() as int] == deadline.answers()[middle.len() as int]);
            }
            insert_keyed(&mut hits, hit);
        }
        at += 1;
    }
    (hits, false)
}

/// What a page takes of the hits: how many, their size, why it ends, and how many answers of the
/// deadline are known then.
pub struct SearchPage {
    pub count: int,
    pub bytes: u64,
    pub reason: Option<MemoryTruncationReason>,
    pub at: int,
}

/// The page of the hits, from one on behind those that it already holds: as many as fit in the
/// number, the time and the size of the budget. There is none where the first does not fit alone.
pub open spec fn search_page(
    hits: Seq<MemorySearchHitView>,
    count: int,
    bytes: u64,
    reason: Option<MemoryTruncationReason>,
    budget: EffectiveBudget,
    answers: Seq<u64>,
    at: int,
) -> Option<SearchPage>
    decreases hits.len() - count,
{
    if count >= hits.len() {
        Some(SearchPage { count, bytes, reason, at })
    } else if count >= budget.max_results {
        Some(SearchPage { count, bytes, reason: Some(MemoryTruncationReason::Results), at })
    } else if is_up(answers[at]) {
        Some(SearchPage { count, bytes, reason: Some(MemoryTruncationReason::Duration), at: at + 1 })
    } else {
        let size = byte_len(<MemorySearchHit as ToJson>::json(hits[count])) as u64;
        if saturated(bytes, size) > budget.max_bytes {
            if count == 0 {
                None
            } else {
                Some(
                    SearchPage { count, bytes, reason: Some(MemoryTruncationReason::Bytes), at: at + 1 },
                )
            }
        } else {
            search_page(hits, count + 1, saturated(bytes, size), reason, budget, answers, at + 1)
        }
    }
}

/// A page keeps to the budget: it holds no more hits and no more bytes than the budget allows, and
/// says why it ends wherever it leaves a hit out.
pub proof fn search_page_keeps_to_the_budget(
    hits: Seq<MemorySearchHitView>,
    count: int,
    bytes: u64,
    reason: Option<MemoryTruncationReason>,
    budget: EffectiveBudget,
    answers: Seq<u64>,
    at: int,
)
    requires
        0 <= count <= hits.len(),
        count <= budget.max_results,
        bytes <= budget.max_bytes,
    ensures
        match search_page(hits, count, bytes, reason, budget, answers, at) {
            Some(page) => {
                &&& count <= page.count <= hits.len()
                &&& page.count <= budget.max_results
                &&& page.bytes <= budget.max_bytes
                &&& page.count < hits.len() ==> page.reason is Some
                &&& page.count == hits.len() ==> page.reason == reason
            },
            None => count == 0,
        },
    decreases hits.len() - count,
{
    if count < hits.len() && count < budget.max_results && !is_up(answers[at]) {
        let size = byte_len(<MemorySearchHit as ToJson>::json(hits[count])) as u64;
        if saturated(bytes, size) <= budget.max_bytes {
            search_page_keeps_to_the_budget(
                hits,
                count + 1,
                saturated(bytes, size),
                reason,
                budget,
                answers,
                at + 1,
            );
        }
    }
}

/// That the time ran out, if it did.
pub open spec fn duration_reason(late: bool) -> Option<MemoryTruncationReason> {
    if late {
        Some(MemoryTruncationReason::Duration)
    } else {
        None
    }
}

/// The page of the hits: how many it holds, their size, and why it ends.
pub fn take_search_page<D: Deadline>(
    hits: &Vec<MemorySearchHit>,
    offset: usize,
    late: bool,
    budget: EffectiveBudget,
    deadline: &mut D,
) -> (result: Result<(Vec<MemorySearchHit>, u64, Option<MemoryTruncationReason>), MemoryQueryError>)
    requires
        offset <= hits.len(),
    ensures
        begins(old(deadline).answers(), final(deadline).answers()),
        forall|all: Seq<u64>|
            #![trigger search_page(
                hits.deep_view().skip(offset as int),
                0,
                0,
                duration_reason(late),
                budget,
                all,
                old(deadline).answers().len() as int,
            )]
            begins(final(deadline).answers(), all) ==> search_page(
                hits.deep_view().skip(offset as int),
                0,
                0,
                duration_reason(late),
                budget,
                all,
                old(deadline).answers().len() as int,
            ) == match result {
                Ok((returned, bytes, reason)) => Some(
                    SearchPage {
                        count: returned.len() as int,
                        bytes,
                        reason,
                        at: final(deadline).answers().len() as int,
                    },
                ),
                Err(_) => None,
            },
        match result {
            Ok((returned, _, _)) => returned.len() <= hits.len() - offset && returned.deep_view()
                == hits.deep_view().skip(offset as int).take(returned.len() as int),
            Err(error) => error.deep_view() == MemoryQueryErrorView::BudgetExceeded(
                MemoryTruncationReason::Bytes,
            ),
        },
{
    let ghost rest = hits.deep_view().skip(offset as int);
    let ghost start = deadline.answers();
    let reason: Option<MemoryTruncationReason> = if late {
        Some(MemoryTruncationReason::Duration)
    } else {
        None
    };
    let mut returned: Vec<MemorySearchHit> = Vec::new();
    let mut bytes: u64 = 0;
    assert(returned.deep_view() =~= rest.take(0));
    while returned.len() < hits.len() - offset
        invariant
            offset <= hits.len(),
            rest == hits.deep_view().skip(offset as int),
            start == old(deadline).answers(),
            begins(start, deadline.answers()),
            reason == duration_reason(late),
            returned.len() <= rest.len(),
            returned.deep_view() == rest.take(returned.len() as int),
            forall|all: Seq<u64>|
                #![trigger search_page(rest, 0, 0, reason, budget, all, start.len() as int)]
                begins(deadline.answers(), all) ==> search_page(
                    rest,
                    0,
                    0,
                    reason,
                    budget,
                    all,
                    start.len() as int,
                ) == search_page(
                    rest,
                    returned.len() as int,
                    bytes,
                    reason,
                    budget,
                    all,
                    deadline.answers().len() as int,
                ),
        decreases hits.len() - offset - returned.len(),
    {
        if returned.len() >= budget.max_results as usize {
            return Ok((returned, bytes, Some(MemoryTruncationReason::Results)));
        }
        let ghost before = deadline.answers();
        if deadline.expired() {
            return Ok((returned, bytes, Some(MemoryTruncationReason::Duration)));
        }
        assert forall|all: Seq<u64>| begins(deadline.answers(), all) implies begins(before, all) && !is_up(all[
            before.len() as int
        ]) by {
            assert(all[before.len() as int] == deadline.answers()[before.len() as int]);
        }
        let hit = &hits[offset + returned.len()];
        assert(rest[returned.len() as int] == hit.deep_view());
        let size = serialized_len(hit);
        let total = saturating_sum(bytes, size);
        if total > budget.max_bytes {
            if returned.len() == 0 {
                return Err(MemoryQueryError::BudgetExceeded(MemoryTruncationReason::Bytes));
            }
            return Ok((returned, bytes, Some(MemoryTruncationReason::Bytes)));
        }
        bytes = total;
        let ghost held = returned.deep_view();
        returned.push(hit.copied());
        assert(returned.deep_view() =~= held.push(hit.deep_view()));
        assert(held.push(hit.deep_view()) =~= rest.take(returned.len() as int));
    }
    Ok((returned, bytes, reason))
}

/// What was read, and whether the reading was cut off by the time.
pub open spec fn read_in_time<T>(read: Result<Seq<T>, MemoryQueryErrorView>) -> Result<
    (Seq<T>, bool),
    MemoryQueryErrorView,
> {
    match read {
        Ok(records) => Ok((records, false)),
        Err(error) => if error == MemoryQueryErrorView::BudgetExceeded(MemoryTruncationReason::Duration) {
            Ok((Seq::empty(), true))
        } else {
            Err(error)
        },
    }
}

/// What was read, and whether the reading was cut off by the time.
pub fn records_in_time<T: Record>(read: Result<Vec<T>, MemoryQueryError>) -> (result: Result<
    (Vec<T>, bool),
    MemoryQueryError,
>)
    ensures
        match result {
            Ok((records, late)) => read_in_time(outcome(read)) == Ok::<_, MemoryQueryErrorView>(
                (records.deep_view(), late),
            ),
            Err(error) => {
                read_in_time(outcome(read)) == Err::<(Seq<T::V>, bool), _>(error.deep_view())
            },
        },
{
    match read {
        Ok(records) => Ok((records, false)),
        Err(MemoryQueryError::BudgetExceeded(MemoryTruncationReason::Duration)) => {
            let none: Vec<T> = Vec::new();
            assert(none.deep_view() =~= Seq::<T::V>::empty());
            Ok((none, true))
        },
        Err(error) => Err(error),
    }
}

/// The answer to a search of what a scope reads.
#[verifier::opaque]
pub open spec fn search_answer_in(
    request: MemorySearchRequestView,
    scope: ResolvedScopeView,
    entities: Result<Seq<MemoryEntityView>, MemoryQueryErrorView>,
    diagnostics: Result<Seq<MemoryDiagnosticView>, MemoryQueryErrorView>,
    answers: Seq<u64>,
    at: int,
) -> Result<MemorySearchResponseView, MemoryQueryErrorView> {
    let fingerprint = fingerprint_of(json_object(search_members(request)));
    match page_offset(request.page.cursor, "search"@, scope.revision.id, fingerprint) {
        None => Err(MemoryQueryErrorView::StaleCursor),
        Some(offset) => match read_in_time(entities) {
            Err(error) => Err(error),
            Ok((entities, reading_late)) => {
                let (hits, ranking_late, ranked_at) = ranked(
                    entities,
                    request,
                    0,
                    Seq::empty(),
                    answers,
                    at,
                );
                if offset > hits.len() {
                    Err(MemoryQueryErrorView::StaleCursor)
                } else {
                    let rest = hits.skip(offset as int);
                    match search_page(
                        rest,
                        0,
                        0,
                        duration_reason(reading_late || ranking_late),
                        scope.budget,
                        answers,
                        ranked_at,
                    ) {
                        None => Err(
                            MemoryQueryErrorView::BudgetExceeded(MemoryTruncationReason::Bytes),
                        ),
                        Some(page) => match diagnostics_within(
                            diagnostics,
                            scope.budget.max_diagnostics,
                            answers,
                            page.at,
                        ) {
                            Err(error) => Err(error),
                            Ok((kept, diagnostics_late, _)) => {
                                let reason = if diagnostics_late {
                                    Some(MemoryTruncationReason::Duration)
                                } else {
                                    page.reason
                                };
                                let cursor = memory_cursor(
                                    "search"@,
                                    scope.revision.id,
                                    fingerprint,
                                    (offset + page.count) as u64,
                                );
                                let has_more = page.count < rest.len();
                                if is_continued(reason, page.count as nat, has_more)
                                    && !is_bounded_text(cursor, MAX_ID_BYTES as nat, false) {
                                    Err(backend("query.cursor"@))
                                } else {
                                    Ok(
                                        MemorySearchResponseView {
                                            wire_version: MEMORY_QUERY_WIRE_VERSION,
                                            project: scope.revision.project,
                                            revision_id: scope.revision.id,
                                            freshness: scope.freshness,
                                            diagnostics: kept,
                                            page: page_model(
                                                reason,
                                                page.count as nat,
                                                page.bytes,
                                                0,
                                                has_more,
                                                cursor,
                                            ),
                                            hits: rest.take(page.count),
                                        },
                                    )
                                }
                            },
                        },
                    }
                }
            },
        },
    }
}

/// The answer to a search, given what was read for it.
pub open spec fn search_answer(
    request: MemorySearchRequestView,
    limits: QueryLimitsConfigView,
    revision: Result<Option<MemoryRevisionView>, MemoryQueryErrorView>,
    entities: Result<Seq<MemoryEntityView>, MemoryQueryErrorView>,
    diagnostics: Result<Seq<MemoryDiagnosticView>, MemoryQueryErrorView>,
    answers: Seq<u64>,
    at: int,
) -> Result<MemorySearchResponseView, MemoryQueryErrorView> {
    if request.entity_kinds.len() > MAX_FILTERS || request.source_categories.len() > MAX_FILTERS {
        Err(backend("query.filters"@))
    } else {
        match resolved(request.scope, limits, revision) {
            Err(error) => Err(error),
            Ok(scope) => search_answer_in(request, scope, entities, diagnostics, answers, at),
        }
    }
}

/// Answers a search, given the revision that its scope selects, the entities of that revision and
/// the diagnostics of its build.
pub fn search<D: Deadline>(
    request: &MemorySearchRequest,
    limits: &QueryLimitsConfig,
    revision: Result<Option<MemoryRevision>, MemoryQueryError>,
    entities: Result<Vec<MemoryEntity>, MemoryQueryError>,
    diagnostics: Result<Vec<MemoryDiagnostic>, MemoryQueryError>,
    deadline: &mut D,
) -> (result: Result<MemorySearchResponse, MemoryQueryError>)
    ensures
        begins(old(deadline).answers(), final(deadline).answers()),
        outcome(result) == search_answer(
            request.deep_view(),
            limits.deep_view(),
            outcome(revision),
            outcome(entities),
            outcome(diagnostics),
            final(deadline).answers(),
            old(deadline).answers().len() as int,
        ),
{
    if request.entity_kinds.len() > MAX_FILTERS || request.source_categories.len() > MAX_FILTERS {
        proof {
            reveal_strlit("query.filters");
        }
        return Err(invalid_request("query.filters"));
    }
    match resolve_scope(&request.scope, limits, revision) {
        Ok(scope) => search_in(request, scope, entities, diagnostics, deadline),
        Err(error) => Err(error),
    }
}

fn search_in<D: Deadline>(
    request: &MemorySearchRequest,
    scope: ResolvedScope,
    entities: Result<Vec<MemoryEntity>, MemoryQueryError>,
    diagnostics: Result<Vec<MemoryDiagnostic>, MemoryQueryError>,
    deadline: &mut D,
) -> (result: Result<MemorySearchResponse, MemoryQueryError>)
    ensures
        begins(old(deadline).answers(), final(deadline).answers()),
        outcome(result) == search_answer_in(
            request.deep_view(),
            scope.deep_view(),
            outcome(entities),
            outcome(diagnostics),
            final(deadline).answers(),
            old(deadline).answers().len() as int,
        ),
{
    proof {
        reveal(search_answer_in);
    }
    let fingerprint = search_fingerprint(request);
    let offset = match decode_cursor(
        request.page.cursor.as_ref(),
        "search",
        &scope.revision.id,
        fingerprint.as_str(),
    ) {
        Ok(offset) => offset,
        Err(error) => {
            return Err(error);
        },
    };
    let (entities, reading_late) = match records_in_time(entities) {
        Ok(read) => read,
        Err(error) => {
            return Err(error);
        },
    };
    let (hits, ranking_late) = rank_memory_search_hits(entities, request, deadline);
    if offset > hits.len() as u64 {
        return Err(MemoryQueryError::StaleCursor);
    }
    let offset = offset as usize;
    let late = reading_late || ranking_late;
    let (returned, bytes, page_reason) = match take_search_page(&hits, offset, late, scope.budget, deadline) {
        Ok(page) => page,
        Err(error) => {
            return Err(error);
        },
    };
    let (kept, diagnostics_late) = match diagnostics_with_deadline(
        diagnostics,
        scope.budget.max_diagnostics,
        deadline,
    ) {
        Ok(read) => read,
        Err(error) => {
            return Err(error);
        },
    };
    let reason = if diagnostics_late {
        Some(MemoryTruncationReason::Duration)
    } else {
        page_reason
    };
    let has_more = returned.len() < hits.len() - offset;
    match memory_page(
        reason,
        returned.len(),
        bytes,
        0,
        has_more,
        "search",
        &scope.revision.id,
        fingerprint.as_str(),
        (offset + returned.len()) as u64,
    ) {
        Ok(page) => Ok(
            MemorySearchResponse {
                wire_version: MEMORY_QUERY_WIRE_VERSION,
                project: scope.revision.project,
                revision_id: scope.revision.id,
                freshness: scope.freshness,
                diagnostics: kept,
                page,
                hits: returned,
            },
        ),
        Err(error) => Err(error),
    }
}

/// All hits among some entities, in their order.
pub open spec fn all_hits(
    entities: Seq<MemoryEntityView>,
    request: MemorySearchRequestView,
    from: int,
    hits: Seq<MemorySearchHitView>,
) -> Seq<MemorySearchHitView>
    decreases entities.len() - from,
{
    if from >= entities.len() {
        hits
    } else {
        match requested_hit(entities[from], request) {
            None => all_hits(entities, request, from + 1, hits),
            Some(hit) => all_hits(
                entities,
                request,
                from + 1,
                with_keyed::<MemorySearchHit>(hits, hit),
            ),
        }
    }
}

proof fn ranking_in_time_finds_all(
    entities: Seq<MemoryEntityView>,
    request: MemorySearchRequestView,
    from: int,
    hits: Seq<MemorySearchHitView>,
    answers: Seq<u64>,
    at: int,
)
    ensures
        !ranked(entities, request, from, hits, answers, at).1 ==> ranked(
            entities,
            request,
            from,
            hits,
            answers,
            at,
        ).0 == all_hits(entities, request, from, hits),
    decreases entities.len() - from,
{
    if from < entities.len() && !is_up(answers[at]) {
        match requested_hit(entities[from], request) {
            None => ranking_in_time_finds_all(entities, request, from + 1, hits, answers, at + 1),
            Some(hit) => if !is_up(answers[at + 1]) {
                ranking_in_time_finds_all(
                    entities,
                    request,
                    from + 1,
                    with_keyed::<MemorySearchHit>(hits, hit),
                    answers,
                    at + 2,
                );
            },
        }
    }
}

/// An answer tells of the revision that was searched, holds no more hits and no more bytes than its
/// budget allows, and each hit is what one of the entities is for the request, one after the other in
/// their order.
pub proof fn answers_hold_hits_in_order(
    request: MemorySearchRequestView,
    scope: ResolvedScopeView,
    entities: Seq<MemoryEntityView>,
    diagnostics: Result<Seq<MemoryDiagnosticView>, MemoryQueryErrorView>,
    answers: Seq<u64>,
    at: int,
)
    ensures
        search_answer_in(request, scope, Ok(entities), diagnostics, answers, at) matches Ok(response)
            ==> {
            &&& response.revision_id == scope.revision.id
            &&& response.hits.len() <= scope.budget.max_results
            &&& response.page.truncation matches Some(truncation) ==> truncation.returned_bytes
                <= scope.budget.max_bytes
            &&& is_keyed::<MemorySearchHit>(response.hits)
            &&& forall|i: int|
                0 <= i < response.hits.len() ==> is_hit_among(
                    entities,
                    request,
                    #[trigger] response.hits[i],
                )
        },
{
    reveal(search_answer_in);
    if let Ok(response) = search_answer_in(request, scope, Ok(entities), diagnostics, answers, at) {
        let (hits, late, ranked_at) = ranked(entities, request, 0, Seq::empty(), answers, at);
        ranked_hits_are_ordered(entities, request, 0, Seq::empty(), answers, at);
        let fingerprint = fingerprint_of(json_object(search_members(request)));
        let offset = page_offset(request.page.cursor, "search"@, scope.revision.id, fingerprint)->0;
        let rest = hits.skip(offset as int);
        search_page_keeps_to_the_budget(
            rest,
            0,
            0,
            duration_reason(late),
            scope.budget,
            answers,
            ranked_at,
        );
        assert forall|i: int| 0 <= i < response.hits.len() implies is_hit_among(
            entities,
            request,
            #[trigger] response.hits[i],
        ) by {
            assert(hits[offset + i] == response.hits[i]);
            assert(hits.contains(response.hits[i]));
        }
        assert forall|i: int, j: int| 0 <= i < j < response.hits.len() implies key_lt(
            MemorySearchHit::key(#[trigger] response.hits[i]),
            MemorySearchHit::key(#[trigger] response.hits[j]),
        ) by {
            assert(hits[offset + i] == response.hits[i]);
            assert(hits[offset + j] == response.hits[j]);
        }
    }
}

/// The pages of a search follow each other: where neither search ran out of time, and the second
/// continues where the first ended, their hits together are what stands from the first page on among
/// all hits, and no hit is on both pages. The first page names the place behind its last hit, where it
/// says that it continues.
pub proof fn search_pages_follow_each_other(
    first: MemorySearchRequestView,
    second: MemorySearchRequestView,
    scope: ResolvedScopeView,
    entities: Seq<MemoryEntityView>,
    first_diagnostics: Result<Seq<MemoryDiagnosticView>, MemoryQueryErrorView>,
    second_diagnostics: Result<Seq<MemoryDiagnosticView>, MemoryQueryErrorView>,
    first_answers: Seq<u64>,
    second_answers: Seq<u64>,
    before: MemorySearchResponseView,
    after: MemorySearchResponseView,
    offset: u64,
    next: u64,
)
    requires
        next == offset + before.hits.len(),
        second == (MemorySearchRequestView { page: second.page, ..first }),
        search_answer_in(first, scope, Ok(entities), first_diagnostics, first_answers, 0) == Ok::<
            _,
            MemoryQueryErrorView,
        >(before),
        search_answer_in(second, scope, Ok(entities), second_diagnostics, second_answers, 0) == Ok::<
            _,
            MemoryQueryErrorView,
        >(after),
        !ranked(entities, first, 0, Seq::empty(), first_answers, 0).1,
        !ranked(entities, second, 0, Seq::empty(), second_answers, 0).1,
        page_offset(
            first.page.cursor,
            "search"@,
            scope.revision.id,
            fingerprint_of(json_object(search_members(first))),
        ) == Some(offset),
        page_offset(
            second.page.cursor,
            "search"@,
            scope.revision.id,
            fingerprint_of(json_object(search_members(second))),
        ) == Some(next),
    ensures
        ({
            let all = all_hits(entities, first, 0, Seq::empty());
            &&& offset + before.hits.len() + after.hits.len() <= all.len()
            &&& before.hits + after.hits == all.subrange(
                offset as int,
                offset + before.hits.len() + after.hits.len(),
            )
            &&& forall|i: int, j: int|
                0 <= i < before.hits.len() && 0 <= j < after.hits.len() ==> #[trigger] before.hits[i]
                    != #[trigger] after.hits[j]
            &&& before.page.next_cursor matches Some(cursor) ==> cursor == memory_cursor(
                "search"@,
                scope.revision.id,
                fingerprint_of(json_object(search_members(first))),
                next,
            )
        }),
{
    let all = all_hits(entities, first, 0, Seq::empty());
    same_hits(entities, first, second, 0, Seq::empty());
    page_is_a_part(first, scope, entities, first_diagnostics, first_answers, before, offset);
    page_is_a_part(second, scope, entities, second_diagnostics, second_answers, after, next);
    parts_follow(all, offset as int, before.hits, after.hits);
}

/// Two parts of the hits, one behind the other.
proof fn parts_follow(
    all: Seq<MemorySearchHitView>,
    offset: int,
    before: Seq<MemorySearchHitView>,
    after: Seq<MemorySearchHitView>,
)
    requires
        0 <= offset,
        offset + before.len() + after.len() <= all.len(),
        is_keyed::<MemorySearchHit>(all),
        before == all.subrange(offset, offset + before.len()),
        after == all.subrange(offset + before.len(), offset + before.len() + after.len()),
    ensures
        before + after == all.subrange(offset, offset + before.len() + after.len()),
        forall|i: int, j: int|
            0 <= i < before.len() && 0 <= j < after.len() ==> #[trigger] before[i]
                != #[trigger] after[j],
{
    assert(before + after =~= all.subrange(offset, offset + before.len() + after.len()));
    assert forall|i: int, j: int|
        0 <= i < before.len() && 0 <= j < after.len() implies #[trigger] before[i] != #[trigger] after[j] by {
        let place = offset + before.len() + j;
        assert(all[offset + i] == before[i]);
        assert(all[place] == after[j]);
        assert(key_lt(MemorySearchHit::key(all[offset + i]), MemorySearchHit::key(all[place])));
        crate::sort::key_order_is_total(
            MemorySearchHit::key(before[i]),
            MemorySearchHit::key(after[j]),
        );
    }
}

/// A page in time is a part of all hits.
proof fn page_is_a_part(
    request: MemorySearchRequestView,
    scope: ResolvedScopeView,
    entities: Seq<MemoryEntityView>,
    diagnostics: Result<Seq<MemoryDiagnosticView>, MemoryQueryErrorView>,
    answers: Seq<u64>,
    response: MemorySearchResponseView,
    offset: u64,
)
    requires
        search_answer_in(request, scope, Ok(entities), diagnostics, answers, 0) == Ok::<
            _,
            MemoryQueryErrorView,
        >(response),
        !ranked(entities, request, 0, Seq::empty(), answers, 0).1,
        page_offset(
            request.page.cursor,
            "search"@,
            scope.revision.id,
            fingerprint_of(json_object(search_members(request))),
        ) == Some(offset),
    ensures
        ({
            let all = all_hits(entities, request, 0, Seq::empty());
            let hits = response.hits;
            &&& offset + hits.len() <= all.len()
            &&& hits == all.subrange(offset as int, offset + hits.len())
            &&& is_keyed::<MemorySearchHit>(all)
            &&& response.page.next_cursor matches Some(cursor) ==> cursor == memory_cursor(
                "search"@,
                scope.revision.id,
                fingerprint_of(json_object(search_members(request))),
                (offset + hits.len()) as u64,
            )
        }),
{
    let all = all_hits(entities, request, 0, Seq::empty());
    let hits = response.hits;
    reveal(search_answer_in);
    ranking_in_time_finds_all(entities, request, 0, Seq::empty(), answers, 0);
    ranked_hits_are_ordered(entities, request, 0, Seq::empty(), answers, 0);
    let ranked_at = ranked(entities, request, 0, Seq::empty(), answers, 0).2;
    let rest = all.skip(offset as int);
    search_page_keeps_to_the_budget(
        rest,
        0,
        0,
        duration_reason(false),
        scope.budget,
        answers,
        ranked_at,
    );
    assert(hits =~= all.subrange(offset as int, offset + hits.len()));
}

/// Which page is asked for does not change what is found.
proof fn same_hits(
    entities: Seq<MemoryEntityView>,
    first: MemorySearchRequestView,
    second: MemorySearchRequestView,
    from: int,
    hits: Seq<MemorySearchHitView>,
)
    requires
        second == (MemorySearchRequestView { page: second.page, ..first }),
    ensures
        all_hits(entities, first, from, hits) == all_hits(entities, second, from, hits),
    decreases entities.len() - from,
{
    if from < entities.len() {
        assert(requested_hit(entities[from], first) == requested_hit(entities[from], second));
        match requested_hit(entities[from], first) {
            None => same_hits(entities, first, second, from + 1, hits),
            Some(hit) => same_hits(
                entities,
                first,
                second,
                from + 1,
                with_keyed::<MemorySearchHit>(hits, hit),
            ),
        }
    }
}

/// In time, every entity that is a hit for a request is found.
pub proof fn every_hit_is_found(
    entities: Seq<MemoryEntityView>,
    request: MemorySearchRequestView,
    at: int,
)
    requires
        0 <= at < entities.len(),
        requested_hit(entities[at], request) is Some,
    ensures
        exists|hit: MemorySearchHitView|
            all_hits(entities, request, 0, Seq::empty()).contains(hit) && #[trigger] MemorySearchHit::key(
                hit,
            ) == MemorySearchHit::key(requested_hit(entities[at], request)->0),
{
    found_from(entities, request, 0, Seq::empty(), at);
}

/// Whether a hit with a key is among others.
spec fn has_key(hits: Seq<MemorySearchHitView>, key: SortKey) -> bool {
    exists|hit: MemorySearchHitView| hits.contains(hit) && #[trigger] MemorySearchHit::key(hit) == key
}

proof fn found_from(
    entities: Seq<MemoryEntityView>,
    request: MemorySearchRequestView,
    from: int,
    hits: Seq<MemorySearchHitView>,
    at: int,
)
    requires
        0 <= from,
        0 <= at < entities.len(),
        requested_hit(entities[at], request) is Some,
        is_keyed::<MemorySearchHit>(hits),
        from > at ==> has_key(hits, MemorySearchHit::key(requested_hit(entities[at], request)->0)),
    ensures
        has_key(
            all_hits(entities, request, from, hits),
            MemorySearchHit::key(requested_hit(entities[at], request)->0),
        ),
    decreases entities.len() - from,
{
    let key = MemorySearchHit::key(requested_hit(entities[at], request)->0);
    if from < entities.len() {
        match requested_hit(entities[from], request) {
            None => found_from(entities, request, from + 1, hits, at),
            Some(hit) => {
                let next = with_keyed::<MemorySearchHit>(hits, hit);
                keyed_stays_keyed::<MemorySearchHit>(hits, hit);
                if from > at {
                    let known = choose|known: MemorySearchHitView|
                        hits.contains(known) && #[trigger] MemorySearchHit::key(known) == key;
                    if MemorySearchHit::key(hit) != key {
                        assert(next.contains(known));
                    } else {
                        assert(next.contains(hit));
                    }
                } else if from == at {
                    assert(next.contains(hit) && MemorySearchHit::key(hit) == key);
                }
                found_from(entities, request, from + 1, next, at);
            },
        }
    }
}

}
