//! Which entities a text finds, and how they are ranked.
use vstd::prelude::*;
use crate::domain::{MemoryEntityDataView, MemoryEntityKind, MemoryEntityView, MemoryProvenance};
use crate::json::ToJson;
use crate::order::text_lt;
use crate::query::{MemorySearchHit, MemorySearchHitView, MemorySearchMatchKind, MemorySearchRequestView};
use crate::search::{hit_of, match_kind, ranked, requested_hit};
use crate::sort::{is_keyed, keyed_stays_keyed, with_keyed, Sortable};
use crate::text::{lowercase, occurs_at, occurs_in, trimmed};

verus! {

/// Whether a text stands somewhere in another: behind something and before something.
pub open spec fn stands_in(part: Seq<char>, whole: Seq<char>) -> bool {
    exists|before: Seq<char>, behind: Seq<char>| whole == #[trigger] (before + part + behind)
}

/// A text occurs in another exactly where it stands in it.
pub proof fn occurring_is_standing(part: Seq<char>, whole: Seq<char>)
    ensures
        occurs_in(part, whole) == stands_in(part, whole),
{
    if occurs_in(part, whole) {
        let at = choose|at: int| occurs_at(part, whole, at);
        let before = whole.take(at);
        let behind = whole.skip(at + part.len());
        assert(whole =~= before + part + behind);
    }
    if stands_in(part, whole) {
        let (before, behind) = choose|before: Seq<char>, behind: Seq<char>|
            whole == #[trigger] (before + part + behind);
        assert(whole.subrange(before.len() as int, (before.len() + part.len()) as int) =~= part);
        assert(occurs_at(part, whole, before.len() as int));
    }
}

/// Whether an entity has a title: a specification or a milestone has one.
pub open spec fn is_titled(entity: MemoryEntityView, text: Seq<char>) -> bool {
    ||| (entity.data matches MemoryEntityDataView::Specification { title } && title == text)
    ||| (entity.data matches MemoryEntityDataView::Milestone { title, .. } && title == text)
}

/// Whether an entity has a curated text: an outcome, a decision, a deviation and follow-up work have one,
/// and evidence may have one.
pub open spec fn says(entity: MemoryEntityView, words: Seq<char>) -> bool {
    ||| (entity.data matches MemoryEntityDataView::Outcome { text } && text == words)
    ||| (entity.data matches MemoryEntityDataView::Decision { text } && text == words)
    ||| (entity.data matches MemoryEntityDataView::Deviation { text } && text == words)
    ||| (entity.data matches MemoryEntityDataView::FollowUpWork { text, .. } && text == words)
    ||| (entity.data matches MemoryEntityDataView::ValidationEvidence { text: Some(text), .. } && text == words)
}

/// An entity whose id is the text is a hit of the first rank, without regard to case and to the space
/// around the text.
pub proof fn ids_are_found(entity: MemoryEntityView, query: Seq<char>)
    ensures
        (hit_of(entity, query) matches Some(hit) && hit.match_kind == MemorySearchMatchKind::ExactId) == (lowercase(
            entity.id,
        ) == lowercase(trimmed(query))),
{
}

/// An entity whose title holds the text is a hit, wherever in the title the text stands: an exact one
/// where the title is the text, a prefix where the title begins with it, and else one that contains it,
/// with the score of its kind. Only the same id is closer.
pub proof fn titles_are_found(
    entity: MemoryEntityView,
    query: Seq<char>,
    title: Seq<char>,
    before: Seq<char>,
    behind: Seq<char>,
)
    requires
        is_titled(entity, title),
        lowercase(title) == before + lowercase(trimmed(query)) + behind,
    ensures
        hit_of(entity, query) is Some,
        hit_of(entity, query)->0.entity == entity,
        lowercase(entity.id) != lowercase(trimmed(query)) ==> {
            let hit = hit_of(entity, query)->0;
            &&& lowercase(title) == lowercase(trimmed(query)) ==> hit.match_kind == MemorySearchMatchKind::ExactTitle
                && hit.score.text == "0.95"@ && hit.selection_reasons == seq!["search.exacttitle"@]
            &&& lowercase(title) != lowercase(trimmed(query)) && before.len() == 0 ==> hit.match_kind
                == MemorySearchMatchKind::TitlePrefix && hit.score.text == "0.85"@ && hit.selection_reasons
                == seq!["search.titleprefix"@]
            &&& (forall|rest: Seq<char>| lowercase(title) != #[trigger] (lowercase(trimmed(query)) + rest))
                ==> hit.match_kind == MemorySearchMatchKind::TitleContains && hit.score.text == "0.75"@
                && hit.selection_reasons == seq!["search.titlecontains"@]
        },
{
    let wanted = lowercase(trimmed(query));
    occurring_is_standing(wanted, lowercase(title));
    assert(stands_in(wanted, lowercase(title)));
    if before.len() == 0 {
        assert(before + wanted + behind =~= wanted + behind);
        assert((wanted + behind).subrange(0, wanted.len() as int) =~= wanted);
        assert(wanted.is_prefix_of(lowercase(title)));
    }
    if wanted.is_prefix_of(lowercase(title)) {
        assert(lowercase(title) =~= wanted + lowercase(title).skip(wanted.len() as int));
    }
    assert(seq!["search.exacttitle"@] =~= Seq::empty().push("search.exacttitle"@));
    assert(seq!["search.titleprefix"@] =~= Seq::empty().push("search.titleprefix"@));
    assert(seq!["search.titlecontains"@] =~= Seq::empty().push("search.titlecontains"@));
}

/// An entity whose curated text holds the text of a search is a hit, whatever kind of entity it is.
pub proof fn curated_texts_are_found(
    entity: MemoryEntityView,
    query: Seq<char>,
    words: Seq<char>,
    before: Seq<char>,
    behind: Seq<char>,
)
    requires
        says(entity, words),
        lowercase(words) == before + lowercase(trimmed(query)) + behind,
    ensures
        hit_of(entity, query) is Some,
        hit_of(entity, query)->0.entity == entity,
        lowercase(entity.id) != lowercase(trimmed(query)) ==> hit_of(entity, query)->0.match_kind
            == MemorySearchMatchKind::CuratedTextContains && hit_of(entity, query)->0.score.text == "0.65"@
            && hit_of(entity, query)->0.selection_reasons == seq!["search.textcontains"@],
{
    occurring_is_standing(lowercase(trimmed(query)), lowercase(words));
    assert(stands_in(lowercase(trimmed(query)), lowercase(words)));
    assert(seq!["search.textcontains"@] =~= Seq::empty().push("search.textcontains"@));
}

/// An entity whose provenance holds the text is a hit, and where nothing else of it holds the text, it is
/// one for its provenance.
pub proof fn provenance_is_found(
    entity: MemoryEntityView,
    query: Seq<char>,
    before: Seq<char>,
    behind: Seq<char>,
)
    requires
        lowercase(<MemoryProvenance as ToJson>::json(entity.provenance)) == before + lowercase(trimmed(query))
            + behind,
    ensures
        hit_of(entity, query) is Some,
        hit_of(entity, query)->0.entity == entity,
        (lowercase(entity.id) != lowercase(trimmed(query)) && (forall|text: Seq<char>|
            #![trigger lowercase(text)]
            is_titled(entity, text) || says(entity, text) ==> !stands_in(
                lowercase(trimmed(query)),
                lowercase(text),
            ))) ==> hit_of(entity, query)->0.match_kind == MemorySearchMatchKind::ProvenanceReference
            && hit_of(entity, query)->0.score.text == "0.55"@ && hit_of(entity, query)->0.selection_reasons
            == seq!["search.provenance"@],
{
    let wanted = lowercase(trimmed(query));
    let json = lowercase(<MemoryProvenance as ToJson>::json(entity.provenance));
    occurring_is_standing(wanted, json);
    assert(stands_in(wanted, json));
    assert(seq!["search.provenance"@] =~= Seq::empty().push("search.provenance"@));
    if let Some(title) = crate::search::title(entity.data) {
        assert(is_titled(entity, title));
        occurring_is_standing(wanted, lowercase(title));
        prefix_stands(wanted, lowercase(title));
        itself_stands(lowercase(title));
    }
    if let Some(text) = crate::search::curated_text(entity.data) {
        assert(says(entity, text));
        occurring_is_standing(wanted, lowercase(text));
    }
}

proof fn prefix_stands(part: Seq<char>, whole: Seq<char>)
    ensures
        part.is_prefix_of(whole) ==> stands_in(part, whole),
{
    if part.is_prefix_of(whole) {
        let none = Seq::<char>::empty();
        let behind = whole.skip(part.len() as int);
        assert(whole =~= none + part + behind);
    }
}

proof fn itself_stands(whole: Seq<char>)
    ensures
        stands_in(whole, whole),
{
    let none = Seq::<char>::empty();
    assert(whole =~= none + whole + none);
}

/// An entity is a hit only where its id is the text or its title, its curated text or its provenance
/// holds it.
pub proof fn nothing_else_is_found(entity: MemoryEntityView, query: Seq<char>)
    requires
        hit_of(entity, query) is Some,
    ensures
        ({
            let wanted = lowercase(trimmed(query));
            ||| lowercase(entity.id) == wanted
            ||| exists|text: Seq<char>|
                (is_titled(entity, text) || says(entity, text)) && stands_in(wanted, #[trigger] lowercase(text))
            ||| stands_in(wanted, lowercase(<MemoryProvenance as ToJson>::json(entity.provenance)))
        }),
{
    let wanted = lowercase(trimmed(query));
    occurring_is_standing(wanted, lowercase(<MemoryProvenance as ToJson>::json(entity.provenance)));
    if let Some(title) = crate::search::title(entity.data) {
        assert(is_titled(entity, title));
        occurring_is_standing(wanted, lowercase(title));
        prefix_stands(wanted, lowercase(title));
        itself_stands(lowercase(title));
    }
    if let Some(text) = crate::search::curated_text(entity.data) {
        assert(says(entity, text));
        occurring_is_standing(wanted, lowercase(text));
    }
}

/// The kind of an entity is that of what it holds.
pub open spec fn is_of_kind(entity: MemoryEntityView, kind: MemoryEntityKind) -> bool {
    match kind {
        MemoryEntityKind::Specification => entity.data is Specification,
        MemoryEntityKind::Milestone => entity.data is Milestone,
        MemoryEntityKind::Outcome => entity.data is Outcome,
        MemoryEntityKind::Decision => entity.data is Decision,
        MemoryEntityKind::Deviation => entity.data is Deviation,
        MemoryEntityKind::ValidationEvidence => entity.data is ValidationEvidence,
        MemoryEntityKind::FollowUpWork => entity.data is FollowUpWork,
        MemoryEntityKind::ArchiveReference => entity.data is ArchiveReference,
        MemoryEntityKind::TaskReference => entity.data is TaskReference,
        MemoryEntityKind::RunReference => entity.data is RunReference,
    }
}

/// Filters leave an entity out exactly where some are given and none of them is its kind, or none of
/// them is the category of its source; and they change nothing about a hit.
pub proof fn filters_leave_out_other_kinds_and_categories(
    entity: MemoryEntityView,
    request: MemorySearchRequestView,
)
    ensures
        requested_hit(entity, request) is Some ==> requested_hit(entity, request) == hit_of(entity, request.text),
        requested_hit(entity, request) is Some == {
            &&& hit_of(entity, request.text) is Some
            &&& request.entity_kinds.len() > 0 ==> exists|i: int|
                0 <= i < request.entity_kinds.len() && is_of_kind(entity, #[trigger] request.entity_kinds[i])
            &&& request.source_categories.len() > 0 ==> exists|i: int|
                0 <= i < request.source_categories.len() && #[trigger] request.source_categories[i]
                    == entity.provenance.source_category
        },
{
    assert forall|i: int| 0 <= i < request.entity_kinds.len() implies is_of_kind(
        entity,
        #[trigger] request.entity_kinds[i],
    ) == (request.entity_kinds[i] == entity.data.kind()) by {}
    if request.entity_kinds.contains(entity.data.kind()) {
        let i = choose|i: int| 0 <= i < request.entity_kinds.len() && request.entity_kinds[i] == entity.data.kind();
        assert(is_of_kind(entity, request.entity_kinds[i]));
    }
}

/// Of two hits one after the other the first has the greater score; of two with one score, the kind
/// that is listed first; of two with one kind, the id that comes first.
pub proof fn hits_are_ordered_by_score_kind_and_id(hits: Seq<MemorySearchHitView>, i: int, j: int)
    requires
        is_keyed::<MemorySearchHit>(hits),
        0 <= i < j < hits.len(),
    ensures
        hits[i].score.rank >= hits[j].score.rank,
        hits[i].score.rank == hits[j].score.rank ==> hits[i].entity.data.kind().rank()
            <= hits[j].entity.data.kind().rank(),
        hits[i].score.rank == hits[j].score.rank && hits[i].entity.data.kind() == hits[j].entity.data.kind()
            ==> text_lt(hits[i].entity.id, hits[j].entity.id),
{
}

/// In time, every entity that is a hit, and that alone has its kind and id, is among the hits as it is.
pub proof fn hits_in_time_hold_every_entity_found(
    entities: Seq<MemoryEntityView>,
    request: MemorySearchRequestView,
    answers: Seq<u64>,
    at: int,
    place: int,
)
    requires
        0 <= place < entities.len(),
        requested_hit(entities[place], request) is Some,
        forall|i: int|
            0 <= i < entities.len() && i != place ==> (#[trigger] entities[i]).id != entities[place].id,
        !ranked(entities, request, 0, Seq::empty(), answers, at).1,
    ensures
        ranked(entities, request, 0, Seq::empty(), answers, at).0.contains(
            requested_hit(entities[place], request)->0,
        ),
{
    ranking_holds(entities, request, 0, Seq::empty(), answers, at, place);
}

proof fn ranking_holds(
    entities: Seq<MemoryEntityView>,
    request: MemorySearchRequestView,
    from: int,
    hits: Seq<MemorySearchHitView>,
    answers: Seq<u64>,
    at: int,
    place: int,
)
    requires
        0 <= from,
        0 <= place < entities.len(),
        requested_hit(entities[place], request) is Some,
        forall|i: int|
            0 <= i < entities.len() && i != place ==> (#[trigger] entities[i]).id != entities[place].id,
        is_keyed::<MemorySearchHit>(hits),
        from > place ==> hits.contains(requested_hit(entities[place], request)->0),
        !ranked(entities, request, from, hits, answers, at).1,
    ensures
        ranked(entities, request, from, hits, answers, at).0.contains(requested_hit(entities[place], request)->0),
    decreases entities.len() - from,
{
    let wanted = requested_hit(entities[place], request)->0;
    if from < entities.len() {
        match requested_hit(entities[from], request) {
            None => ranking_holds(entities, request, from + 1, hits, answers, at + 1, place),
            Some(hit) => {
                let next = with_keyed::<MemorySearchHit>(hits, hit);
                keyed_stays_keyed::<MemorySearchHit>(hits, hit);
                if from > place {
                    assert(entities[from].id != entities[place].id);
                    assert(MemorySearchHit::key(hit) != MemorySearchHit::key(wanted));
                }
                ranking_holds(entities, request, from + 1, next, answers, at + 2, place);
            },
        }
    }
}

}
