//! How the size of a federated answer grows with what it holds.
use vstd::prelude::*;
use crate::deadline::is_up;
use crate::cursor::{
    cursor_token, federated_page_model, federation_cursor, FederationCursorPayloadView, CURSOR_VERSION,
};
use crate::digest::{hex_text_has_hex_digits, is_hex_digit};
use crate::federation::fitting::{
    context_paged, context_settled, context_size, items_cut, items_fit, items_fitted, search_cut,
    search_fit, search_fitted, search_paged, search_settled, search_size, stating, too_large,
    PagePlaceView, MAX_SIZE_ROUNDS,
};
use crate::federation::{
    FederatedContextItem, FederatedContextItemView, FederatedContextResponse,
    FederatedContextResponseView, FederatedPageInfo, FederatedPageInfoView, FederatedSearchResponse,
    FederatedSearchResponseView, FederatedSearchResult, FederatedSearchResultView,
};
use crate::json::{
    byte_len, json_char, json_items, json_member, json_members, json_object, json_string, ToJson,
};
use crate::query::MemoryTruncationReason;
use crate::text::{decimal, decimal_is_ascii, greater_numbers_are_no_shorter, hex_text};

verus! {

proof fn lengths_add(first: Seq<char>, second: Seq<char>)
    ensures
        byte_len(first + second) == byte_len(first) + byte_len(second),
    decreases first.len(),
{
    if first.len() == 0 {
        assert(first + second =~= second);
    } else {
        assert((first + second).drop_first() =~= first.drop_first() + second);
        lengths_add(first.drop_first(), second);
    }
}

/// Texts that are no shorter are no shorter with commas between them.
proof fn items_widen(first: Seq<Seq<char>>, second: Seq<Seq<char>>)
    requires
        first.len() == second.len(),
        forall|i: int| 0 <= i < first.len() ==> byte_len(#[trigger] first[i]) <= byte_len(second[i]),
    ensures
        byte_len(json_items(first)) <= byte_len(json_items(second)),
    decreases first.len(),
{
    if first.len() > 1 {
        items_widen(first.drop_last(), second.drop_last());
        lengths_add(json_items(first.drop_last()), ","@);
        lengths_add(json_items(first.drop_last()) + ","@, first.last());
        lengths_add(json_items(second.drop_last()), ","@);
        lengths_add(json_items(second.drop_last()) + ","@, second.last());
    }
}

proof fn more_items_widen(items: Seq<Seq<char>>, count: int)
    requires
        0 <= count <= items.len(),
    ensures
        byte_len(json_items(items.take(count))) <= byte_len(json_items(items)),
    decreases items.len(),
{
    if count == items.len() {
        assert(items.take(count) =~= items);
    } else {
        more_items_widen(items.drop_last(), count);
        assert(items.drop_last().take(count) =~= items.take(count));
        if items.len() > 1 {
            lengths_add(json_items(items.drop_last()), ","@);
            lengths_add(json_items(items.drop_last()) + ","@, items.last());
        }
    }
}

proof fn enclosed(open: Seq<char>, inner: Seq<char>, close: Seq<char>)
    ensures
        byte_len(open + inner + close) == byte_len(open) + byte_len(inner) + byte_len(close),
{
    lengths_add(open, inner);
    lengths_add(open + inner, close);
}

/// Whether two lists hold the same names, and under each the second no shorter a value.
spec fn are_wider(
    first: Seq<(Seq<char>, Seq<char>)>,
    second: Seq<(Seq<char>, Seq<char>)>,
) -> bool {
    &&& first.len() == second.len()
    &&& forall|i: int|
        0 <= i < first.len() ==> (#[trigger] first[i]).0 == second[i].0 && byte_len(first[i].1) <= byte_len(
            second[i].1,
        )
}

proof fn objects_widen(first: Seq<(Seq<char>, Seq<char>)>, second: Seq<(Seq<char>, Seq<char>)>)
    requires
        are_wider(first, second),
    ensures
        byte_len(json_object(first)) <= byte_len(json_object(second)),
{
    let left = json_members(first);
    let right = json_members(second);
    assert forall|i: int| 0 <= i < left.len() implies byte_len(#[trigger] left[i]) <= byte_len(right[i]) by {
        enclosed(json_string(first[i].0), ":"@, first[i].1);
        enclosed(json_string(second[i].0), ":"@, second[i].1);
        assert(left[i] == json_member(first[i]));
        assert(right[i] == json_member(second[i]));
    }
    items_widen(left, right);
    enclosed("{"@, json_items(left), "}"@);
    enclosed("{"@, json_items(right), "}"@);
}

proof fn numbers_widen(smaller: nat, greater: nat)
    requires
        smaller <= greater,
    ensures
        byte_len(decimal(smaller)) <= byte_len(decimal(greater)),
{
    decimal_is_ascii(smaller);
    decimal_is_ascii(greater);
    vstd::utf8::is_ascii_chars_encode_utf8(decimal(smaller));
    vstd::utf8::is_ascii_chars_encode_utf8(decimal(greater));
    greater_numbers_are_no_shorter(smaller, greater);
}

/// A text without characters that are escaped stands in quotes as it is.
proof fn plain_texts_are_quoted(text: Seq<char>)
    requires
        forall|i: int| 0 <= i < text.len() ==> json_char(#[trigger] text[i]) == seq![text[i]],
    ensures
        text.map_values(|c: char| json_char(c)).flatten() == text,
    decreases text.len(),
{
    let written = text.map_values(|c: char| json_char(c));
    if text.len() > 0 {
        plain_texts_are_quoted(text.drop_first());
        assert(written.drop_first() =~= text.drop_first().map_values(|c: char| json_char(c)));
        assert(written.first() == seq![text[0]]);
        assert(written.flatten() =~= text);
    } else {
        assert(written.flatten() =~= text);
    }
}

proof fn token_len(json: Seq<char>)
    ensures
        byte_len(json_string(cursor_token(json))) == "cursor:"@.len() + 2 * byte_len(json) + 2,
{
    let bytes = vstd::utf8::encode_utf8(json);
    let token = cursor_token(json);
    hex_text_has_hex_digits(bytes);
    reveal_strlit("cursor:");
    assert forall|i: int| 0 <= i < token.len() implies json_char(#[trigger] token[i]) == seq![token[i]] && token[i]
        <= '\u{7f}' by {
        if i >= "cursor:"@.len() {
            assert(is_hex_digit(hex_text(bytes)[i - "cursor:"@.len()]));
        }
    }
    plain_texts_are_quoted(token);
    reveal(json_string);
    let literal = json_string(token);
    assert(literal =~= seq!['"'] + token + seq!['"']);
    assert(vstd::utf8::is_ascii_chars(literal));
    vstd::utf8::is_ascii_chars_encode_utf8(literal);
}

proof fn cursors_widen(operation: Seq<char>, place: PagePlaceView, fewer: int, more: int)
    requires
        0 <= fewer <= more <= u64::MAX,
    ensures
        ({
            let first = federation_cursor(operation, place.fingerprint, place.revision_key, fewer as u64);
            let second = federation_cursor(operation, place.fingerprint, place.revision_key, more as u64);
            byte_len(json_string(first)) <= byte_len(json_string(second))
        }),
{
    let first = FederationCursorPayloadView {
        version: CURSOR_VERSION,
        operation,
        fingerprint: place.fingerprint,
        revision_key: place.revision_key,
        offset: fewer as u64,
    };
    let second = FederationCursorPayloadView { offset: more as u64, ..first };
    numbers_widen(fewer as nat, more as nat);
    assert(are_wider(first.members(), second.members()));
    objects_widen(first.members(), second.members());
    token_len(json_object(first.members()));
    token_len(json_object(second.members()));
}

/// The answer with the first so many of its results, stating a size.
pub open spec fn cut_stating(
    response: FederatedSearchResponseView,
    count: int,
    place: PagePlaceView,
    bytes: u64,
) -> FederatedSearchResponseView {
    let page = federated_page_model(
        Some(MemoryTruncationReason::Bytes),
        count as nat,
        0,
        0,
        place.offset + count < place.total,
        federation_cursor(
            "search"@,
            place.fingerprint,
            place.revision_key,
            (place.offset + count) as u64,
        ),
    );
    FederatedSearchResponseView {
        results: response.results.take(count),
        page: stating(page, bytes),
        ..response
    }
}

/// Whether the size of each shortened answer is a number of the machine.
pub open spec fn cuts_are_measured(response: FederatedSearchResponseView, place: PagePlaceView) -> bool {
    forall|count: int, bytes: u64|
        1 <= count < response.results.len() ==> byte_len(
            <FederatedSearchResponse as ToJson>::json(
                #[trigger] cut_stating(response, count, place, bytes),
            ),
        ) <= u64::MAX
}

/// Whether results stand at a place within all results, which a machine can count.
pub open spec fn is_at(response: FederatedSearchResponseView, place: PagePlaceView) -> bool {
    0 <= place.offset && place.offset + response.results.len() <= place.total <= u64::MAX
}

proof fn pages_widen(first: FederatedPageInfoView, second: FederatedPageInfoView)
    requires
        first.next_cursor is Some,
        second.next_cursor is Some,
        byte_len(json_string(first.next_cursor->0)) <= byte_len(json_string(second.next_cursor->0)),
        first.truncation is Some,
        second.truncation is Some,
        first.truncation->0.reason == second.truncation->0.reason,
        first.truncation->0.explored_depth == second.truncation->0.explored_depth,
        first.truncation->0.returned_results <= second.truncation->0.returned_results,
        first.truncation->0.returned_bytes <= second.truncation->0.returned_bytes,
    ensures
        byte_len(<FederatedPageInfo as ToJson>::json(first)) <= byte_len(
            <FederatedPageInfo as ToJson>::json(second),
        ),
{
    let left = first.truncation->0;
    let right = second.truncation->0;
    numbers_widen(left.returned_results as nat, right.returned_results as nat);
    numbers_widen(left.returned_bytes as nat, right.returned_bytes as nat);
    assert(are_wider(left.members(), right.members()));
    objects_widen(left.members(), right.members());
    assert(are_wider(first.members(), second.members()));
    objects_widen(first.members(), second.members());
}

proof fn results_widen(results: Seq<FederatedSearchResultView>, fewer: int, more: int)
    requires
        0 <= fewer <= more <= results.len(),
    ensures
        byte_len(<Vec<FederatedSearchResult> as ToJson>::json(results.take(fewer))) <= byte_len(
            <Vec<FederatedSearchResult> as ToJson>::json(results.take(more)),
        ),
{
    let text = |result: FederatedSearchResultView| <FederatedSearchResult as ToJson>::json(result);
    let left = results.take(fewer).map_values(text);
    let right = results.take(more).map_values(text);
    assert(left =~= right.take(fewer));
    more_items_widen(right, fewer);
    enclosed("["@, json_items(left), "]"@);
    enclosed("["@, json_items(right), "]"@);
}

proof fn responses_widen(first: FederatedSearchResponseView, second: FederatedSearchResponseView)
    requires
        first == (FederatedSearchResponseView { page: first.page, results: first.results, ..second }),
        byte_len(<FederatedPageInfo as ToJson>::json(first.page)) <= byte_len(
            <FederatedPageInfo as ToJson>::json(second.page),
        ),
        byte_len(<Vec<FederatedSearchResult> as ToJson>::json(first.results)) <= byte_len(
            <Vec<FederatedSearchResult> as ToJson>::json(second.results),
        ),
    ensures
        byte_len(<FederatedSearchResponse as ToJson>::json(first)) <= byte_len(
            <FederatedSearchResponse as ToJson>::json(second),
        ),
{
    let left = first.members();
    let right = second.members();
    assert forall|i: int| 0 <= i < left.len() implies (#[trigger] left[i]).0 == right[i].0 && byte_len(
        left[i].1,
    ) <= byte_len(right[i].1) by {
        if i < 6 {
            assert(left[i] == right[i]);
        } else {
            assert(i == 6 || i == 7);
        }
    }
    objects_widen(left, right);
}

proof fn cut_pages_widen(
    response: FederatedSearchResponseView,
    place: PagePlaceView,
    fewer: int,
    more: int,
    bytes: u64,
    more_bytes: u64,
)
    requires
        is_at(response, place),
        1 <= fewer <= more < response.results.len(),
        bytes <= more_bytes,
    ensures
        byte_len(
            <FederatedPageInfo as ToJson>::json(cut_stating(response, fewer, place, bytes).page),
        ) <= byte_len(
            <FederatedPageInfo as ToJson>::json(cut_stating(response, more, place, more_bytes).page),
        ),
{
    cursors_widen("search"@, place, place.offset + fewer, place.offset + more);
    pages_widen(
        cut_stating(response, fewer, place, bytes).page,
        cut_stating(response, more, place, more_bytes).page,
    );
}

proof fn cuts_widen(
    response: FederatedSearchResponseView,
    place: PagePlaceView,
    fewer: int,
    more: int,
    bytes: u64,
    more_bytes: u64,
)
    requires
        is_at(response, place),
        cuts_are_measured(response, place),
        1 <= fewer <= more < response.results.len(),
        bytes <= more_bytes,
    ensures
        search_size(cut_stating(response, fewer, place, bytes)) <= search_size(
            cut_stating(response, more, place, more_bytes),
        ),
{
    let first = cut_stating(response, fewer, place, bytes);
    let second = cut_stating(response, more, place, more_bytes);
    cut_pages_widen(response, place, fewer, more, bytes, more_bytes);
    results_widen(response.results, fewer, more);
    responses_widen(first, second);
    reveal(search_size);
}

/// An answer that follows one that states its own size settles at no smaller a size.
proof fn settles_above(
    response: FederatedSearchResponseView,
    place: PagePlaceView,
    fewer: int,
    more: int,
    bytes: u64,
    more_bytes: u64,
    round: u32,
    answers: Seq<u64>,
    at: int,
)
    requires
        is_at(response, place),
        cuts_are_measured(response, place),
        1 <= fewer <= more < response.results.len(),
        bytes <= more_bytes,
        search_size(cut_stating(response, fewer, place, bytes)) == bytes,
    ensures
        search_settled(cut_stating(response, more, place, more_bytes), round, answers, at) matches Ok(
            (_, size, _),
        ) ==> bytes <= size,
    decreases MAX_SIZE_ROUNDS - round,
{
    reveal(search_settled);
    cuts_widen(response, place, fewer, more, bytes, more_bytes);
    let current = cut_stating(response, more, place, more_bytes);
    let size = search_size(current);
    if round < MAX_SIZE_ROUNDS && size != more_bytes {
        assert(FederatedSearchResponseView { page: stating(current.page, size), ..current } == cut_stating(
            response,
            more,
            place,
            size,
        ));
        settles_above(response, place, fewer, more, bytes, size, (round + 1) as u32, answers, at + 2);
    }
}

/// An answer before one that states its own size settles at no greater a size.
proof fn settles_below(
    response: FederatedSearchResponseView,
    place: PagePlaceView,
    fewer: int,
    more: int,
    bytes: u64,
    more_bytes: u64,
    round: u32,
    answers: Seq<u64>,
    at: int,
)
    requires
        is_at(response, place),
        cuts_are_measured(response, place),
        1 <= fewer <= more < response.results.len(),
        bytes <= more_bytes,
        search_size(cut_stating(response, more, place, more_bytes)) == more_bytes,
    ensures
        search_settled(cut_stating(response, fewer, place, bytes), round, answers, at) matches Ok(
            (_, size, _),
        ) ==> size <= more_bytes,
    decreases MAX_SIZE_ROUNDS - round,
{
    reveal(search_settled);
    cuts_widen(response, place, fewer, more, bytes, more_bytes);
    let current = cut_stating(response, fewer, place, bytes);
    let size = search_size(current);
    if round < MAX_SIZE_ROUNDS && size != bytes {
        assert(FederatedSearchResponseView { page: stating(current.page, size), ..current } == cut_stating(
            response,
            fewer,
            place,
            size,
        ));
        settles_below(response, place, fewer, more, size, more_bytes, (round + 1) as u32, answers, at + 2);
    }
}

proof fn settled_sizes_grow(
    response: FederatedSearchResponseView,
    place: PagePlaceView,
    fewer: int,
    more: int,
    bytes: u64,
    more_bytes: u64,
    round: u32,
    answers: Seq<u64>,
    at: int,
    later: int,
)
    requires
        is_at(response, place),
        cuts_are_measured(response, place),
        1 <= fewer <= more < response.results.len(),
        bytes <= more_bytes,
    ensures
        ({
            let first = search_settled(cut_stating(response, fewer, place, bytes), round, answers, at);
            let second = search_settled(
                cut_stating(response, more, place, more_bytes),
                round,
                answers,
                later,
            );
            first is Ok && second is Ok ==> first->Ok_0.1 <= second->Ok_0.1
        }),
    decreases MAX_SIZE_ROUNDS - round,
{
    reveal(search_settled);
    cuts_widen(response, place, fewer, more, bytes, more_bytes);
    let first = cut_stating(response, fewer, place, bytes);
    let second = cut_stating(response, more, place, more_bytes);
    let size = search_size(first);
    let more_size = search_size(second);
    if size == bytes {
        settles_above(response, place, fewer, more, bytes, more_bytes, round, answers, later);
    } else if more_size == more_bytes {
        settles_below(response, place, fewer, more, bytes, more_bytes, round, answers, at);
    } else if round < MAX_SIZE_ROUNDS {
        assert(FederatedSearchResponseView { page: stating(first.page, size), ..first } == cut_stating(
            response,
            fewer,
            place,
            size,
        ));
        assert(FederatedSearchResponseView { page: stating(second.page, more_size), ..second }
            == cut_stating(response, more, place, more_size));
        settled_sizes_grow(
            response,
            place,
            fewer,
            more,
            size,
            more_size,
            (round + 1) as u32,
            answers,
            at + 2,
            later + 2,
        );
    }
}

/// Whether an answer with so many results is known to fit.
pub open spec fn cut_fits(
    response: FederatedSearchResponseView,
    count: int,
    max_bytes: u64,
    place: PagePlaceView,
    answers: Seq<u64>,
) -> bool {
    exists|at: int|
        search_cut(response, count, place, answers, at) is Ok && (#[trigger] search_cut(
            response,
            count,
            place,
            answers,
            at,
        ))->Ok_0.1 <= max_bytes
}

/// Whether an answer with so many results does not fit, whenever it is made.
pub open spec fn cut_is_too_large(
    response: FederatedSearchResponseView,
    count: int,
    max_bytes: u64,
    place: PagePlaceView,
    answers: Seq<u64>,
) -> bool {
    forall|at: int|
        (#[trigger] search_cut(response, count, place, answers, at)) is Ok ==> search_cut(
            response,
            count,
            place,
            answers,
            at,
        )->Ok_0.1 > max_bytes
}

/// Whether an answer with more results is no smaller.
pub open spec fn cuts_grow(
    response: FederatedSearchResponseView,
    place: PagePlaceView,
    answers: Seq<u64>,
) -> bool {
    forall|fewer: int, more: int, at: int, later: int|
        #![trigger search_cut(response, fewer, place, answers, at), search_cut(
            response,
            more,
            place,
            answers,
            later,
        )]
        1 <= fewer <= more < response.results.len() && search_cut(
            response,
            fewer,
            place,
            answers,
            at,
        ) is Ok && search_cut(response, more, place, answers, later) is Ok ==> search_cut(
            response,
            fewer,
            place,
            answers,
            at,
        )->Ok_0.1 <= search_cut(response, more, place, answers, later)->Ok_0.1
}

/// Halving finds the longest answer that fits: the number of results that it finds fits, and no
/// greater number between the two does.
proof fn halving_finds_the_longest(
    response: FederatedSearchResponseView,
    lower: int,
    upper: int,
    best: Option<int>,
    max_bytes: u64,
    place: PagePlaceView,
    answers: Seq<u64>,
    at: int,
)
    requires
        1 <= lower,
        upper < response.results.len(),
        cuts_grow(response, place, answers),
        best matches Some(best) ==> best < lower && cut_fits(
            response,
            best,
            max_bytes,
            place,
            answers,
        ),
    ensures
        search_fit(response, lower, upper, best, max_bytes, place, answers, at) matches Ok((found, _)) ==> {
            &&& found matches Some(found) ==> cut_fits(response, found, max_bytes, place, answers) && (
            best == Some(found) || lower <= found <= upper)
            &&& found is None ==> best is None
            &&& forall|count: int|
                lower <= count <= upper && (found matches Some(found) ==> found < count)
                    ==> #[trigger] cut_is_too_large(response, count, max_bytes, place, answers)
        },
    decreases upper + 1 - lower,
{
    reveal(search_fit);
    if lower <= upper && !is_up(answers[at]) {
        let midpoint = lower + (upper - lower) / 2;
        let made = search_cut(response, midpoint, place, answers, at + 1);
        if let Ok((_, size, next)) = made {
            if size <= max_bytes {
                assert(cut_fits(response, midpoint, max_bytes, place, answers));
                halving_finds_the_longest(
                    response,
                    midpoint + 1,
                    upper,
                    Some(midpoint),
                    max_bytes,
                    place,
                    answers,
                    next,
                );
            } else {
                halving_finds_the_longest(
                    response,
                    lower,
                    midpoint - 1,
                    best,
                    max_bytes,
                    place,
                    answers,
                    next,
                );
                assert forall|count: int| midpoint <= count <= upper implies #[trigger] cut_is_too_large(
                    response,
                    count,
                    max_bytes,
                    place,
                    answers,
                ) by {
                    assert forall|later: int|
                        (#[trigger] search_cut(response, count, place, answers, later)) is Ok implies search_cut(
                        response,
                        count,
                        place,
                        answers,
                        later,
                    )->Ok_0.1 > max_bytes by {
                        assert(made->Ok_0.1 <= search_cut(
                            response,
                            count,
                            place,
                            answers,
                            later,
                        )->Ok_0.1);
                    }
                }
            }
        }
    }
}

/// An answer that is shortened to more results is no smaller.
pub proof fn longer_answers_are_no_smaller(
    response: FederatedSearchResponseView,
    place: PagePlaceView,
    answers: Seq<u64>,
)
    requires
        is_at(response, place),
        cuts_are_measured(response, place),
    ensures
        cuts_grow(response, place, answers),
{
    reveal(search_cut);
    assert forall|fewer: int, more: int, at: int, later: int|
        #![trigger search_cut(response, fewer, place, answers, at), search_cut(
            response,
            more,
            place,
            answers,
            later,
        )]
        1 <= fewer <= more < response.results.len() && search_cut(
            response,
            fewer,
            place,
            answers,
            at,
        ) is Ok && search_cut(response, more, place, answers, later) is Ok implies search_cut(
        response,
        fewer,
        place,
        answers,
        at,
    )->Ok_0.1 <= search_cut(response, more, place, answers, later)->Ok_0.1 by {
        cut_states_nothing_yet(response, fewer, place);
        cut_states_nothing_yet(response, more, place);
        settled_sizes_grow(response, place, fewer, more, 0, 0, 0, answers, at, later);
    }
}

proof fn cut_states_nothing_yet(response: FederatedSearchResponseView, count: int, place: PagePlaceView)
    requires
        1 <= count < response.results.len(),
    ensures
        search_paged(
            FederatedSearchResponseView { results: response.results.take(count), ..response },
            Some(MemoryTruncationReason::Bytes),
            place,
        ) matches Ok(paged) ==> paged == cut_stating(response, count, place, 0),
{
}

/// Settling fails for want of time or of an end, never for want of room.
proof fn settling_needs_no_room(response: FederatedSearchResponseView, round: u32, answers: Seq<u64>, at: int)
    ensures
        search_settled(response, round, answers, at) != Err::<(FederatedSearchResponseView, u64, int), _>(
            too_large(),
        ),
    decreases MAX_SIZE_ROUNDS - round,
{
    reveal(search_settled);
    if round < MAX_SIZE_ROUNDS {
        let size = search_size(response);
        settling_needs_no_room(
            FederatedSearchResponseView { page: stating(response.page, size), ..response },
            (round + 1) as u32,
            answers,
            at + 2,
        );
    }
}

/// Halving fails for the same reasons.
proof fn halving_needs_no_room(
    response: FederatedSearchResponseView,
    lower: int,
    upper: int,
    best: Option<int>,
    max_bytes: u64,
    place: PagePlaceView,
    answers: Seq<u64>,
    at: int,
)
    ensures
        search_fit(response, lower, upper, best, max_bytes, place, answers, at) != Err::<
            (Option<int>, int),
            _,
        >(too_large()),
    decreases upper + 1 - lower,
{
    reveal(search_fit);
    reveal(search_cut);
    if lower <= upper && !is_up(answers[at]) {
        let midpoint = lower + (upper - lower) / 2;
        if let Ok(paged) = search_paged(
            FederatedSearchResponseView { results: response.results.take(midpoint), ..response },
            Some(MemoryTruncationReason::Bytes),
            place,
        ) {
            settling_needs_no_room(paged, 0, answers, at + 1);
        }
        if let Ok((_, size, next)) = search_cut(response, midpoint, place, answers, at + 1) {
            if size <= max_bytes {
                halving_needs_no_room(
                    response,
                    midpoint + 1,
                    upper,
                    Some(midpoint),
                    max_bytes,
                    place,
                    answers,
                    next,
                );
            } else {
                halving_needs_no_room(
                    response,
                    lower,
                    midpoint - 1,
                    best,
                    max_bytes,
                    place,
                    answers,
                    next,
                );
            }
        }
    }
}

/// An answer is refused for its size only where nothing of it fits: neither the whole answer nor any
/// shortened one that still holds a result.
pub proof fn refused_searches_do_not_fit(
    response: FederatedSearchResponseView,
    max_bytes: u64,
    reason: Option<MemoryTruncationReason>,
    place: PagePlaceView,
    answers: Seq<u64>,
    at: int,
)
    requires
        is_at(response, place),
        cuts_are_measured(response, place),
    ensures
        search_fitted(response, max_bytes, reason, place, answers, at) == Err::<
            FederatedSearchResponseView,
            _,
        >(too_large()) ==> {
            &&& search_paged(response, reason, place) matches Ok(paged) && search_settled(
                paged,
                0,
                answers,
                at + 1,
            ) matches Ok((_, size, _)) && size > max_bytes
            &&& forall|count: int|
                1 <= count < response.results.len() ==> #[trigger] cut_is_too_large(
                    response,
                    count,
                    max_bytes,
                    place,
                    answers,
                )
        },
{
    if search_fitted(response, max_bytes, reason, place, answers, at) == Err::<
        FederatedSearchResponseView,
        _,
    >(too_large()) {
        let paged = search_paged(response, reason, place)->Ok_0;
        settling_needs_no_room(paged, 0, answers, at + 1);
        let (_, size, next) = search_settled(paged, 0, answers, at + 1)->Ok_0;
        if response.results.len() > 1 {
            let upper = response.results.len() - 1;
            longer_answers_are_no_smaller(response, place, answers);
            halving_finds_the_longest(response, 1, upper, None, max_bytes, place, answers, next + 2);
            halving_needs_no_room(response, 1, upper, None, max_bytes, place, answers, next + 2);
            if let Ok((Some(best), found)) = search_fit(
                response,
                1,
                upper,
                None,
                max_bytes,
                place,
                answers,
                next + 2,
            ) {
                reveal(search_cut);
                if let Ok(cut) = search_paged(
                    FederatedSearchResponseView { results: response.results.take(best), ..response },
                    Some(MemoryTruncationReason::Bytes),
                    place,
                ) {
                    settling_needs_no_room(cut, 0, answers, found);
                }
            }
        }
    }
}

/// An answer that is shortened to fit keeps as many results as fit: with any more of them, short of
/// all, it would be too large.
pub proof fn fitted_searches_are_the_longest(
    response: FederatedSearchResponseView,
    max_bytes: u64,
    reason: Option<MemoryTruncationReason>,
    place: PagePlaceView,
    answers: Seq<u64>,
    at: int,
)
    requires
        is_at(response, place),
        cuts_are_measured(response, place),
    ensures
        search_fitted(response, max_bytes, reason, place, answers, at) matches Ok(fitted) ==> forall|
            count: int,
        |
            fitted.results.len() < count < response.results.len() ==> #[trigger] cut_is_too_large(
                response,
                count,
                max_bytes,
                place,
                answers,
            ),
{
    if search_fitted(response, max_bytes, reason, place, answers, at) is Ok {
        let paged = search_paged(response, reason, place)->Ok_0;
        settling_keeps_results(paged, 0, answers, at + 1);
        let (settled, size, next) = search_settled(paged, 0, answers, at + 1)->Ok_0;
        if size > max_bytes {
            longer_answers_are_no_smaller(response, place, answers);
            halving_finds_the_longest(
                response,
                1,
                response.results.len() - 1,
                None,
                max_bytes,
                place,
                answers,
                next + 2,
            );
            let (best, found) = search_fit(
                response,
                1,
                response.results.len() - 1,
                None,
                max_bytes,
                place,
                answers,
                next + 2,
            )->Ok_0;
            reveal(search_cut);
            let cut = search_paged(
                FederatedSearchResponseView { results: response.results.take(best->0), ..response },
                Some(MemoryTruncationReason::Bytes),
                place,
            )->Ok_0;
            settling_keeps_results(cut, 0, answers, found);
        }
    }
}

proof fn settling_keeps_results(response: FederatedSearchResponseView, round: u32, answers: Seq<u64>, at: int)
    ensures
        search_settled(response, round, answers, at) matches Ok((settled, _, _)) ==> settled.results
            == response.results,
    decreases MAX_SIZE_ROUNDS - round,
{
    reveal(search_settled);
    if round < MAX_SIZE_ROUNDS {
        let size = search_size(response);
        settling_keeps_results(
            FederatedSearchResponseView { page: stating(response.page, size), ..response },
            (round + 1) as u32,
            answers,
            at + 2,
        );
    }
}

/// The context answer with the first so many of its items, stating a size.
pub open spec fn items_stating(
    response: FederatedContextResponseView,
    count: int,
    explored_depth: u32,
    place: PagePlaceView,
    bytes: u64,
) -> FederatedContextResponseView {
    let page = federated_page_model(
        Some(MemoryTruncationReason::Bytes),
        count as nat,
        0,
        explored_depth,
        place.offset + count < place.total,
        federation_cursor(
            "context"@,
            place.fingerprint,
            place.revision_key,
            (place.offset + count) as u64,
        ),
    );
    FederatedContextResponseView {
        items: response.items.take(count),
        page: stating(page, bytes),
        ..response
    }
}

/// Whether items stand at a place within all items, which a machine can count, and the size of each
/// shortened answer is a number of the machine.
pub open spec fn items_are_measured(
    response: FederatedContextResponseView,
    explored_depth: u32,
    place: PagePlaceView,
) -> bool {
    &&& 0 <= place.offset
    &&& place.offset + response.items.len() <= place.total <= u64::MAX
    &&& forall|count: int, bytes: u64|
        1 <= count < response.items.len() ==> byte_len(
            <FederatedContextResponse as ToJson>::json(
                #[trigger] items_stating(response, count, explored_depth, place, bytes),
            ),
        ) <= u64::MAX
}

proof fn item_texts_widen(items: Seq<FederatedContextItemView>, fewer: int, more: int)
    requires
        0 <= fewer <= more <= items.len(),
    ensures
        byte_len(<Vec<FederatedContextItem> as ToJson>::json(items.take(fewer))) <= byte_len(
            <Vec<FederatedContextItem> as ToJson>::json(items.take(more)),
        ),
{
    let text = |item: FederatedContextItemView| <FederatedContextItem as ToJson>::json(item);
    let left = items.take(fewer).map_values(text);
    let right = items.take(more).map_values(text);
    assert(left =~= right.take(fewer));
    more_items_widen(right, fewer);
    enclosed("["@, json_items(left), "]"@);
    enclosed("["@, json_items(right), "]"@);
}

proof fn contexts_widen(first: FederatedContextResponseView, second: FederatedContextResponseView)
    requires
        first == (FederatedContextResponseView { page: first.page, items: first.items, ..second }),
        byte_len(<FederatedPageInfo as ToJson>::json(first.page)) <= byte_len(
            <FederatedPageInfo as ToJson>::json(second.page),
        ),
        byte_len(<Vec<FederatedContextItem> as ToJson>::json(first.items)) <= byte_len(
            <Vec<FederatedContextItem> as ToJson>::json(second.items),
        ),
    ensures
        byte_len(<FederatedContextResponse as ToJson>::json(first)) <= byte_len(
            <FederatedContextResponse as ToJson>::json(second),
        ),
{
    let left = first.members();
    let right = second.members();
    assert forall|i: int| 0 <= i < left.len() implies (#[trigger] left[i]).0 == right[i].0 && byte_len(
        left[i].1,
    ) <= byte_len(right[i].1) by {
        if i < 6 || i > 7 {
            assert(left[i] == right[i]);
        } else {
            assert(i == 6 || i == 7);
        }
    }
    objects_widen(left, right);
}

proof fn item_pages_widen(
    response: FederatedContextResponseView,
    explored_depth: u32,
    place: PagePlaceView,
    fewer: int,
    more: int,
    bytes: u64,
    more_bytes: u64,
)
    requires
        0 <= place.offset,
        place.offset + response.items.len() <= place.total <= u64::MAX,
        1 <= fewer <= more < response.items.len(),
        bytes <= more_bytes,
    ensures
        byte_len(
            <FederatedPageInfo as ToJson>::json(
                items_stating(response, fewer, explored_depth, place, bytes).page,
            ),
        ) <= byte_len(
            <FederatedPageInfo as ToJson>::json(
                items_stating(response, more, explored_depth, place, more_bytes).page,
            ),
        ),
{
    cursors_widen("context"@, place, place.offset + fewer, place.offset + more);
    pages_widen(
        items_stating(response, fewer, explored_depth, place, bytes).page,
        items_stating(response, more, explored_depth, place, more_bytes).page,
    );
}

proof fn item_cuts_widen(
    response: FederatedContextResponseView,
    explored_depth: u32,
    place: PagePlaceView,
    fewer: int,
    more: int,
    bytes: u64,
    more_bytes: u64,
)
    requires
        items_are_measured(response, explored_depth, place),
        1 <= fewer <= more < response.items.len(),
        bytes <= more_bytes,
    ensures
        context_size(items_stating(response, fewer, explored_depth, place, bytes)) <= context_size(
            items_stating(response, more, explored_depth, place, more_bytes),
        ),
{
    let first = items_stating(response, fewer, explored_depth, place, bytes);
    let second = items_stating(response, more, explored_depth, place, more_bytes);
    item_pages_widen(response, explored_depth, place, fewer, more, bytes, more_bytes);
    item_texts_widen(response.items, fewer, more);
    contexts_widen(first, second);
    reveal(context_size);
}

/// A context that follows one that states its own size settles at no smaller a size.
proof fn items_settle_above(
    response: FederatedContextResponseView,
    explored_depth: u32,
    place: PagePlaceView,
    fewer: int,
    more: int,
    bytes: u64,
    more_bytes: u64,
    round: u32,
)
    requires
        items_are_measured(response, explored_depth, place),
        1 <= fewer <= more < response.items.len(),
        bytes <= more_bytes,
        context_size(items_stating(response, fewer, explored_depth, place, bytes)) == bytes,
    ensures
        context_settled(items_stating(response, more, explored_depth, place, more_bytes), round) matches Ok(
            (_, size),
        ) ==> bytes <= size,
    decreases MAX_SIZE_ROUNDS - round,
{
    item_cuts_widen(response, explored_depth, place, fewer, more, bytes, more_bytes);
    let current = items_stating(response, more, explored_depth, place, more_bytes);
    let size = context_size(current);
    if round < MAX_SIZE_ROUNDS && size != more_bytes {
        assert(FederatedContextResponseView { page: stating(current.page, size), ..current }
            == items_stating(response, more, explored_depth, place, size));
        items_settle_above(response, explored_depth, place, fewer, more, bytes, size, (round + 1) as u32);
    }
}

/// A context before one that states its own size settles at no greater a size.
proof fn items_settle_below(
    response: FederatedContextResponseView,
    explored_depth: u32,
    place: PagePlaceView,
    fewer: int,
    more: int,
    bytes: u64,
    more_bytes: u64,
    round: u32,
)
    requires
        items_are_measured(response, explored_depth, place),
        1 <= fewer <= more < response.items.len(),
        bytes <= more_bytes,
        context_size(items_stating(response, more, explored_depth, place, more_bytes)) == more_bytes,
    ensures
        context_settled(items_stating(response, fewer, explored_depth, place, bytes), round) matches Ok(
            (_, size),
        ) ==> size <= more_bytes,
    decreases MAX_SIZE_ROUNDS - round,
{
    item_cuts_widen(response, explored_depth, place, fewer, more, bytes, more_bytes);
    let current = items_stating(response, fewer, explored_depth, place, bytes);
    let size = context_size(current);
    if round < MAX_SIZE_ROUNDS && size != bytes {
        assert(FederatedContextResponseView { page: stating(current.page, size), ..current }
            == items_stating(response, fewer, explored_depth, place, size));
        items_settle_below(
            response,
            explored_depth,
            place,
            fewer,
            more,
            size,
            more_bytes,
            (round + 1) as u32,
        );
    }
}

proof fn settled_items_grow(
    response: FederatedContextResponseView,
    explored_depth: u32,
    place: PagePlaceView,
    fewer: int,
    more: int,
    bytes: u64,
    more_bytes: u64,
    round: u32,
)
    requires
        items_are_measured(response, explored_depth, place),
        1 <= fewer <= more < response.items.len(),
        bytes <= more_bytes,
    ensures
        ({
            let first = context_settled(
                items_stating(response, fewer, explored_depth, place, bytes),
                round,
            );
            let second = context_settled(
                items_stating(response, more, explored_depth, place, more_bytes),
                round,
            );
            first is Ok && second is Ok ==> first->Ok_0.1 <= second->Ok_0.1
        }),
    decreases MAX_SIZE_ROUNDS - round,
{
    item_cuts_widen(response, explored_depth, place, fewer, more, bytes, more_bytes);
    let first = items_stating(response, fewer, explored_depth, place, bytes);
    let second = items_stating(response, more, explored_depth, place, more_bytes);
    let size = context_size(first);
    let more_size = context_size(second);
    if size == bytes {
        items_settle_above(response, explored_depth, place, fewer, more, bytes, more_bytes, round);
    } else if more_size == more_bytes {
        items_settle_below(response, explored_depth, place, fewer, more, bytes, more_bytes, round);
    } else if round < MAX_SIZE_ROUNDS {
        assert(FederatedContextResponseView { page: stating(first.page, size), ..first } == items_stating(
            response,
            fewer,
            explored_depth,
            place,
            size,
        ));
        assert(FederatedContextResponseView { page: stating(second.page, more_size), ..second }
            == items_stating(response, more, explored_depth, place, more_size));
        settled_items_grow(
            response,
            explored_depth,
            place,
            fewer,
            more,
            size,
            more_size,
            (round + 1) as u32,
        );
    }
}

/// Whether a context with so many of its items does not fit.
pub open spec fn items_are_too_large(
    response: FederatedContextResponseView,
    count: int,
    max_bytes: u64,
    explored_depth: u32,
    place: PagePlaceView,
) -> bool {
    items_cut(response, response.items, count, explored_depth, place) matches Ok((_, size)) ==> size
        > max_bytes
}

proof fn item_cuts_grow(
    response: FederatedContextResponseView,
    explored_depth: u32,
    place: PagePlaceView,
    fewer: int,
    more: int,
)
    requires
        items_are_measured(response, explored_depth, place),
        1 <= fewer <= more < response.items.len(),
    ensures
        ({
            let first = items_cut(response, response.items, fewer, explored_depth, place);
            let second = items_cut(response, response.items, more, explored_depth, place);
            first is Ok && second is Ok ==> first->Ok_0.1 <= second->Ok_0.1
        }),
{
    settled_items_grow(response, explored_depth, place, fewer, more, 0, 0, 0);
}

proof fn halving_finds_the_most_items(
    response: FederatedContextResponseView,
    lower: int,
    upper: int,
    best: Option<int>,
    max_bytes: u64,
    explored_depth: u32,
    place: PagePlaceView,
    answers: Seq<u64>,
    at: int,
)
    requires
        items_are_measured(response, explored_depth, place),
        1 <= lower <= upper <= response.items.len() + 1,
        best matches Some(best) ==> 1 <= best < lower,
    ensures
        items_fit(
            response,
            response.items,
            lower,
            upper,
            best,
            max_bytes,
            explored_depth,
            place,
            answers,
            at,
        ) matches Ok((found, _)) ==> {
            &&& found matches Some(found) ==> best == Some(found) || lower <= found < upper
            &&& found is None ==> best is None
            &&& forall|count: int|
                lower <= count < upper && count < response.items.len() && (found matches Some(found) ==> found
                    < count) ==> #[trigger] items_are_too_large(
                    response,
                    count,
                    max_bytes,
                    explored_depth,
                    place,
                )
        },
    decreases upper - lower,
{
    reveal(items_fit);
    if lower < upper && !is_up(answers[at]) {
        let midpoint = lower + (upper - lower) / 2;
        let made = items_cut(response, response.items, midpoint, explored_depth, place);
        if let Ok((_, size)) = made {
            if size <= max_bytes {
                halving_finds_the_most_items(
                    response,
                    midpoint + 1,
                    upper,
                    Some(midpoint),
                    max_bytes,
                    explored_depth,
                    place,
                    answers,
                    at + 2,
                );
            } else {
                halving_finds_the_most_items(
                    response,
                    lower,
                    midpoint,
                    best,
                    max_bytes,
                    explored_depth,
                    place,
                    answers,
                    at + 2,
                );
                assert forall|count: int|
                    midpoint <= count < upper && count < response.items.len() implies #[trigger] items_are_too_large(
                    response,
                    count,
                    max_bytes,
                    explored_depth,
                    place,
                ) by {
                    item_cuts_grow(response, explored_depth, place, midpoint, count);
                }
            }
        }
    }
}

proof fn settling_keeps_items(response: FederatedContextResponseView, round: u32)
    ensures
        context_settled(response, round) matches Ok((settled, _)) ==> settled.items == response.items,
    decreases MAX_SIZE_ROUNDS - round,
{
    if round < MAX_SIZE_ROUNDS {
        let size = context_size(response);
        settling_keeps_items(
            FederatedContextResponseView { page: stating(response.page, size), ..response },
            (round + 1) as u32,
        );
    }
}

/// A context whose items are shortened to fit keeps as many of them as fit: with any more of them,
/// short of all, it would be too large.
pub proof fn fitted_contexts_keep_the_most_items(
    response: FederatedContextResponseView,
    max_bytes: u64,
    explored_depth: u32,
    place: PagePlaceView,
    answers: Seq<u64>,
    at: int,
)
    requires
        items_are_measured(response, explored_depth, place),
    ensures
        items_fitted(response, max_bytes, explored_depth, place, answers, at) matches Ok(fitted) ==> forall|
            count: int,
        |
            fitted.items.len() < count < response.items.len() ==> #[trigger] items_are_too_large(
                response,
                count,
                max_bytes,
                explored_depth,
                place,
            ),
{
    reveal(items_fitted);
    if response.items.len() > 0 {
        halving_finds_the_most_items(
            response,
            1,
            response.items.len() as int + 1,
            None,
            max_bytes,
            explored_depth,
            place,
            answers,
            at,
        );
        if let Ok((Some(best), _)) = items_fit(
            response,
            response.items,
            1,
            response.items.len() as int + 1,
            None,
            max_bytes,
            explored_depth,
            place,
            answers,
            at,
        ) {
            let cut = FederatedContextResponseView { items: response.items.take(best), ..response };
            if let Ok(paged) = context_paged(
                cut,
                Some(MemoryTruncationReason::Bytes),
                explored_depth,
                place,
            ) {
                settling_keeps_items(paged, 0);
            }
        }
    }
}

}
