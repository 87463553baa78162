//! Fitting a whole federated answer into a number of bytes.
use vstd::prelude::*;
use crate::budget::{backend, backend_error};
use crate::cursor::{federated_page, federated_page_model, federation_cursor, is_continued};
use crate::deadline::{begins, is_up, keeps_time, Deadline};
use crate::domain::MAX_ID_BYTES;
use crate::federation::{
    FederatedContextItemView, FederatedContextResponse, FederatedContextResponseView,
    FederatedPageInfoView, FederatedSearchResponse, FederatedSearchResponseView,
};
use crate::json::{byte_len, serialized_len, ToJson};
use crate::query::{
    MemoryQueryError, MemoryQueryErrorView, MemoryTruncationReason, MemoryTruncationView,
};
use crate::record::{outcome, Record};
use crate::value::is_bounded_text;

verus! {

/// How often the size that an answer states of itself is corrected.
pub const MAX_SIZE_ROUNDS: u32 = 32;

/// Where in all the results an answer stands, and what its cursor is bound to.
pub struct PagePlace<'a> {
    pub offset: usize,
    pub total: usize,
    pub fingerprint: &'a str,
    pub revision_key: &'a str,
}

/// The model of [`PagePlace`].
pub struct PagePlaceView {
    pub offset: int,
    pub total: int,
    pub fingerprint: Seq<char>,
    pub revision_key: Seq<char>,
}

impl<'a> DeepView for PagePlace<'a> {
    type V = PagePlaceView;

    open spec fn deep_view(&self) -> PagePlaceView {
        PagePlaceView {
            offset: self.offset as int,
            total: self.total as int,
            fingerprint: self.fingerprint@,
            revision_key: self.revision_key@,
        }
    }
}

/// The first records.
pub fn first<T: Record>(records: &Vec<T>, count: usize) -> (result: Vec<T>)
    requires
        count <= records.len(),
    ensures
        result.deep_view() == records.deep_view().take(count as int),
        result.len() == count,
{
    let mut result: Vec<T> = Vec::new();
    assert(result.deep_view() =~= records.deep_view().take(0));
    while result.len() < count
        invariant
            result.len() <= count <= records.len(),
            result.deep_view() == records.deep_view().take(result.len() as int),
        decreases count - result.len(),
    {
        let ghost before = result.deep_view();
        result.push(records[result.len()].copied());
        assert(result.deep_view() =~= before.push(records@[before.len() as int].deep_view()));
        assert(result.deep_view() =~= records.deep_view().take(result.len() as int));
    }
    result
}

/// That the time is over.
pub open spec fn too_late() -> MemoryQueryErrorView {
    MemoryQueryErrorView::BudgetExceeded(MemoryTruncationReason::Duration)
}

/// That there is no room.
pub open spec fn too_large() -> MemoryQueryErrorView {
    MemoryQueryErrorView::BudgetExceeded(MemoryTruncationReason::Bytes)
}

/// The page that a search answer states, before its size is known.
pub open spec fn search_paged(
    response: FederatedSearchResponseView,
    reason: Option<MemoryTruncationReason>,
    place: PagePlaceView,
) -> Result<FederatedSearchResponseView, MemoryQueryErrorView> {
    let count = response.results.len();
    let has_more = place.offset + count < place.total;
    let cursor = federation_cursor(
        "search"@,
        place.fingerprint,
        place.revision_key,
        (place.offset + count) as u64,
    );
    if is_continued(reason, count, has_more) && !is_bounded_text(cursor, MAX_ID_BYTES as nat, false) {
        Err(backend("federation.cursor"@))
    } else {
        Ok(
            FederatedSearchResponseView {
                page: federated_page_model(reason, count, 0, 0, has_more, cursor),
                ..response
            },
        )
    }
}

/// The page of an answer, stating this size.
pub open spec fn stating(page: FederatedPageInfoView, bytes: u64) -> FederatedPageInfoView {
    FederatedPageInfoView {
        truncation: match page.truncation {
            Some(truncation) => Some(MemoryTruncationView { returned_bytes: bytes, ..truncation }),
            None => None,
        },
        ..page
    }
}

/// The size of an answer.
#[verifier::opaque]
pub open spec fn search_size(response: FederatedSearchResponseView) -> u64 {
    byte_len(<FederatedSearchResponse as ToJson>::json(response)) as u64
}

/// The answer that states its own size, that size, and how many answers of the deadline are known
/// then. An answer that was not cut short states no size.
#[verifier::opaque]
pub open spec fn search_settled(
    response: FederatedSearchResponseView,
    round: u32,
    answers: Seq<u64>,
    at: int,
) -> Result<(FederatedSearchResponseView, u64, int), MemoryQueryErrorView>
    decreases MAX_SIZE_ROUNDS - round,
{
    if round >= MAX_SIZE_ROUNDS {
        Err(backend("federation.serialization"@))
    } else if is_up(answers[at]) || is_up(answers[at + 1]) {
        Err(too_late())
    } else {
        let size = search_size(response);
        match response.page.truncation {
            None => Ok((response, size, at + 2)),
            Some(truncation) => if truncation.returned_bytes == size {
                Ok((response, size, at + 2))
            } else {
                search_settled(
                    FederatedSearchResponseView { page: stating(response.page, size), ..response },
                    (round + 1) as u32,
                    answers,
                    at + 2,
                )
            },
        }
    }
}

/// The answer with the first so many of its results, settled.
#[verifier::opaque]
pub open spec fn search_cut(
    response: FederatedSearchResponseView,
    count: int,
    place: PagePlaceView,
    answers: Seq<u64>,
    at: int,
) -> Result<(FederatedSearchResponseView, u64, int), MemoryQueryErrorView> {
    match search_paged(
        FederatedSearchResponseView { results: response.results.take(count), ..response },
        Some(MemoryTruncationReason::Bytes),
        place,
    ) {
        Err(error) => Err(error),
        Ok(paged) => search_settled(paged, 0, answers, at),
    }
}

/// The number of results with which the answer fits, found by halving what lies between two
/// numbers, and how many answers of the deadline are known then.
#[verifier::opaque]
pub open spec fn search_fit(
    response: FederatedSearchResponseView,
    lower: int,
    upper: int,
    best: Option<int>,
    max_bytes: u64,
    place: PagePlaceView,
    answers: Seq<u64>,
    at: int,
) -> Result<(Option<int>, int), MemoryQueryErrorView>
    decreases upper + 1 - lower,
{
    if lower > upper {
        Ok((best, at))
    } else if is_up(answers[at]) {
        Err(too_late())
    } else {
        let midpoint = lower + (upper - lower) / 2;
        match search_cut(response, midpoint, place, answers, at + 1) {
            Err(error) => Err(error),
            Ok((_, size, next)) => if size <= max_bytes {
                search_fit(
                    response,
                    midpoint + 1,
                    upper,
                    Some(midpoint),
                    max_bytes,
                    place,
                    answers,
                    next,
                )
            } else {
                search_fit(response, lower, midpoint - 1, best, max_bytes, place, answers, next)
            },
        }
    }
}

/// The answer that fits into so many bytes: as it is, or else with fewer results. There is none
/// where not even one result fits.
pub open spec fn search_fitted(
    response: FederatedSearchResponseView,
    max_bytes: u64,
    reason: Option<MemoryTruncationReason>,
    place: PagePlaceView,
    answers: Seq<u64>,
    at: int,
) -> Result<FederatedSearchResponseView, MemoryQueryErrorView> {
    if is_up(answers[at]) {
        Err(too_late())
    } else {
        match search_paged(response, reason, place) {
            Err(error) => Err(error),
            Ok(paged) => match search_settled(paged, 0, answers, at + 1) {
                Err(error) => Err(error),
                Ok((settled, size, next)) => if size <= max_bytes {
                    Ok(settled)
                } else if response.results.len() <= 1 {
                    Err(too_large())
                } else if is_up(answers[next]) || is_up(answers[next + 1]) {
                    Err(too_late())
                } else {
                    match search_fit(
                        response,
                        1,
                        response.results.len() - 1,
                        None,
                        max_bytes,
                        place,
                        answers,
                        next + 2,
                    ) {
                        Err(error) => Err(error),
                        Ok((None, _)) => Err(too_large()),
                        Ok((Some(best), found)) => match search_cut(
                            response,
                            best,
                            place,
                            answers,
                            found,
                        ) {
                            Err(error) => Err(error),
                            Ok((cut, size, _)) => if size > max_bytes {
                                Err(backend("federation.serialization"@))
                            } else {
                                Ok(cut)
                            },
                        },
                    }
                },
            },
        }
    }
}

fn search_len(response: &FederatedSearchResponse) -> (size: u64)
    ensures
        size == search_size(response.deep_view()),
{
    proof {
        reveal(search_size);
    }
    serialized_len(response)
}

fn page_search(
    response: FederatedSearchResponse,
    reason: Option<MemoryTruncationReason>,
    place: &PagePlace,
) -> (result: Result<FederatedSearchResponse, MemoryQueryError>)
    requires
        place.offset + response.results.len() <= place.total,
    ensures
        outcome(result) == search_paged(response.deep_view(), reason, place.deep_view()),
{
    let mut response = response;
    let count = response.results.len();
    match federated_page(
        reason,
        count,
        0,
        0,
        place.offset + count < place.total,
        "search",
        place.fingerprint,
        place.revision_key,
        (place.offset + count) as u64,
    ) {
        Ok(page) => {
            response.page = page;
            Ok(response)
        },
        Err(error) => Err(error),
    }
}

fn settle_search<D: Deadline>(
    response: FederatedSearchResponse,
    deadline: &mut D,
) -> (result: Result<(FederatedSearchResponse, u64), MemoryQueryError>)
    ensures
        begins(old(deadline).answers(), final(deadline).answers()),
        keeps_time(*old(deadline), *final(deadline)),
        forall|all: Seq<u64>|
            begins(final(deadline).answers(), all) ==> #[trigger] search_settled(
                response.deep_view(),
                0,
                all,
                old(deadline).answers().len() as int,
            ) == settled_result(result, final(deadline).answers().len() as int),
{
    proof {
        reveal(search_settled);
    }
    let ghost start = deadline.answers().len() as int;
    let ghost first = response.deep_view();
    let mut current = response;
    let mut round: u32 = 0;
    while round < MAX_SIZE_ROUNDS
        invariant
            round <= MAX_SIZE_ROUNDS,
            first == response.deep_view(),
            start == old(deadline).answers().len(),
            begins(old(deadline).answers(), deadline.answers()),
            keeps_time(*old(deadline), *deadline),
            forall|all: Seq<u64>|
                begins(deadline.answers(), all) ==> #[trigger] search_settled(first, 0, all, start)
                    == search_settled(
                    current.deep_view(),
                    round,
                    all,
                    deadline.answers().len() as int,
                ),
        decreases MAX_SIZE_ROUNDS - round,
    {
        proof {
            reveal(search_settled);
        }
        let ghost before = deadline.answers();
        let late = deadline.expired();
        proof {
            assert forall|all: Seq<u64>| begins(deadline.answers(), all) implies begins(before, all) && is_up(all[
                before.len() as int
            ]) == late by {
                assert(all[before.len() as int] == deadline.answers()[before.len() as int]);
            }
        }
        if late {
            return Err(MemoryQueryError::BudgetExceeded(MemoryTruncationReason::Duration));
        }
        let size = search_len(&current);
        let ghost middle = deadline.answers();
        let late = deadline.expired();
        proof {
            assert forall|all: Seq<u64>| begins(deadline.answers(), all) implies begins(middle, all) && is_up(all[
                middle.len() as int
            ]) == late by {
                assert(all[middle.len() as int] == deadline.answers()[middle.len() as int]);
            }
        }
        if late {
            return Err(MemoryQueryError::BudgetExceeded(MemoryTruncationReason::Duration));
        }
        match &current.page.truncation {
            None => {
                return Ok((current, size));
            },
            Some(truncation) => {
                if truncation.returned_bytes == size {
                    return Ok((current, size));
                }
                let ghost stated = current.deep_view();
                let mut next = truncation.copied();
                next.returned_bytes = size;
                current.page.truncation = Some(next);
                assert(current.deep_view() == (FederatedSearchResponseView {
                    page: stating(stated.page, size),
                    ..stated
                }));
            },
        }
        round += 1;
    }
    proof {
        reveal(search_settled);
        reveal_strlit("federation.serialization");
    }
    Err(backend_error("federation.serialization"))
}

/// What settling came to.
spec fn settled_result(
    result: Result<(FederatedSearchResponse, u64), MemoryQueryError>,
    at: int,
) -> Result<(FederatedSearchResponseView, u64, int), MemoryQueryErrorView> {
    match result {
        Ok((response, size)) => Ok((response.deep_view(), size, at)),
        Err(error) => Err(error.deep_view()),
    }
}

fn cut_search<D: Deadline>(
    response: &FederatedSearchResponse,
    count: usize,
    place: &PagePlace,
    deadline: &mut D,
) -> (result: Result<(FederatedSearchResponse, u64), MemoryQueryError>)
    requires
        count <= response.results.len(),
        place.offset + response.results.len() <= place.total,
    ensures
        begins(old(deadline).answers(), final(deadline).answers()),
        keeps_time(*old(deadline), *final(deadline)),
        forall|all: Seq<u64>|
            begins(final(deadline).answers(), all) ==> #[trigger] search_cut(
                response.deep_view(),
                count as int,
                place.deep_view(),
                all,
                old(deadline).answers().len() as int,
            ) == settled_result(result, final(deadline).answers().len() as int),
{
    proof {
        reveal(search_cut);
    }
    let cut = FederatedSearchResponse {
        wire_version: response.wire_version,
        project: response.project.copied(),
        requested_domain: response.requested_domain,
        repository: response.repository.copied(),
        memory: response.memory.copied(),
        federation_diagnostics: response.federation_diagnostics.copied(),
        page: response.page.copied(),
        results: first(&response.results, count),
    };
    match page_search(cut, Some(MemoryTruncationReason::Bytes), place) {
        Ok(paged) => settle_search(paged, deadline),
        Err(error) => Err(error),
    }
}

fn halve_search<D: Deadline>(
    response: &FederatedSearchResponse,
    max_bytes: u64,
    place: &PagePlace,
    deadline: &mut D,
) -> (result: Result<Option<usize>, MemoryQueryError>)
    requires
        response.results.len() >= 2,
        place.offset + response.results.len() <= place.total,
    ensures
        begins(old(deadline).answers(), final(deadline).answers()),
        keeps_time(*old(deadline), *final(deadline)),
        result matches Ok(Some(best)) ==> best <= response.results.len(),
        forall|all: Seq<u64>|
            begins(final(deadline).answers(), all) ==> #[trigger] search_fit(
                response.deep_view(),
                1,
                response.results.len() - 1,
                None,
                max_bytes,
                place.deep_view(),
                all,
                old(deadline).answers().len() as int,
            ) == match result {
                Ok(best) => Ok::<_, MemoryQueryErrorView>(
                    (best_count(best), final(deadline).answers().len() as int),
                ),
                Err(error) => Err::<(Option<int>, int), _>(error.deep_view()),
            },
{
    let ghost start = deadline.answers().len() as int;
    let ghost model = response.deep_view();
    let ghost end = response.results.len() - 1;
    let mut lower: usize = 1;
    let mut upper: usize = response.results.len() - 1;
    let mut best: Option<usize> = None;
    while lower <= upper
        invariant
            response.results.len() >= 2,
            1 <= lower <= response.results.len(),
            upper < response.results.len(),
            place.offset + response.results.len() <= place.total,
            model == response.deep_view(),
            end == response.results.len() - 1,
            start == old(deadline).answers().len(),
            best matches Some(count) ==> count <= response.results.len(),
            begins(old(deadline).answers(), deadline.answers()),
            keeps_time(*old(deadline), *deadline),
            forall|all: Seq<u64>|
                begins(deadline.answers(), all) ==> #[trigger] search_fit(
                    model,
                    1,
                    end,
                    None,
                    max_bytes,
                    place.deep_view(),
                    all,
                    start,
                ) == search_fit(
                    model,
                    lower as int,
                    upper as int,
                    best_count(best),
                    max_bytes,
                    place.deep_view(),
                    all,
                    deadline.answers().len() as int,
                ),
        decreases upper + 1 - lower,
    {
        proof {
            reveal(search_fit);
        }
        let ghost before = deadline.answers();
        let late = deadline.expired();
        proof {
            assert forall|all: Seq<u64>| begins(deadline.answers(), all) implies begins(before, all) && is_up(all[
                before.len() as int
            ]) == late by {
                assert(all[before.len() as int] == deadline.answers()[before.len() as int]);
            }
        }
        if late {
            return Err(MemoryQueryError::BudgetExceeded(MemoryTruncationReason::Duration));
        }
        let midpoint: usize = lower + (upper - lower) / 2;
        let ghost asked = deadline.answers();
        let size = match cut_search(response, midpoint, place, deadline) {
            Ok((_, size)) => size,
            Err(error) => {
                return Err(error);
            },
        };
        assert forall|all: Seq<u64>| begins(deadline.answers(), all) implies begins(asked, all) by {}
        if size <= max_bytes {
            best = Some(midpoint);
            lower = midpoint + 1;
        } else {
            upper = midpoint - 1;
        }
    }
    proof {
        reveal(search_fit);
    }
    Ok(best)
}

/// The number that was found best.
spec fn best_count(best: Option<usize>) -> Option<int> {
    match best {
        Some(best) => Some(best as int),
        None => None,
    }
}

/// Fits a search answer into so many bytes: as it is, or else with fewer results.
pub fn fit_federated_search_response<D: Deadline>(
    response: FederatedSearchResponse,
    max_bytes: u64,
    reason: Option<MemoryTruncationReason>,
    place: &PagePlace,
    deadline: &mut D,
) -> (result: Result<FederatedSearchResponse, MemoryQueryError>)
    requires
        place.offset + response.results.len() <= place.total,
    ensures
        begins(old(deadline).answers(), final(deadline).answers()),
        keeps_time(*old(deadline), *final(deadline)),
        outcome(result) == search_fitted(
            response.deep_view(),
            max_bytes,
            reason,
            place.deep_view(),
            final(deadline).answers(),
            old(deadline).answers().len() as int,
        ),
{
    let ghost model = response.deep_view();
    if deadline.expired() {
        return Err(MemoryQueryError::BudgetExceeded(MemoryTruncationReason::Duration));
    }
    let original = response.copied();
    let paged = match page_search(response, reason, place) {
        Ok(paged) => paged,
        Err(error) => {
            return Err(error);
        },
    };
    let (settled, size) = match settle_search(paged, deadline) {
        Ok(settled) => settled,
        Err(error) => {
            return Err(error);
        },
    };
    if size <= max_bytes {
        return Ok(settled);
    }
    if original.results.len() <= 1 {
        return Err(MemoryQueryError::BudgetExceeded(MemoryTruncationReason::Bytes));
    }
    if deadline.expired() {
        return Err(MemoryQueryError::BudgetExceeded(MemoryTruncationReason::Duration));
    }
    if deadline.expired() {
        return Err(MemoryQueryError::BudgetExceeded(MemoryTruncationReason::Duration));
    }
    let best = match halve_search(&original, max_bytes, place, deadline) {
        Ok(Some(best)) => best,
        Ok(None) => {
            return Err(MemoryQueryError::BudgetExceeded(MemoryTruncationReason::Bytes));
        },
        Err(error) => {
            return Err(error);
        },
    };
    let (cut, size) = match cut_search(&original, best, place, deadline) {
        Ok(cut) => cut,
        Err(error) => {
            return Err(error);
        },
    };
    if size > max_bytes {
        proof {
            reveal_strlit("federation.serialization");
        }
        return Err(backend_error("federation.serialization"));
    }
    Ok(cut)
}

/// An answer that fits is no larger than it may be, states its own size where it states one, and
/// holds the first of the results. It continues, where it does, behind the last of those it holds.
pub proof fn fitted_search_fits(
    response: FederatedSearchResponseView,
    max_bytes: u64,
    reason: Option<MemoryTruncationReason>,
    place: PagePlaceView,
    answers: Seq<u64>,
    at: int,
)
    ensures
        search_fitted(response, max_bytes, reason, place, answers, at) matches Ok(fitted) ==> {
            &&& search_size(fitted) <= max_bytes
            &&& fitted.page.truncation matches Some(truncation) ==> truncation.returned_bytes == search_size(
                fitted,
            )
            &&& exists|count: int|
                0 <= count <= response.results.len() && fitted.results
                    == #[trigger] response.results.take(count)
            &&& fitted.page.next_cursor matches Some(cursor) ==> cursor == federation_cursor(
                "search"@,
                place.fingerprint,
                place.revision_key,
                (place.offset + fitted.results.len()) as u64,
            )
            &&& fitted.requested_domain == response.requested_domain
            &&& fitted.repository == response.repository
            &&& fitted.memory == response.memory
        },
{
    reveal(search_cut);
    if search_fitted(response, max_bytes, reason, place, answers, at) is Ok {
        let paged = search_paged(response, reason, place)->Ok_0;
        settled_states_its_size(paged, 0, answers, at + 1);
        let (settled, size, next) = search_settled(paged, 0, answers, at + 1)->Ok_0;
        if size > max_bytes {
            let (best, found) = search_fit(
                response,
                1,
                response.results.len() - 1,
                None,
                max_bytes,
                place,
                answers,
                next + 2,
            )->Ok_0;
            best_is_between(
                response,
                1,
                response.results.len() - 1,
                None,
                max_bytes,
                place,
                answers,
                next + 2,
            );
            assert(0 <= best->0 <= response.results.len());
            let cut = search_paged(
                FederatedSearchResponseView { results: response.results.take(best->0), ..response },
                Some(MemoryTruncationReason::Bytes),
                place,
            )->Ok_0;
            settled_states_its_size(cut, 0, answers, found);
        } else {
            assert(response.results.take(response.results.len() as int) =~= response.results);
        }
    }
}

proof fn best_is_between(
    response: FederatedSearchResponseView,
    lower: int,
    upper: int,
    best: Option<int>,
    max_bytes: u64,
    place: PagePlaceView,
    answers: Seq<u64>,
    at: int,
)
    requires
        1 <= lower,
        upper < response.results.len(),
        best matches Some(best) ==> 0 <= best <= response.results.len(),
    ensures
        search_fit(response, lower, upper, best, max_bytes, place, answers, at) matches Ok((Some(found), _))
            ==> 0 <= found <= response.results.len(),
    decreases upper + 1 - lower,
{
    reveal(search_fit);
    if lower <= upper && !is_up(answers[at]) {
        let midpoint = lower + (upper - lower) / 2;
        if let Ok((_, size, next)) = search_cut(response, midpoint, place, answers, at + 1) {
            if size <= max_bytes {
                best_is_between(
                    response,
                    midpoint + 1,
                    upper,
                    Some(midpoint),
                    max_bytes,
                    place,
                    answers,
                    next,
                );
            } else {
                best_is_between(
                    response,
                    lower,
                    midpoint - 1,
                    best,
                    max_bytes,
                    place,
                    answers,
                    next,
                );
            }
        }
    }
}

proof fn settled_states_its_size(
    response: FederatedSearchResponseView,
    round: u32,
    answers: Seq<u64>,
    at: int,
)
    ensures
        search_settled(response, round, answers, at) matches Ok((settled, size, _)) ==> {
            &&& size == search_size(settled)
            &&& settled.page.truncation matches Some(truncation) ==> truncation.returned_bytes == size
            &&& settled.results == response.results
            &&& settled.page.next_cursor == response.page.next_cursor
            &&& settled.requested_domain == response.requested_domain
            &&& settled.repository == response.repository
            &&& settled.memory == response.memory
        },
    decreases MAX_SIZE_ROUNDS - round,
{
    reveal(search_settled);
    if round < MAX_SIZE_ROUNDS && !is_up(answers[at]) && !is_up(answers[at + 1]) && response.page.truncation is Some
        && response.page.truncation->0.returned_bytes != search_size(response) {
        settled_states_its_size(
            FederatedSearchResponseView {
                page: stating(response.page, search_size(response)),
                ..response
            },
            (round + 1) as u32,
            answers,
            at + 2,
        );
    }
}

/// A collection of a context answer that may be shortened.
#[derive(Debug, Clone, Copy, PartialEq, Eq, Structural)]
pub enum ContextPart {
    Diagnostics,
    Snippets,
    CrossLinks,
    Relationships,
}

/// How many records a collection of an answer holds.
pub open spec fn part_len(response: FederatedContextResponseView, part: ContextPart) -> int {
    match part {
        ContextPart::Diagnostics => response.federation_diagnostics.len() as int,
        ContextPart::Snippets => response.repository_snippets.len() as int,
        ContextPart::CrossLinks => response.cross_domain_links.len() as int,
        ContextPart::Relationships => response.memory_relationships.len() as int,
    }
}

/// An answer with the first so many records of a collection as it was.
pub open spec fn with_part(
    response: FederatedContextResponseView,
    original: FederatedContextResponseView,
    part: ContextPart,
    count: int,
) -> FederatedContextResponseView {
    match part {
        ContextPart::Diagnostics => FederatedContextResponseView {
            federation_diagnostics: original.federation_diagnostics.take(count),
            ..response
        },
        ContextPart::Snippets => FederatedContextResponseView {
            repository_snippets: original.repository_snippets.take(count),
            ..response
        },
        ContextPart::CrossLinks => FederatedContextResponseView {
            cross_domain_links: original.cross_domain_links.take(count),
            ..response
        },
        ContextPart::Relationships => FederatedContextResponseView {
            memory_relationships: original.memory_relationships.take(count),
            ..response
        },
    }
}

/// The page that a context answer states, before its size is known.
pub open spec fn context_paged(
    response: FederatedContextResponseView,
    reason: Option<MemoryTruncationReason>,
    explored_depth: u32,
    place: PagePlaceView,
) -> Result<FederatedContextResponseView, MemoryQueryErrorView> {
    let count = response.items.len();
    let has_more = place.offset + count < place.total;
    let cursor = federation_cursor(
        "context"@,
        place.fingerprint,
        place.revision_key,
        (place.offset + count) as u64,
    );
    if is_continued(reason, count, has_more) && !is_bounded_text(cursor, MAX_ID_BYTES as nat, false) {
        Err(backend("federation.cursor"@))
    } else {
        Ok(
            FederatedContextResponseView {
                page: federated_page_model(reason, count, 0, explored_depth, has_more, cursor),
                ..response
            },
        )
    }
}

/// The size of an answer.
#[verifier::opaque]
pub open spec fn context_size(response: FederatedContextResponseView) -> u64 {
    byte_len(<FederatedContextResponse as ToJson>::json(response)) as u64
}

/// The answer that states its own size, and that size.
pub open spec fn context_settled(
    response: FederatedContextResponseView,
    round: u32,
) -> Result<(FederatedContextResponseView, u64), MemoryQueryErrorView>
    decreases MAX_SIZE_ROUNDS - round,
{
    if round >= MAX_SIZE_ROUNDS {
        Err(backend("federation.serialization"@))
    } else {
        let size = context_size(response);
        match response.page.truncation {
            None => Ok((response, size)),
            Some(truncation) => if truncation.returned_bytes == size {
                Ok((response, size))
            } else {
                context_settled(
                    FederatedContextResponseView { page: stating(response.page, size), ..response },
                    (round + 1) as u32,
                )
            },
        }
    }
}

/// How far the fitting of an answer has come: the answer as it stands, how many records fit, if any
/// number does, and how many answers of the deadline are known.
#[verifier::ext_equal]
pub struct Fitting {
    pub response: FederatedContextResponseView,
    pub best: Option<int>,
    pub at: int,
}

/// The number of records of a collection with which the answer fits, found by halving.
#[verifier::opaque]
pub open spec fn part_fit(
    state: Fitting,
    original: FederatedContextResponseView,
    part: ContextPart,
    lower: int,
    upper: int,
    max_bytes: u64,
    answers: Seq<u64>,
) -> Result<Fitting, MemoryQueryErrorView>
    decreases upper - lower,
{
    if lower >= upper {
        Ok(state)
    } else if is_up(answers[state.at]) {
        Err(too_late())
    } else {
        let midpoint = lower + (upper - lower) / 2;
        match context_settled(with_part(state.response, original, part, midpoint), 0) {
            Err(error) => Err(error),
            Ok((settled, size)) => if is_up(answers[state.at + 1]) {
                Err(too_late())
            } else if size <= max_bytes {
                part_fit(
                    Fitting { response: settled, best: Some(midpoint), at: state.at + 2 },
                    original,
                    part,
                    midpoint + 1,
                    upper,
                    max_bytes,
                    answers,
                )
            } else {
                part_fit(
                    Fitting { response: settled, best: state.best, at: state.at + 2 },
                    original,
                    part,
                    lower,
                    midpoint,
                    max_bytes,
                    answers,
                )
            },
        }
    }
}

/// The answer with as much of a collection as fits, whether it fits then, and how many answers of
/// the deadline are known.
#[verifier::opaque]
pub open spec fn part_fitted(
    response: FederatedContextResponseView,
    original: FederatedContextResponseView,
    part: ContextPart,
    max_bytes: u64,
    answers: Seq<u64>,
    at: int,
) -> Result<(FederatedContextResponseView, bool, int), MemoryQueryErrorView> {
    match part_fit(
        Fitting { response, best: None, at },
        original,
        part,
        0,
        part_len(original, part) + 1,
        max_bytes,
        answers,
    ) {
        Err(error) => Err(error),
        Ok(state) => match state.best {
            None => Ok((with_part(state.response, original, part, 0), false, state.at)),
            Some(best) => match context_settled(with_part(state.response, original, part, best), 0) {
                Err(error) => Err(error),
                Ok((settled, size)) => if is_up(answers[state.at]) {
                    Err(too_late())
                } else {
                    Ok((settled, size <= max_bytes, state.at + 1))
                },
            },
        },
    }
}

/// An answer with the first so many of its items, and the page for them.
pub open spec fn items_cut(
    response: FederatedContextResponseView,
    items: Seq<FederatedContextItemView>,
    count: int,
    explored_depth: u32,
    place: PagePlaceView,
) -> Result<(FederatedContextResponseView, u64), MemoryQueryErrorView> {
    match context_paged(
        FederatedContextResponseView { items: items.take(count), ..response },
        Some(MemoryTruncationReason::Bytes),
        explored_depth,
        place,
    ) {
        Err(error) => Err(error),
        Ok(paged) => context_settled(paged, 0),
    }
}

/// The number of items with which the answer fits, found by halving.
#[verifier::opaque]
pub open spec fn items_fit(
    response: FederatedContextResponseView,
    items: Seq<FederatedContextItemView>,
    lower: int,
    upper: int,
    best: Option<int>,
    max_bytes: u64,
    explored_depth: u32,
    place: PagePlaceView,
    answers: Seq<u64>,
    at: int,
) -> Result<(Option<int>, int), MemoryQueryErrorView>
    decreases upper - lower,
{
    if lower >= upper {
        Ok((best, at))
    } else if is_up(answers[at]) {
        Err(too_late())
    } else {
        let midpoint = lower + (upper - lower) / 2;
        match items_cut(response, items, midpoint, explored_depth, place) {
            Err(error) => Err(error),
            Ok((_, size)) => if is_up(answers[at + 1]) {
                Err(too_late())
            } else if size <= max_bytes {
                items_fit(
                    response,
                    items,
                    midpoint + 1,
                    upper,
                    Some(midpoint),
                    max_bytes,
                    explored_depth,
                    place,
                    answers,
                    at + 2,
                )
            } else {
                items_fit(
                    response,
                    items,
                    lower,
                    midpoint,
                    best,
                    max_bytes,
                    explored_depth,
                    place,
                    answers,
                    at + 2,
                )
            },
        }
    }
}

/// The answer with as many of its items as fit; none where not even one does.
#[verifier::opaque]
pub open spec fn items_fitted(
    response: FederatedContextResponseView,
    max_bytes: u64,
    explored_depth: u32,
    place: PagePlaceView,
    answers: Seq<u64>,
    at: int,
) -> Result<FederatedContextResponseView, MemoryQueryErrorView> {
    if response.items.len() == 0 {
        Err(too_large())
    } else {
        match items_fit(
            response,
            response.items,
            1,
            response.items.len() as int + 1,
            None,
            max_bytes,
            explored_depth,
            place,
            answers,
            at,
        ) {
            Err(error) => Err(error),
            Ok((None, _)) => Err(too_large()),
            Ok((Some(best), found)) => match items_cut(
                response,
                response.items,
                best,
                explored_depth,
                place,
            ) {
                Err(error) => Err(error),
                Ok((settled, size)) => if is_up(answers[found]) {
                    Err(too_late())
                } else if size > max_bytes {
                    Err(backend("federation.serialization"@))
                } else {
                    Ok(settled)
                },
            },
        }
    }
}

/// The answer with its collections shortened one after the other, from a collection on, until it
/// fits; then its items.
pub open spec fn parts_fitted(
    response: FederatedContextResponseView,
    original: FederatedContextResponseView,
    parts: Seq<ContextPart>,
    max_bytes: u64,
    explored_depth: u32,
    place: PagePlaceView,
    answers: Seq<u64>,
    at: int,
) -> Result<FederatedContextResponseView, MemoryQueryErrorView>
    decreases parts.len(),
{
    if parts.len() == 0 {
        items_fitted(response, max_bytes, explored_depth, place, answers, at)
    } else {
        match part_fitted(response, original, parts[0], max_bytes, answers, at) {
            Err(error) => Err(error),
            Ok((shortened, fits, next)) => if fits {
                Ok(shortened)
            } else {
                parts_fitted(
                    shortened,
                    original,
                    parts.skip(1),
                    max_bytes,
                    explored_depth,
                    place,
                    answers,
                    next,
                )
            },
        }
    }
}

/// The order in which collections are shortened: what explains least goes first.
pub open spec fn shortening_order() -> Seq<ContextPart> {
    seq![
        ContextPart::Diagnostics,
        ContextPart::Snippets,
        ContextPart::CrossLinks,
        ContextPart::Relationships,
    ]
}

/// The context answer that fits into so many bytes: as it is, or else with its diagnostics, its
/// snippets, its links, its relationships and at last its items shortened.
pub open spec fn context_fitted(
    response: FederatedContextResponseView,
    max_bytes: u64,
    reason: Option<MemoryTruncationReason>,
    explored_depth: u32,
    place: PagePlaceView,
    answers: Seq<u64>,
    at: int,
) -> Result<FederatedContextResponseView, MemoryQueryErrorView> {
    match context_paged(response, reason, explored_depth, place) {
        Err(error) => Err(error),
        Ok(paged) => match context_settled(paged, 0) {
            Err(error) => Err(error),
            Ok((settled, size)) => if is_up(answers[at]) {
                Err(too_late())
            } else if size <= max_bytes {
                Ok(settled)
            } else {
                match context_paged(
                    response,
                    Some(MemoryTruncationReason::Bytes),
                    explored_depth,
                    place,
                ) {
                    Err(error) => Err(error),
                    Ok(repaged) => parts_fitted(
                        repaged,
                        response,
                        shortening_order(),
                        max_bytes,
                        explored_depth,
                        place,
                        answers,
                        at + 1,
                    ),
                }
            },
        },
    }
}

fn context_len(response: &FederatedContextResponse) -> (size: u64)
    ensures
        size == context_size(response.deep_view()),
{
    proof {
        reveal(context_size);
    }
    serialized_len(response)
}

fn page_context(
    response: FederatedContextResponse,
    reason: Option<MemoryTruncationReason>,
    explored_depth: u32,
    place: &PagePlace,
) -> (result: Result<FederatedContextResponse, MemoryQueryError>)
    requires
        place.offset + response.items.len() <= place.total,
    ensures
        outcome(result) == context_paged(response.deep_view(), reason, explored_depth, place.deep_view()),
{
    let mut response = response;
    let count = response.items.len();
    match federated_page(
        reason,
        count,
        0,
        explored_depth,
        place.offset + count < place.total,
        "context",
        place.fingerprint,
        place.revision_key,
        (place.offset + count) as u64,
    ) {
        Ok(page) => {
            response.page = page;
            Ok(response)
        },
        Err(error) => Err(error),
    }
}

/// What settling came to.
spec fn settled_context_result(
    result: Result<(FederatedContextResponse, u64), MemoryQueryError>,
) -> Result<(FederatedContextResponseView, u64), MemoryQueryErrorView> {
    match result {
        Ok((response, size)) => Ok((response.deep_view(), size)),
        Err(error) => Err(error.deep_view()),
    }
}

fn settle_context(response: FederatedContextResponse) -> (result: Result<
    (FederatedContextResponse, u64),
    MemoryQueryError,
>)
    ensures
        context_settled(response.deep_view(), 0) == settled_context_result(result),
        result matches Ok((settled, _)) ==> settled.items == response.items,
{
    let ghost first = response.deep_view();
    let mut current = response;
    let mut round: u32 = 0;
    while round < MAX_SIZE_ROUNDS
        invariant
            round <= MAX_SIZE_ROUNDS,
            first == response.deep_view(),
            current.items == response.items,
            context_settled(first, 0) == context_settled(current.deep_view(), round),
        decreases MAX_SIZE_ROUNDS - round,
    {
        let size = context_len(&current);
        match &current.page.truncation {
            None => {
                return Ok((current, size));
            },
            Some(truncation) => {
                if truncation.returned_bytes == size {
                    return Ok((current, size));
                }
                let ghost stated = current.deep_view();
                let mut next = truncation.copied();
                next.returned_bytes = size;
                current.page.truncation = Some(next);
                assert(current.deep_view() == (FederatedContextResponseView {
                    page: stating(stated.page, size),
                    ..stated
                }));
            },
        }
        round += 1;
    }
    proof {
        reveal_strlit("federation.serialization");
    }
    Err(backend_error("federation.serialization"))
}

fn put_part(
    response: FederatedContextResponse,
    original: &FederatedContextResponse,
    part: ContextPart,
    count: usize,
) -> (result: FederatedContextResponse)
    requires
        count <= part_len(original.deep_view(), part),
    ensures
        result.deep_view() == with_part(
            response.deep_view(),
            original.deep_view(),
            part,
            count as int,
        ),
        result.items == response.items,
{
    let mut response = response;
    match part {
        ContextPart::Diagnostics => {
            response.federation_diagnostics = first(&original.federation_diagnostics, count);
        },
        ContextPart::Snippets => {
            response.repository_snippets = first(&original.repository_snippets, count);
        },
        ContextPart::CrossLinks => {
            response.cross_domain_links = first(&original.cross_domain_links, count);
        },
        ContextPart::Relationships => {
            response.memory_relationships = first(&original.memory_relationships, count);
        },
    }
    response
}

fn len_of_part(response: &FederatedContextResponse, part: ContextPart) -> (len: usize)
    ensures
        len == part_len(response.deep_view(), part),
{
    match part {
        ContextPart::Diagnostics => response.federation_diagnostics.len(),
        ContextPart::Snippets => response.repository_snippets.len(),
        ContextPart::CrossLinks => response.cross_domain_links.len(),
        ContextPart::Relationships => response.memory_relationships.len(),
    }
}

/// What halving came to.
spec fn fitting_result(
    result: Result<(FederatedContextResponse, Option<usize>), MemoryQueryError>,
    at: int,
) -> Result<Fitting, MemoryQueryErrorView> {
    match result {
        Ok((response, best)) => Ok(
            Fitting { response: response.deep_view(), best: best_count(best), at },
        ),
        Err(error) => Err(error.deep_view()),
    }
}

fn halve_part<D: Deadline>(
    response: FederatedContextResponse,
    original: &FederatedContextResponse,
    part: ContextPart,
    max_bytes: u64,
    deadline: &mut D,
) -> (result: Result<(FederatedContextResponse, Option<usize>), MemoryQueryError>)
    ensures
        begins(old(deadline).answers(), final(deadline).answers()),
        keeps_time(*old(deadline), *final(deadline)),
        result matches Ok((settled, best)) ==> settled.items == response.items && (best matches Some(
            count,
        ) ==> count <= part_len(original.deep_view(), part)),
        forall|all: Seq<u64>|
            begins(final(deadline).answers(), all) ==> #[trigger] part_fit(
                Fitting {
                    response: response.deep_view(),
                    best: None,
                    at: old(deadline).answers().len() as int,
                },
                original.deep_view(),
                part,
                0,
                part_len(original.deep_view(), part) + 1,
                max_bytes,
                all,
            ) == fitting_result(result, final(deadline).answers().len() as int),
{
    let ghost begun = Fitting {
        response: response.deep_view(),
        best: None,
        at: deadline.answers().len() as int,
    };
    let ghost whole = original.deep_view();
    let len = len_of_part(original, part);
    let ghost end = len + 1;
    let mut current = response;
    let mut lower: u128 = 0;
    let mut upper: u128 = len as u128 + 1;
    let mut best: Option<usize> = None;
    while lower < upper
        invariant
            len == part_len(whole, part),
            end == len + 1,
            whole == original.deep_view(),
            current.items == response.items,
            begun == (Fitting {
                response: response.deep_view(),
                best: None,
                at: old(deadline).answers().len() as int,
            }),
            lower <= upper <= len + 1,
            best matches Some(count) ==> count <= len,
            begins(old(deadline).answers(), deadline.answers()),
            keeps_time(*old(deadline), *deadline),
            forall|all: Seq<u64>|
                begins(deadline.answers(), all) ==> #[trigger] part_fit(
                    begun,
                    whole,
                    part,
                    0,
                    end,
                    max_bytes,
                    all,
                ) == part_fit(
                    Fitting {
                        response: current.deep_view(),
                        best: best_count(best),
                        at: deadline.answers().len() as int,
                    },
                    whole,
                    part,
                    lower as int,
                    upper as int,
                    max_bytes,
                    all,
                ),
        decreases upper - lower,
    {
        proof {
            reveal(part_fit);
        }
        let ghost before = deadline.answers();
        let late = deadline.expired();
        proof {
            assert forall|all: Seq<u64>| begins(deadline.answers(), all) implies begins(before, all) && is_up(all[
                before.len() as int
            ]) == late by {
                assert(all[before.len() as int] == deadline.answers()[before.len() as int]);
            }
        }
        if late {
            return Err(MemoryQueryError::BudgetExceeded(MemoryTruncationReason::Duration));
        }
        let midpoint: u128 = lower + (upper - lower) / 2;
        let (settled, size) = match settle_context(put_part(current, original, part, midpoint as usize)) {
            Ok(settled) => settled,
            Err(error) => {
                return Err(error);
            },
        };
        let ghost middle = deadline.answers();
        let late = deadline.expired();
        proof {
            assert forall|all: Seq<u64>| begins(deadline.answers(), all) implies begins(middle, all) && is_up(all[
                middle.len() as int
            ]) == late by {
                assert(all[middle.len() as int] == deadline.answers()[middle.len() as int]);
            }
        }
        if late {
            return Err(MemoryQueryError::BudgetExceeded(MemoryTruncationReason::Duration));
        }
        current = settled;
        if size <= max_bytes {
            best = Some(midpoint as usize);
            lower = midpoint + 1;
        } else {
            upper = midpoint;
        }
    }
    proof {
        reveal(part_fit);
    }
    Ok((current, best))
}

/// What shortening a collection came to.
spec fn shortened_result(
    result: Result<(FederatedContextResponse, bool), MemoryQueryError>,
    at: int,
) -> Result<(FederatedContextResponseView, bool, int), MemoryQueryErrorView> {
    match result {
        Ok((response, fits)) => Ok((response.deep_view(), fits, at)),
        Err(error) => Err(error.deep_view()),
    }
}

fn fit_context_collection<D: Deadline>(
    response: FederatedContextResponse,
    original: &FederatedContextResponse,
    part: ContextPart,
    max_bytes: u64,
    deadline: &mut D,
) -> (result: Result<(FederatedContextResponse, bool), MemoryQueryError>)
    ensures
        begins(old(deadline).answers(), final(deadline).answers()),
        keeps_time(*old(deadline), *final(deadline)),
        result matches Ok((shortened, _)) ==> shortened.items == response.items,
        forall|all: Seq<u64>|
            begins(final(deadline).answers(), all) ==> #[trigger] part_fitted(
                response.deep_view(),
                original.deep_view(),
                part,
                max_bytes,
                all,
                old(deadline).answers().len() as int,
            ) == shortened_result(result, final(deadline).answers().len() as int),
{
    proof {
        reveal(part_fitted);
    }
    let (current, best) = match halve_part(response, original, part, max_bytes, deadline) {
        Ok(found) => found,
        Err(error) => {
            return Err(error);
        },
    };
    let best = match best {
        Some(best) => best,
        None => {
            return Ok((put_part(current, original, part, 0), false));
        },
    };
    let (settled, size) = match settle_context(put_part(current, original, part, best)) {
        Ok(settled) => settled,
        Err(error) => {
            return Err(error);
        },
    };
    let ghost before = deadline.answers();
    let late = deadline.expired();
    proof {
        assert forall|all: Seq<u64>| begins(deadline.answers(), all) implies begins(before, all) && is_up(all[
            before.len() as int
        ]) == late by {
            assert(all[before.len() as int] == deadline.answers()[before.len() as int]);
        }
    }
    if late {
        return Err(MemoryQueryError::BudgetExceeded(MemoryTruncationReason::Duration));
    }
    Ok((settled, size <= max_bytes))
}

fn cut_items(
    response: &FederatedContextResponse,
    count: usize,
    explored_depth: u32,
    place: &PagePlace,
) -> (result: Result<(FederatedContextResponse, u64), MemoryQueryError>)
    requires
        count <= response.items.len(),
        place.offset + response.items.len() <= place.total,
    ensures
        items_cut(
            response.deep_view(),
            response.deep_view().items,
            count as int,
            explored_depth,
            place.deep_view(),
        ) == settled_context_result(result),
{
    let mut cut = response.copied();
    cut.items = first(&response.items, count);
    match page_context(cut, Some(MemoryTruncationReason::Bytes), explored_depth, place) {
        Ok(paged) => settle_context(paged),
        Err(error) => Err(error),
    }
}

fn halve_items<D: Deadline>(
    response: &FederatedContextResponse,
    max_bytes: u64,
    explored_depth: u32,
    place: &PagePlace,
    deadline: &mut D,
) -> (result: Result<Option<usize>, MemoryQueryError>)
    requires
        place.offset + response.items.len() <= place.total,
        response.items.len() > 0,
    ensures
        begins(old(deadline).answers(), final(deadline).answers()),
        keeps_time(*old(deadline), *final(deadline)),
        result matches Ok(Some(best)) ==> best <= response.items.len(),
        forall|all: Seq<u64>|
            begins(final(deadline).answers(), all) ==> #[trigger] items_fit(
                response.deep_view(),
                response.deep_view().items,
                1,
                response.items.len() + 1,
                None,
                max_bytes,
                explored_depth,
                place.deep_view(),
                all,
                old(deadline).answers().len() as int,
            ) == match result {
                Ok(best) => Ok::<_, MemoryQueryErrorView>(
                    (best_count(best), final(deadline).answers().len() as int),
                ),
                Err(error) => Err::<(Option<int>, int), _>(error.deep_view()),
            },
{
    let ghost start = deadline.answers().len() as int;
    let ghost model = response.deep_view();
    let ghost end = response.items.len() + 1;
    let mut lower: u128 = 1;
    let mut upper: u128 = response.items.len() as u128 + 1;
    let mut best: Option<usize> = None;
    while lower < upper
        invariant
            1 <= lower <= upper <= response.items.len() + 1,
            place.offset + response.items.len() <= place.total,
            model == response.deep_view(),
            end == response.items.len() + 1,
            start == old(deadline).answers().len(),
            best matches Some(count) ==> count <= response.items.len(),
            begins(old(deadline).answers(), deadline.answers()),
            keeps_time(*old(deadline), *deadline),
            forall|all: Seq<u64>|
                begins(deadline.answers(), all) ==> #[trigger] items_fit(
                    model,
                    model.items,
                    1,
                    end,
                    None,
                    max_bytes,
                    explored_depth,
                    place.deep_view(),
                    all,
                    start,
                ) == items_fit(
                    model,
                    model.items,
                    lower as int,
                    upper as int,
                    best_count(best),
                    max_bytes,
                    explored_depth,
                    place.deep_view(),
                    all,
                    deadline.answers().len() as int,
                ),
        decreases upper - lower,
    {
        proof {
            reveal(items_fit);
        }
        let ghost before = deadline.answers();
        let late = deadline.expired();
        proof {
            assert forall|all: Seq<u64>| begins(deadline.answers(), all) implies begins(before, all) && is_up(all[
                before.len() as int
            ]) == late by {
                assert(all[before.len() as int] == deadline.answers()[before.len() as int]);
            }
        }
        if late {
            return Err(MemoryQueryError::BudgetExceeded(MemoryTruncationReason::Duration));
        }
        let midpoint: u128 = lower + (upper - lower) / 2;
        let size = match cut_items(response, midpoint as usize, explored_depth, place) {
            Ok((_, size)) => size,
            Err(error) => {
                return Err(error);
            },
        };
        let ghost middle = deadline.answers();
        let late = deadline.expired();
        proof {
            assert forall|all: Seq<u64>| begins(deadline.answers(), all) implies begins(middle, all) && is_up(all[
                middle.len() as int
            ]) == late by {
                assert(all[middle.len() as int] == deadline.answers()[middle.len() as int]);
            }
        }
        if late {
            return Err(MemoryQueryError::BudgetExceeded(MemoryTruncationReason::Duration));
        }
        if size <= max_bytes {
            best = Some(midpoint as usize);
            lower = midpoint + 1;
        } else {
            upper = midpoint;
        }
    }
    proof {
        reveal(items_fit);
    }
    Ok(best)
}

fn fit_federated_context_items<D: Deadline>(
    response: &FederatedContextResponse,
    max_bytes: u64,
    explored_depth: u32,
    place: &PagePlace,
    deadline: &mut D,
) -> (result: Result<FederatedContextResponse, MemoryQueryError>)
    requires
        place.offset + response.items.len() <= place.total,
    ensures
        begins(old(deadline).answers(), final(deadline).answers()),
        keeps_time(*old(deadline), *final(deadline)),
        forall|all: Seq<u64>|
            begins(final(deadline).answers(), all) ==> #[trigger] items_fitted(
                response.deep_view(),
                max_bytes,
                explored_depth,
                place.deep_view(),
                all,
                old(deadline).answers().len() as int,
            ) == outcome(result),
{
    proof {
        reveal(items_fitted);
    }
    if response.items.len() == 0 {
        return Err(MemoryQueryError::BudgetExceeded(MemoryTruncationReason::Bytes));
    }
    let best = match halve_items(response, max_bytes, explored_depth, place, deadline) {
        Ok(Some(best)) => best,
        Ok(None) => {
            return Err(MemoryQueryError::BudgetExceeded(MemoryTruncationReason::Bytes));
        },
        Err(error) => {
            return Err(error);
        },
    };
    let (settled, size) = match cut_items(response, best, explored_depth, place) {
        Ok(settled) => settled,
        Err(error) => {
            return Err(error);
        },
    };
    let ghost before = deadline.answers();
    let late = deadline.expired();
    proof {
        assert forall|all: Seq<u64>| begins(deadline.answers(), all) implies begins(before, all) && is_up(all[
            before.len() as int
        ]) == late by {
            assert(all[before.len() as int] == deadline.answers()[before.len() as int]);
        }
    }
    if late {
        return Err(MemoryQueryError::BudgetExceeded(MemoryTruncationReason::Duration));
    }
    if size > max_bytes {
        proof {
            reveal_strlit("federation.serialization");
        }
        return Err(backend_error("federation.serialization"));
    }
    Ok(settled)
}

fn fit_parts<D: Deadline>(
    response: FederatedContextResponse,
    original: &FederatedContextResponse,
    parts: &[ContextPart],
    max_bytes: u64,
    explored_depth: u32,
    place: &PagePlace,
    deadline: &mut D,
) -> (result: Result<FederatedContextResponse, MemoryQueryError>)
    requires
        place.offset + response.items.len() <= place.total,
    ensures
        begins(old(deadline).answers(), final(deadline).answers()),
        keeps_time(*old(deadline), *final(deadline)),
        forall|all: Seq<u64>|
            begins(final(deadline).answers(), all) ==> #[trigger] parts_fitted(
                response.deep_view(),
                original.deep_view(),
                parts@,
                max_bytes,
                explored_depth,
                place.deep_view(),
                all,
                old(deadline).answers().len() as int,
            ) == outcome(result),
{
    let ghost start = deadline.answers().len() as int;
    let ghost model = response.deep_view();
    let ghost whole = original.deep_view();
    let mut current = response;
    let mut next: usize = 0;
    assert(parts@.skip(0) =~= parts@);
    while next < parts.len()
        invariant
            next <= parts.len(),
            model == response.deep_view(),
            whole == original.deep_view(),
            start == old(deadline).answers().len(),
            current.items == response.items,
            begins(old(deadline).answers(), deadline.answers()),
            keeps_time(*old(deadline), *deadline),
            forall|all: Seq<u64>|
                begins(deadline.answers(), all) ==> #[trigger] parts_fitted(
                    model,
                    whole,
                    parts@,
                    max_bytes,
                    explored_depth,
                    place.deep_view(),
                    all,
                    start,
                ) == parts_fitted(
                    current.deep_view(),
                    whole,
                    parts@.skip(next as int),
                    max_bytes,
                    explored_depth,
                    place.deep_view(),
                    all,
                    deadline.answers().len() as int,
                ),
        decreases parts.len() - next,
    {
        let ghost before = deadline.answers();
        assert(parts@.skip(next as int)[0] == parts@[next as int]);
        assert(parts@.skip(next as int).skip(1) =~= parts@.skip(next + 1));
        let (shortened, fits) = match fit_context_collection(
            current,
            original,
            parts[next],
            max_bytes,
            deadline,
        ) {
            Ok(shortened) => shortened,
            Err(error) => {
                return Err(error);
            },
        };
        assert forall|all: Seq<u64>| begins(deadline.answers(), all) implies begins(before, all) by {}
        if fits {
            return Ok(shortened);
        }
        current = shortened;
        next += 1;
    }
    fit_federated_context_items(&current, max_bytes, explored_depth, place, deadline)
}

/// Fits a context answer into so many bytes: as it is, or else with its diagnostics, its snippets,
/// its links, its relationships and at last its items shortened. It is for those who hand an answer on in
/// so many bytes as a whole; the budget of a question for context bounds the sizes of what the answer
/// holds, and not that of the text around it.
pub fn fit_federated_context_response<D: Deadline>(
    response: FederatedContextResponse,
    max_bytes: u64,
    reason: Option<MemoryTruncationReason>,
    explored_depth: u32,
    place: &PagePlace,
    deadline: &mut D,
) -> (result: Result<FederatedContextResponse, MemoryQueryError>)
    requires
        place.offset + response.items.len() <= place.total,
    ensures
        begins(old(deadline).answers(), final(deadline).answers()),
        keeps_time(*old(deadline), *final(deadline)),
        outcome(result) == context_fitted(
            response.deep_view(),
            max_bytes,
            reason,
            explored_depth,
            place.deep_view(),
            final(deadline).answers(),
            old(deadline).answers().len() as int,
        ),
{
    let original = response.copied();
    let again = response.copied();
    let paged = match page_context(response, reason, explored_depth, place) {
        Ok(paged) => paged,
        Err(error) => {
            return Err(error);
        },
    };
    let (settled, size) = match settle_context(paged) {
        Ok(settled) => settled,
        Err(error) => {
            return Err(error);
        },
    };
    if deadline.expired() {
        return Err(MemoryQueryError::BudgetExceeded(MemoryTruncationReason::Duration));
    }
    if size <= max_bytes {
        return Ok(settled);
    }
    let repaged = match page_context(again, Some(MemoryTruncationReason::Bytes), explored_depth, place) {
        Ok(repaged) => repaged,
        Err(error) => {
            return Err(error);
        },
    };
    let parts = [
        ContextPart::Diagnostics,
        ContextPart::Snippets,
        ContextPart::CrossLinks,
        ContextPart::Relationships,
    ];
    assert(parts@ =~= shortening_order());
    fit_parts(repaged, &original, &parts, max_bytes, explored_depth, place, deadline)
}

proof fn settled_context_states_its_size(response: FederatedContextResponseView, round: u32)
    ensures
        context_settled(response, round) matches Ok((settled, size)) ==> {
            &&& size == context_size(settled)
            &&& settled.page.truncation matches Some(truncation) ==> truncation.returned_bytes == size
        },
    decreases MAX_SIZE_ROUNDS - round,
{
    if round < MAX_SIZE_ROUNDS && response.page.truncation is Some
        && response.page.truncation->0.returned_bytes != context_size(response) {
        settled_context_states_its_size(
            FederatedContextResponseView {
                page: stating(response.page, context_size(response)),
                ..response
            },
            (round + 1) as u32,
        );
    }
}

proof fn shortened_context_fits(
    response: FederatedContextResponseView,
    original: FederatedContextResponseView,
    parts: Seq<ContextPart>,
    max_bytes: u64,
    explored_depth: u32,
    place: PagePlaceView,
    answers: Seq<u64>,
    at: int,
)
    ensures
        parts_fitted(response, original, parts, max_bytes, explored_depth, place, answers, at) matches Ok(
            fitted,
        ) ==> {
            &&& context_size(fitted) <= max_bytes
            &&& fitted.page.truncation matches Some(truncation) ==> truncation.returned_bytes
                == context_size(fitted)
        },
    decreases parts.len(),
{
    assert forall|other: FederatedContextResponseView| #[trigger] context_settled(other, 0) is Ok implies {
        let (settled, size) = context_settled(other, 0)->Ok_0;
        &&& size == context_size(settled)
        &&& settled.page.truncation matches Some(truncation) ==> truncation.returned_bytes == size
    } by {
        settled_context_states_its_size(other, 0);
    }
    if parts.len() == 0 {
        reveal(items_fitted);
    } else {
        reveal(part_fitted);
        if let Ok((shortened, fits, next)) = part_fitted(
            response,
            original,
            parts[0],
            max_bytes,
            answers,
            at,
        ) {
            if !fits {
                shortened_context_fits(
                    shortened,
                    original,
                    parts.skip(1),
                    max_bytes,
                    explored_depth,
                    place,
                    answers,
                    next,
                );
            }
        }
    }
}

/// A context answer that fits is no larger than it may be, and states its own size where it states
/// one.
pub proof fn fitted_context_fits(
    response: FederatedContextResponseView,
    max_bytes: u64,
    reason: Option<MemoryTruncationReason>,
    explored_depth: u32,
    place: PagePlaceView,
    answers: Seq<u64>,
    at: int,
)
    ensures
        context_fitted(response, max_bytes, reason, explored_depth, place, answers, at) matches Ok(fitted)
            ==> {
            &&& context_size(fitted) <= max_bytes
            &&& fitted.page.truncation matches Some(truncation) ==> truncation.returned_bytes
                == context_size(fitted)
        },
{
    if let Ok(paged) = context_paged(response, reason, explored_depth, place) {
        settled_context_states_its_size(paged, 0);
    }
    if let Ok(repaged) = context_paged(
        response,
        Some(MemoryTruncationReason::Bytes),
        explored_depth,
        place,
    ) {
        shortened_context_fits(
            repaged,
            response,
            shortening_order(),
            max_bytes,
            explored_depth,
            place,
            answers,
            at + 1,
        );
    }
}

}
