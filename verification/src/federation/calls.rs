//! What holds of two calls of the federated service, one after the other.
use vstd::prelude::*;
use crate::budget::{effective, EffectiveBudget};
use crate::cursor::federation_cursor;
use crate::federation::collecting::{context_findings, ContextFindingsView};
use crate::federation::context::{all_items, items_wanted};
use crate::federation::crossing::said;
use crate::federation::cutting::{in_time, items_outlast_links, items_size};
use crate::federation::laws::{
    found_once, goes_on, in_answer_order, search_page_is_a_part, searches_do_not_repeat,
};
use crate::federation::search::{findings, pending, results_wanted, DomainFindings};
use crate::federation::state::{result_key, revisions_key, search_identity};
use crate::federation::{
    FederatedContextRequestView, FederatedContextResponseView, FederatedScopeView,
    FederatedSearchRequestView, FederatedSearchResponseView, FederatedSearchResult,
};
use crate::ports::{GraphQuery, MemoryLinkStore, MemoryQuery};
use crate::query::{MemoryQueryErrorView, MemoryTruncationReason};
use crate::service::{federated_context_went, federated_search_went, FederatedContextService};
use crate::sort::is_keyed;

verus! {

/// What the domains found for a search.
pub open spec fn found_by<R: GraphQuery, M: MemoryQuery, L>(
    before: FederatedContextService<R, M, L>,
    after: FederatedContextService<R, M, L>,
    request: FederatedSearchRequestView,
    answers: Seq<u64>,
) -> Result<DomainFindings, MemoryQueryErrorView> {
    findings(
        request.scope.target,
        after.repository.searches(),
        before.repository.searches().len() as int,
        after.memory.searches(),
        before.memory.searches().len() as int,
        results_wanted(request, before.limits.deep_view()),
        answers,
        0,
    )
}

/// Two searches of the service, the second from the cursor of the first on, repeat nothing: where what the
/// domains found for the second goes on behind the answer to the first, the results of both together stand
/// in the order of all results, and no result is in both answers, nor anything that the domains found
/// once. Where a revision has changed in between, the second search is refused: the cursor is stale.
pub proof fn second_search_repeats_nothing<R: GraphQuery, M: MemoryQuery, L>(
    one: FederatedContextService<R, M, L>,
    one_after: FederatedContextService<R, M, L>,
    two: FederatedContextService<R, M, L>,
    two_after: FederatedContextService<R, M, L>,
    first: FederatedSearchRequestView,
    second: FederatedSearchRequestView,
    answers: Seq<u64>,
    later_answers: Seq<u64>,
    before: FederatedSearchResponseView,
    result: Result<FederatedSearchResponseView, MemoryQueryErrorView>,
)
    requires
        federated_search_went(one, one_after, first, answers, Ok(before)),
        federated_search_went(two, two_after, second, later_answers, result),
        two.limits.deep_view() == one.limits.deep_view(),
        first.cursor is None,
        before.page.next_cursor is Some,
        second == (FederatedSearchRequestView { cursor: before.page.next_cursor, ..first }),
        before.results.len() <= usize::MAX,
        found_by(two, two_after, second, later_answers) is Ok,
        goes_on(
            in_answer_order(found_by(one, one_after, first, answers)->Ok_0),
            in_answer_order(found_by(two, two_after, second, later_answers)->Ok_0),
            before.results.len() as int,
        ),
    ensures
        ({
            let found = found_by(one, one_after, first, answers)->Ok_0;
            let later = found_by(two, two_after, second, later_answers)->Ok_0;
            &&& result matches Ok(after) ==> {
                &&& is_keyed::<FederatedSearchResult>(before.results + after.results)
                &&& forall|i: int, j: int|
                    0 <= i < before.results.len() && 0 <= j < after.results.len()
                        ==> #[trigger] before.results[i] != #[trigger] after.results[j]
                &&& found_once(later) ==> forall|i: int, j: int|
                    0 <= i < before.results.len() && 0 <= j < after.results.len() ==> result_key(
                        #[trigger] before.results[i],
                    ) != result_key(#[trigger] after.results[j])
            }
            &&& revisions_key(later.repository, later.memory) != revisions_key(
                found.repository,
                found.memory,
            ) ==> result == Err::<FederatedSearchResponseView, _>(MemoryQueryErrorView::StaleCursor)
        }),
{
    let limits = one.limits.deep_view();
    let budget = effective(first.scope.budget, limits);
    let fingerprint = search_identity(first);
    let found = found_by(one, one_after, first, answers)->Ok_0;
    let later = found_by(two, two_after, second, later_answers)->Ok_0;
    assert(search_identity(second) == fingerprint);
    search_page_is_a_part(first, budget, found, None, fingerprint, answers, before);
    let key = revisions_key(found.repository, found.memory);
    assert(second.cursor == Some(
        federation_cursor("search"@, fingerprint, key, before.results.len() as u64),
    ));
    let payload = pending(second.cursor, "search"@, fingerprint)->Ok_0->0;
    searches_do_not_repeat(
        first,
        second,
        limits,
        one_after.repository.searches(),
        one.repository.searches().len() as int,
        one_after.memory.searches(),
        one.memory.searches().len() as int,
        answers,
        0,
        two_after.repository.searches(),
        two.repository.searches().len() as int,
        two_after.memory.searches(),
        two.memory.searches().len() as int,
        later_answers,
        0,
        None,
        payload,
        found,
        later,
        before,
    );
}

/// What the domains said to a question for context, and how many answers of the deadline are known then.
pub open spec fn collected_by<R: GraphQuery, M: MemoryQuery, L: MemoryLinkStore>(
    before: FederatedContextService<R, M, L>,
    after: FederatedContextService<R, M, L>,
    request: FederatedContextRequestView,
    answers: Seq<u64>,
) -> Result<(ContextFindingsView, int), MemoryQueryErrorView> {
    context_findings(
        request,
        effective(request.scope.budget, before.limits.deep_view()),
        items_wanted(request, before.limits.deep_view()),
        said(after.repository, after.memory, after.links),
        said(before.repository, before.memory, before.links),
        answers,
        0,
    )
}

/// Two questions of the service for one context, the second with room for exactly the items of the answer
/// to the first: where the domains say the same to both and the time is not up, the second answer holds
/// all of these items and no link, says that it was cut short for its size, and gives no cursor, because
/// no item is left.
pub proof fn second_context_keeps_its_items<R: GraphQuery, M: MemoryQuery, L: MemoryLinkStore>(
    one: FederatedContextService<R, M, L>,
    one_after: FederatedContextService<R, M, L>,
    two: FederatedContextService<R, M, L>,
    two_after: FederatedContextService<R, M, L>,
    first: FederatedContextRequestView,
    second: FederatedContextRequestView,
    answers: Seq<u64>,
    later_answers: Seq<u64>,
    complete: FederatedContextResponseView,
    result: Result<FederatedContextResponseView, MemoryQueryErrorView>,
)
    requires
        federated_context_went(one, one_after, first, answers, Ok(complete)),
        federated_context_went(two, two_after, second, later_answers, result),
        two.limits.deep_view() == one.limits.deep_view(),
        first.cursor is None,
        complete.page.truncation is None,
        complete.cross_domain_links.len() > 0,
        second == (FederatedContextRequestView {
            scope: FederatedScopeView { budget: second.scope.budget, ..first.scope },
            ..first
        }),
        effective(second.scope.budget, two.limits.deep_view()) == (EffectiveBudget {
            max_bytes: items_size(complete.items) as u64,
            ..effective(first.scope.budget, one.limits.deep_view())
        }),
        collected_by(two, two_after, second, later_answers) is Ok,
        collected_by(two, two_after, second, later_answers)->Ok_0.0 == collected_by(
            one,
            one_after,
            first,
            answers,
        )->Ok_0.0,
        ({
            let (findings, collected_at) = collected_by(two, two_after, second, later_answers)->Ok_0;
            &&& items_size(all_items(findings)) <= u64::MAX
            &&& in_time(later_answers, collected_at, collected_at + all_items(findings).len() + 1)
        }),
    ensures
        result matches Ok(response) && {
            &&& response.items == complete.items
            &&& response.cross_domain_links.len() == 0
            &&& response.page.truncation is Some
            &&& response.page.truncation->0.reason == MemoryTruncationReason::Bytes
            &&& response.page.next_cursor is None
        },
{
    let (findings, collected_at) = collected_by(one, one_after, first, answers)->Ok_0;
    items_outlast_links(
        first,
        second,
        one.limits.deep_view(),
        said(one_after.repository, one_after.memory, one_after.links),
        said(one.repository, one.memory, one.links),
        answers,
        0,
        said(two_after.repository, two_after.memory, two_after.links),
        said(two.repository, two.memory, two.links),
        later_answers,
        0,
        complete,
        findings,
        collected_at,
        collected_by(two, two_after, second, later_answers)->Ok_0.1,
    );
}

}
