//! What domains that do not change find for a second search.
use vstd::prelude::*;
use crate::budget::effective;
use crate::cursor::federation_cursor;
use crate::deadline::is_up;
use crate::federation::calls::{found_by, second_search_repeats_nothing};
use crate::federation::gathering::{
    gather, memory_search_asked, memory_search_pages, memory_search_request, repository_search_asked,
    repository_search_pages, repository_search_request, DomainPage, Gathered,
};
use crate::federation::laws::{
    answer_order_has_no_ties, found_once, goes_on, in_answer_order, search_page_is_a_part,
};
use crate::federation::search::{
    findings, memory_findings, memory_part, memory_results, memory_searched, repository_findings,
    repository_part, repository_results, repository_searched, results_wanted, DomainFindings,
};
use crate::federation::state::{result_key, revisions_key, search_identity};
use crate::federation::{
    FederatedSearchRequestView, FederatedSearchResponseView, FederatedSearchResult,
    FederatedSearchResultView, FederatedTargetView,
};
use crate::ports::{GraphQuery, MemoryQuery};
use crate::query::{
    MemoryQueryErrorView, MemorySearchHitView, MemorySearchRequestView, MemorySearchResponseView,
};
use crate::repository::{
    QueryErrorCode, SearchHitView, SearchRequestView, SearchResponseView,
};
use crate::service::{federated_search_went, FederatedContextService};
use crate::sort::{
    deduplicated, is_keyed, key_lt, key_order_is_total, key_order_is_transitive, sorted,
    sorting_orders_and_keeps, Sortable,
};

verus! {

/// A search of the repository, whatever time it has.
pub open spec fn untimed_search(request: SearchRequestView) -> SearchRequestView {
    repository_search_request(request, 0, request.cursor)
}

/// A search of the memory, whatever time it has.
pub open spec fn untimed_memory_search(request: MemorySearchRequestView) -> MemorySearchRequestView {
    memory_search_request(request, 0, request.page.cursor)
}

/// Whether the repository answered the same search the same way in both logs.
pub open spec fn repository_answers_alike(
    one: Seq<(SearchRequestView, Result<SearchResponseView, QueryErrorCode>)>,
    two: Seq<(SearchRequestView, Result<SearchResponseView, QueryErrorCode>)>,
) -> bool {
    forall|i: int, j: int|
        0 <= i < one.len() && 0 <= j < two.len() && untimed_search((#[trigger] one[i]).0)
            == untimed_search((#[trigger] two[j]).0) ==> one[i].1 == two[j].1
}

/// Whether the memory answered the same search the same way in both logs.
pub open spec fn memory_answers_alike(
    one: Seq<(MemorySearchRequestView, Result<MemorySearchResponseView, MemoryQueryErrorView>)>,
    two: Seq<(MemorySearchRequestView, Result<MemorySearchResponseView, MemoryQueryErrorView>)>,
) -> bool {
    forall|i: int, j: int|
        0 <= i < one.len() && 0 <= j < two.len() && untimed_memory_search((#[trigger] one[i]).0)
            == untimed_memory_search((#[trigger] two[j]).0) ==> one[i].1 == two[j].1
}

proof fn repository_pages_agree(
    request: SearchRequestView,
    one: Seq<(SearchRequestView, Result<SearchResponseView, QueryErrorCode>)>,
    one_from: int,
    one_lefts: Seq<u64>,
    one_first: int,
    two: Seq<(SearchRequestView, Result<SearchResponseView, QueryErrorCode>)>,
    two_from: int,
    two_lefts: Seq<u64>,
    two_first: int,
    at: int,
)
    requires
        repository_searched(request, one, one_from, one_lefts, one_first),
        repository_searched(request, two, two_from, two_lefts, two_first),
        repository_answers_alike(one, two),
        0 <= one_from,
        0 <= two_from,
        0 <= at,
        one_from + at < one.len(),
        two_from + at < two.len(),
    ensures
        one[one_from + at].1 == two[two_from + at].1,
    decreases at,
{
    if at > 0 {
        repository_pages_agree(
            request,
            one,
            one_from,
            one_lefts,
            one_first,
            two,
            two_from,
            two_lefts,
            two_first,
            at - 1,
        );
    }
    assert(repository_search_asked(request, one, one_from, one_from + at, one_lefts, one_first));
    assert(repository_search_asked(request, two, two_from, two_from + at, two_lefts, two_first));
    assert(untimed_search(one[one_from + at].0) == untimed_search(two[two_from + at].0));
}

proof fn memory_pages_agree(
    request: MemorySearchRequestView,
    one: Seq<(MemorySearchRequestView, Result<MemorySearchResponseView, MemoryQueryErrorView>)>,
    one_from: int,
    one_lefts: Seq<u64>,
    one_first: int,
    two: Seq<(MemorySearchRequestView, Result<MemorySearchResponseView, MemoryQueryErrorView>)>,
    two_from: int,
    two_lefts: Seq<u64>,
    two_first: int,
    at: int,
)
    requires
        memory_searched(request, one, one_from, one_lefts, one_first),
        memory_searched(request, two, two_from, two_lefts, two_first),
        memory_answers_alike(one, two),
        0 <= one_from,
        0 <= two_from,
        0 <= at,
        one_from + at < one.len(),
        two_from + at < two.len(),
    ensures
        one[one_from + at].1 == two[two_from + at].1,
    decreases at,
{
    if at > 0 {
        memory_pages_agree(
            request,
            one,
            one_from,
            one_lefts,
            one_first,
            two,
            two_from,
            two_lefts,
            two_first,
            at - 1,
        );
    }
    assert(memory_search_asked(request, one, one_from, one_from + at, one_lefts, one_first));
    assert(memory_search_asked(request, two, two_from, two_from + at, two_lefts, two_first));
    assert(untimed_memory_search(one[one_from + at].0) == untimed_memory_search(two[two_from + at].0));
}

/// Gathering keeps what is there, and takes no page before the one it starts with.
proof fn gathering_keeps<T>(
    pages: Seq<Result<DomainPage<T>, MemoryQueryErrorView>>,
    from: int,
    first: bool,
    items: Seq<T>,
    more: bool,
    desired: int,
    answers: Seq<u64>,
    at: int,
)
    ensures
        gather(pages, from, first, items, more, desired, answers, at) matches Ok(gathered) ==> {
            &&& items.is_prefix_of(gathered.items)
            &&& gathered.pages >= from
        },
    decreases desired - items.len(),
{
    if !is_up(answers[at]) && pages[from] is Ok {
        let page = pages[from]->Ok_0;
        let all = items + page.items;
        if all.len() < desired && page.more && page.items.len() > 0 && !is_up(answers[at + 1]) {
            gathering_keeps(pages, from + 1, false, all, page.more, desired, answers, at + 2);
            let gathered = gather(pages, from + 1, false, all, page.more, desired, answers, at + 2);
            if gathered is Ok {
                assert(items =~= gathered->Ok_0.items.take(items.len() as int)) by {
                    assert(all =~= gathered->Ok_0.items.take(all.len() as int));
                    assert forall|i: int| 0 <= i < items.len() implies items[i]
                        == gathered->Ok_0.items[i] by {
                        assert(all[i] == gathered->Ok_0.items.take(all.len() as int)[i]);
                    }
                }
            }
        } else {
            assert(items =~= all.take(items.len() as int));
        }
    }
}

/// Who wants more of the same pages gets what was there before, and more only behind as many as were wanted
/// before.
proof fn gathering_goes_on<T>(
    pages: Seq<Result<DomainPage<T>, MemoryQueryErrorView>>,
    from: int,
    first: bool,
    items: Seq<T>,
    more: bool,
    desired: int,
    answers: Seq<u64>,
    at: int,
    later_pages: Seq<Result<DomainPage<T>, MemoryQueryErrorView>>,
    later_from: int,
    later_desired: int,
    later_answers: Seq<u64>,
    later_at: int,
    gathered: Gathered<T>,
    later: Gathered<T>,
)
    requires
        first || (more && items.len() < desired),
        desired <= later_desired,
        gather(pages, from, first, items, more, desired, answers, at) == Ok::<_, MemoryQueryErrorView>(
            gathered,
        ),
        gather(
            later_pages,
            later_from,
            first,
            items,
            more,
            later_desired,
            later_answers,
            later_at,
        ) == Ok::<_, MemoryQueryErrorView>(later),
        gathered.more ==> gathered.items.len() >= desired,
        gathered.pages - from <= later.pages - later_from,
        forall|k: int|
            0 <= k < gathered.pages - from ==> #[trigger] pages[from + k] == later_pages[later_from + k],
    ensures
        gathered.items.is_prefix_of(later.items),
        gathered.items.len() < desired || later_desired == desired ==> later.items == gathered.items,
    decreases desired - items.len(),
{
    assert(!is_up(answers[at]));
    gathering_keeps(pages, from, first, items, more, desired, answers, at);
    let page = pages[from]->Ok_0;
    let all = items + page.items;
    let goes_on = all.len() < desired && page.more && page.items.len() > 0;
    if goes_on && !is_up(answers[at + 1]) {
        gathering_keeps(pages, from + 1, false, all, page.more, desired, answers, at + 2);
    }
    assert(gathered.pages >= from + 1);
    assert(pages[from + 0] == later_pages[later_from + 0]);
    assert(!is_up(later_answers[later_at]));
    if goes_on {
        assert(!is_up(answers[at + 1]));
        assert(!is_up(answers[at + 2]));
        assert(gathered.pages >= from + 2) by {
            if pages[from + 1] is Ok {
                let next = pages[from + 1]->Ok_0;
                gathering_keeps(
                    pages,
                    from + 2,
                    false,
                    all + next.items,
                    next.more,
                    desired,
                    answers,
                    at + 4,
                );
            }
        }
        assert(!is_up(later_answers[later_at + 1]));
        assert forall|k: int| 0 <= k < gathered.pages - (from + 1) implies #[trigger] pages[from + 1 + k]
            == later_pages[later_from + 1 + k] by {
            assert(pages[from + (k + 1)] == later_pages[later_from + (k + 1)]);
        }
        gathering_goes_on(
            pages,
            from + 1,
            false,
            all,
            page.more,
            desired,
            answers,
            at + 2,
            later_pages,
            later_from + 1,
            later_desired,
            later_answers,
            later_at + 2,
            gathered,
            later,
        );
    } else if all.len() < later_desired && page.more && page.items.len() > 0 && !is_up(
        later_answers[later_at + 1],
    ) {
        gathering_keeps(
            later_pages,
            later_from + 1,
            false,
            all,
            page.more,
            later_desired,
            later_answers,
            later_at + 2,
        );
    } else {
        assert(all =~= all.take(all.len() as int));
    }
}

/// What was found once stands in the order of the answer as it was found.
proof fn found_once_is_kept(found: DomainFindings)
    requires
        found_once(found),
    ensures
        in_answer_order(found) == sorted::<FederatedSearchResult>(found.results),
        forall|result: FederatedSearchResultView|
            #![trigger in_answer_order(found).contains(result)]
            in_answer_order(found).contains(result) <==> found.results.contains(result),
{
    let results = found.results;
    let ordered = sorted::<FederatedSearchResult>(results);
    sorting_orders_and_keeps::<FederatedSearchResult>(results);
    ordered.to_multiset_ensures();
    results.to_multiset_ensures();
    assert(results.no_duplicates()) by {
        assert forall|i: int, j: int|
            0 <= i < results.len() && 0 <= j < results.len() && i != j implies results[i] != results[j] by {
            if i < j {
                assert(result_key(results[i]) != result_key(results[j]));
            } else {
                assert(result_key(results[j]) != result_key(results[i]));
            }
        }
    }
    results.lemma_multiset_has_no_duplicates();
    ordered.lemma_multiset_has_no_duplicates_conv();
    assert forall|i: int, j: int| 0 <= i < j < ordered.len() implies result_key(#[trigger] ordered[i])
        != result_key(#[trigger] ordered[j]) by {
        assert(ordered.to_multiset().contains(ordered[i]));
        assert(ordered.to_multiset().contains(ordered[j]));
        let p = choose|p: int| 0 <= p < results.len() && results[p] == ordered[i];
        let q = choose|q: int| 0 <= q < results.len() && results[q] == ordered[j];
        assert(ordered[i] != ordered[j]);
        if p < q {
            assert(result_key(results[p]) != result_key(results[q]));
        } else if q < p {
            assert(result_key(results[q]) != result_key(results[p]));
        }
    }
    distinct_stay(ordered);
    assert forall|result: FederatedSearchResultView|
        #![trigger in_answer_order(found).contains(result)]
        in_answer_order(found).contains(result) <==> results.contains(result) by {
        assert(ordered.contains(result) <==> ordered.to_multiset().contains(result));
        assert(results.contains(result) <==> results.to_multiset().contains(result));
    }
}

proof fn distinct_stay(results: Seq<FederatedSearchResultView>)
    requires
        forall|i: int, j: int|
            0 <= i < j < results.len() ==> result_key(#[trigger] results[i]) != result_key(
                #[trigger] results[j],
            ),
    ensures
        deduplicated::<FederatedSearchResult>(results) == results,
    decreases results.len(),
{
    if results.len() > 0 {
        let rest = results.drop_last();
        assert forall|i: int, j: int| 0 <= i < j < rest.len() implies result_key(#[trigger] rest[i])
            != result_key(#[trigger] rest[j]) by {
            assert(result_key(results[i]) != result_key(results[j]));
        }
        distinct_stay(rest);
        if rest.len() > 0 {
            assert(result_key(results[rest.len() - 1]) != result_key(results[rest.len() as int]));
        }
        assert(results =~= rest.push(results.last()));
    }
}

/// What a domain gives behind as many as were wanted stands behind the first of all that was found.
proof fn new_results_stand_behind(
    ordered: Seq<FederatedSearchResultView>,
    before: Seq<FederatedSearchResultView>,
    later: Seq<FederatedSearchResultView>,
    place: int,
    at: int,
)
    requires
        is_keyed::<FederatedSearchResult>(ordered),
        is_keyed::<FederatedSearchResult>(later),
        before.is_prefix_of(later),
        forall|i: int| 0 <= i < before.len() ==> ordered.contains(#[trigger] before[i]),
        before.len() <= place < later.len(),
        0 <= at < ordered.len(),
        at < before.len(),
    ensures
        key_lt(
            FederatedSearchResult::key(ordered[at]),
            FederatedSearchResult::key(later[place]),
        ),
{
    let new = FederatedSearchResult::key(later[place]);
    let here = FederatedSearchResult::key(ordered[at]);
    if !key_lt(here, new) {
        let front = ordered.take(at);
        assert forall|i: int| 0 <= i < before.len() implies front.contains(#[trigger] before[i]) by {
            assert(before[i] == later[i]);
            assert(key_lt(FederatedSearchResult::key(later[i]), new));
            let q = choose|q: int| 0 <= q < ordered.len() && ordered[q] == before[i];
            let old = FederatedSearchResult::key(ordered[q]);
            if q >= at {
                if q > at {
                    assert(key_lt(here, old));
                    key_order_is_total(here, old);
                    key_order_is_total(old, new);
                    key_order_is_transitive(here, old, new);
                    key_order_is_total(here, new);
                }
                assert(false);
            }
            assert(front[q] == before[i]);
        }
        assert(before.to_set().subset_of(front.to_set())) by {
            assert forall|result: FederatedSearchResultView| before.to_set().contains(
                result,
            ) implies front.to_set().contains(result) by {
                let i = choose|i: int| 0 <= i < before.len() && before[i] == result;
                assert(front.contains(before[i]));
            }
        }
        assert(before.no_duplicates()) by {
            assert forall|i: int, j: int|
                0 <= i < before.len() && 0 <= j < before.len() && i != j implies before[i] != before[j] by {
                assert(before[i] == later[i] && before[j] == later[j]);
                if i < j {
                    assert(key_lt(
                        FederatedSearchResult::key(later[i]),
                        FederatedSearchResult::key(later[j]),
                    ));
                } else {
                    assert(key_lt(
                        FederatedSearchResult::key(later[j]),
                        FederatedSearchResult::key(later[i]),
                    ));
                }
                key_order_is_total(
                    FederatedSearchResult::key(later[i]),
                    FederatedSearchResult::key(later[j]),
                );
            }
        }
        before.unique_seq_to_set();
        front.lemma_cardinality_of_set();
        vstd::set_lib::lemma_len_subset(before.to_set(), front.to_set());
    }
}

/// What the repository gave for a search.
pub open spec fn repository_share<R: GraphQuery, M: MemoryQuery, L>(
    before: FederatedContextService<R, M, L>,
    after: FederatedContextService<R, M, L>,
    request: FederatedSearchRequestView,
    answers: Seq<u64>,
) -> Result<Gathered<SearchHitView>, MemoryQueryErrorView> {
    gather(
        repository_search_pages(after.repository.searches()),
        before.repository.searches().len() as int,
        true,
        Seq::empty(),
        false,
        results_wanted(request, before.limits.deep_view()),
        answers,
        1,
    )
}

/// What the memory gave for a search: where the repository is searched too, behind it.
pub open spec fn memory_share<R: GraphQuery, M: MemoryQuery, L>(
    before: FederatedContextService<R, M, L>,
    after: FederatedContextService<R, M, L>,
    request: FederatedSearchRequestView,
    answers: Seq<u64>,
) -> Result<Gathered<MemorySearchHitView>, MemoryQueryErrorView> {
    gather(
        memory_search_pages(after.memory.searches()),
        before.memory.searches().len() as int,
        true,
        Seq::empty(),
        false,
        results_wanted(request, before.limits.deep_view()),
        answers,
        if request.scope.target is All {
            repository_share(before, after, request, answers)->Ok_0.at + 1
        } else {
            1
        },
    )
}

/// What the repository gave for a search, as results; nothing where it is not searched.
pub open spec fn repository_found<R: GraphQuery, M: MemoryQuery, L>(
    before: FederatedContextService<R, M, L>,
    after: FederatedContextService<R, M, L>,
    request: FederatedSearchRequestView,
    answers: Seq<u64>,
) -> Seq<FederatedSearchResultView> {
    if request.scope.target is Memory {
        Seq::empty()
    } else {
        repository_results(repository_share(before, after, request, answers)->Ok_0.items)
    }
}

/// What the memory gave for a search, as results; nothing where it is not searched.
pub open spec fn memory_found<R: GraphQuery, M: MemoryQuery, L>(
    before: FederatedContextService<R, M, L>,
    after: FederatedContextService<R, M, L>,
    request: FederatedSearchRequestView,
    answers: Seq<u64>,
) -> Seq<FederatedSearchResultView> {
    if request.scope.target is Repository {
        Seq::empty()
    } else {
        memory_results(memory_share(before, after, request, answers)->Ok_0.items)
    }
}

proof fn shares_make_findings<R: GraphQuery, M: MemoryQuery, L>(
    before: FederatedContextService<R, M, L>,
    after: FederatedContextService<R, M, L>,
    request: FederatedSearchRequestView,
    answers: Seq<u64>,
)
    requires
        found_by(before, after, request, answers) is Ok,
    ensures
        found_by(before, after, request, answers)->Ok_0.results == repository_found(
            before,
            after,
            request,
            answers,
        ) + memory_found(before, after, request, answers),
        !(request.scope.target is Memory) ==> repository_share(before, after, request, answers) is Ok,
        !(request.scope.target is Repository) ==> memory_share(before, after, request, answers) is Ok,
        request.scope.target is All ==> repository_findings(
            after.repository.searches(),
            before.repository.searches().len() as int,
            results_wanted(request, before.limits.deep_view()),
            answers,
            1,
        ) is Ok && repository_findings(
            after.repository.searches(),
            before.repository.searches().len() as int,
            results_wanted(request, before.limits.deep_view()),
            answers,
            1,
        )->Ok_0.at == repository_share(before, after, request, answers)->Ok_0.at,
{
    reveal(findings);
    reveal(repository_findings);
    reveal(memory_findings);
    let found = found_by(before, after, request, answers)->Ok_0;
    assert(found.results =~= repository_found(before, after, request, answers) + memory_found(
        before,
        after,
        request,
        answers,
    ));
}

/// What both domains gave before and more, each only behind as many as were wanted, goes on behind what was
/// answered.
proof fn shares_go_on(
    repository: Seq<FederatedSearchResultView>,
    memory: Seq<FederatedSearchResultView>,
    later_repository: Seq<FederatedSearchResultView>,
    later_memory: Seq<FederatedSearchResultView>,
    found: DomainFindings,
    later: DomainFindings,
    desired: int,
    count: int,
)
    requires
        found.results == repository + memory,
        later.results == later_repository + later_memory,
        repository.is_prefix_of(later_repository),
        memory.is_prefix_of(later_memory),
        repository.len() < desired ==> later_repository == repository,
        memory.len() < desired ==> later_memory == memory,
        is_keyed::<FederatedSearchResult>(later_repository),
        is_keyed::<FederatedSearchResult>(later_memory),
        is_keyed::<FederatedSearchResult>(in_answer_order(found)),
        found_once(later),
        0 <= count,
        count <= desired || later_repository == repository && later_memory == memory,
        count <= in_answer_order(found).len(),
    ensures
        goes_on(in_answer_order(found), in_answer_order(later), count),
{
    assert forall|i: int| 0 <= i < repository.len() implies #[trigger] repository[i]
        == later_repository[i] by {
        assert(later_repository.take(repository.len() as int)[i] == repository[i]);
    }
    assert forall|i: int| 0 <= i < memory.len() implies #[trigger] memory[i] == later_memory[i] by {
        assert(later_memory.take(memory.len() as int)[i] == memory[i]);
    }
    let all = later.results;
    let place = |i: int|
        if i < repository.len() {
            i
        } else {
            later_repository.len() + i - repository.len()
        };
    assert forall|i: int| 0 <= i < found.results.len() implies 0 <= #[trigger] place(i) < all.len()
        && found.results[i] == all[place(i)] by {}
    assert(found_once(found)) by {
        assert forall|i: int, j: int| 0 <= i < j < found.results.len() implies result_key(
            #[trigger] found.results[i],
        ) != result_key(#[trigger] found.results[j]) by {
            assert(found.results[i] == all[place(i)] && found.results[j] == all[place(j)]);
            assert(place(i) < place(j));
        }
    }
    found_once_is_kept(found);
    found_once_is_kept(later);
    let first = in_answer_order(found);
    let second = in_answer_order(later);
    assert forall|i: int| 0 <= i < first.len() implies second.contains(#[trigger] first[i]) by {
        assert(first.contains(first[i]));
        let p = choose|p: int| 0 <= p < found.results.len() && found.results[p] == first[i];
        assert(all[place(p)] == first[i]);
        assert(all.contains(first[i]));
    }
    assert forall|i: int| 0 <= i < repository.len() implies first.contains(#[trigger] repository[i]) by {
        assert(found.results[i] == repository[i]);
        assert(found.results.contains(repository[i]));
    }
    assert forall|i: int| 0 <= i < memory.len() implies first.contains(#[trigger] memory[i]) by {
        assert(found.results[repository.len() + i] == memory[i]);
        assert(found.results.contains(memory[i]));
    }
    assert forall|i: int, j: int|
        0 <= i < count && 0 <= j < second.len() && !first.contains(second[j]) implies key_lt(
        FederatedSearchResult::key(#[trigger] first[i]),
        FederatedSearchResult::key(#[trigger] second[j]),
    ) by {
        assert(second.contains(second[j]));
        let k = choose|k: int| 0 <= k < all.len() && all[k] == second[j];
        if k < later_repository.len() {
            if k < repository.len() {
                assert(repository[k] == second[j]);
            }
            new_results_stand_behind(first, repository, later_repository, k, i);
        } else {
            let m = k - later_repository.len();
            if m < memory.len() {
                assert(memory[m] == second[j]);
            }
            new_results_stand_behind(first, memory, later_memory, m, i);
        }
    }
}

/// Whether a domain that has more gave as many as were wanted.
pub open spec fn gave_enough<T>(share: Gathered<T>, desired: int) -> bool {
    share.more ==> share.items.len() >= desired
}

/// Whether the repository did not change between two searches and gives its hits in the order of the
/// answer: it answers alike, gave as many as were wanted where it has more, and was asked for as many pages
/// the second time.
pub open spec fn repository_is_unchanged<R: GraphQuery, M: MemoryQuery, L>(
    one: FederatedContextService<R, M, L>,
    one_after: FederatedContextService<R, M, L>,
    two: FederatedContextService<R, M, L>,
    two_after: FederatedContextService<R, M, L>,
    first: FederatedSearchRequestView,
    second: FederatedSearchRequestView,
    answers: Seq<u64>,
    later_answers: Seq<u64>,
) -> bool {
    let share = repository_share(one, one_after, first, answers)->Ok_0;
    let later = repository_share(two, two_after, second, later_answers)->Ok_0;
    &&& repository_answers_alike(one_after.repository.searches(), two_after.repository.searches())
    &&& gave_enough(share, results_wanted(first, one.limits.deep_view()))
    &&& share.pages - one.repository.searches().len() <= later.pages - two.repository.searches().len()
    &&& is_keyed::<FederatedSearchResult>(repository_results(later.items))
}

/// Whether the memory did not change between two searches and gives its hits in the order of the answer.
pub open spec fn memory_is_unchanged<R: GraphQuery, M: MemoryQuery, L>(
    one: FederatedContextService<R, M, L>,
    one_after: FederatedContextService<R, M, L>,
    two: FederatedContextService<R, M, L>,
    two_after: FederatedContextService<R, M, L>,
    first: FederatedSearchRequestView,
    second: FederatedSearchRequestView,
    answers: Seq<u64>,
    later_answers: Seq<u64>,
) -> bool {
    let share = memory_share(one, one_after, first, answers)->Ok_0;
    let later = memory_share(two, two_after, second, later_answers)->Ok_0;
    &&& memory_answers_alike(one_after.memory.searches(), two_after.memory.searches())
    &&& gave_enough(share, results_wanted(first, one.limits.deep_view()))
    &&& share.pages - one.memory.searches().len() <= later.pages - two.memory.searches().len()
    &&& is_keyed::<FederatedSearchResult>(memory_results(later.items))
}

proof fn repository_goes_on<R: GraphQuery, M: MemoryQuery, L>(
    one: FederatedContextService<R, M, L>,
    one_after: FederatedContextService<R, M, L>,
    two: FederatedContextService<R, M, L>,
    two_after: FederatedContextService<R, M, L>,
    first: FederatedSearchRequestView,
    second: FederatedSearchRequestView,
    answers: Seq<u64>,
    later_answers: Seq<u64>,
    before: FederatedSearchResponseView,
    after: FederatedSearchResponseView,
)
    requires
        federated_search_went(one, one_after, first, answers, Ok(before)),
        federated_search_went(two, two_after, second, later_answers, Ok(after)),
        two.limits.deep_view() == one.limits.deep_view(),
        second == (FederatedSearchRequestView { cursor: second.cursor, ..first }),
        !(first.scope.target is Memory),
        found_by(one, one_after, first, answers) is Ok,
        found_by(two, two_after, second, later_answers) is Ok,
        results_wanted(first, one.limits.deep_view()) <= results_wanted(
            second,
            two.limits.deep_view(),
        ),
        repository_is_unchanged(
            one,
            one_after,
            two,
            two_after,
            first,
            second,
            answers,
            later_answers,
        ),
    ensures
        ({
            let found = repository_found(one, one_after, first, answers);
            let later = repository_found(two, two_after, second, later_answers);
            &&& found.is_prefix_of(later)
            &&& found.len() < results_wanted(first, one.limits.deep_view()) || results_wanted(
                second,
                two.limits.deep_view(),
            ) == results_wanted(first, one.limits.deep_view()) ==> later == found
        }),
{
    shares_make_findings(one, one_after, first, answers);
    shares_make_findings(two, two_after, second, later_answers);
    let budget = effective(first.scope.budget, one.limits.deep_view());
    let target = match first.scope.target {
        FederatedTargetView::Repository { repository } => repository,
        FederatedTargetView::All { repository, .. } => repository,
        FederatedTargetView::Memory { .. } => arbitrary(),
    };
    let request = repository_part(first, target, budget);
    assert(repository_part(second, target, budget) == request);
    let log = one_after.repository.searches();
    let later_log = two_after.repository.searches();
    let from = one.repository.searches().len() as int;
    let later_from = two.repository.searches().len() as int;
    let share = repository_share(one, one_after, first, answers)->Ok_0;
    let later = repository_share(two, two_after, second, later_answers)->Ok_0;
    assert forall|k: int| 0 <= k < share.pages - from implies #[trigger] repository_search_pages(
        log,
    )[from + k] == repository_search_pages(later_log)[later_from + k] by {
        repository_pages_agree(
            request,
            log,
            from,
            answers,
            1,
            later_log,
            later_from,
            later_answers,
            1,
            k,
        );
    }
    gathering_goes_on(
        repository_search_pages(log),
        from,
        true,
        Seq::empty(),
        false,
        results_wanted(first, one.limits.deep_view()),
        answers,
        1,
        repository_search_pages(later_log),
        later_from,
        results_wanted(second, two.limits.deep_view()),
        later_answers,
        1,
        share,
        later,
    );
    let found = repository_results(share.items);
    let more = repository_results(later.items);
    assert(found =~= more.take(found.len() as int)) by {
        assert(share.items =~= later.items.take(share.items.len() as int));
        assert forall|i: int| 0 <= i < found.len() implies found[i] == more[i] by {
            assert(share.items[i] == later.items.take(share.items.len() as int)[i]);
        }
    }
}

proof fn memory_goes_on<R: GraphQuery, M: MemoryQuery, L>(
    one: FederatedContextService<R, M, L>,
    one_after: FederatedContextService<R, M, L>,
    two: FederatedContextService<R, M, L>,
    two_after: FederatedContextService<R, M, L>,
    first: FederatedSearchRequestView,
    second: FederatedSearchRequestView,
    answers: Seq<u64>,
    later_answers: Seq<u64>,
    before: FederatedSearchResponseView,
    after: FederatedSearchResponseView,
)
    requires
        federated_search_went(one, one_after, first, answers, Ok(before)),
        federated_search_went(two, two_after, second, later_answers, Ok(after)),
        two.limits.deep_view() == one.limits.deep_view(),
        two.memory_freshness.deep_view() == one.memory_freshness.deep_view(),
        second == (FederatedSearchRequestView { cursor: second.cursor, ..first }),
        !(first.scope.target is Repository),
        found_by(one, one_after, first, answers) is Ok,
        found_by(two, two_after, second, later_answers) is Ok,
        results_wanted(first, one.limits.deep_view()) <= results_wanted(
            second,
            two.limits.deep_view(),
        ),
        memory_is_unchanged(
            one,
            one_after,
            two,
            two_after,
            first,
            second,
            answers,
            later_answers,
        ),
    ensures
        ({
            let found = memory_found(one, one_after, first, answers);
            let later = memory_found(two, two_after, second, later_answers);
            &&& found.is_prefix_of(later)
            &&& found.len() < results_wanted(first, one.limits.deep_view()) || results_wanted(
                second,
                two.limits.deep_view(),
            ) == results_wanted(first, one.limits.deep_view()) ==> later == found
        }),
{
    shares_make_findings(one, one_after, first, answers);
    shares_make_findings(two, two_after, second, later_answers);
    let budget = effective(first.scope.budget, one.limits.deep_view());
    let freshness = one.memory_freshness.deep_view();
    let selector = match first.scope.target {
        FederatedTargetView::Memory { memory } => memory,
        FederatedTargetView::All { memory, .. } => memory,
        FederatedTargetView::Repository { .. } => arbitrary(),
    };
    let request = memory_part(first, selector, budget, freshness);
    assert(memory_part(second, selector, budget, freshness) == request);
    let log = one_after.memory.searches();
    let later_log = two_after.memory.searches();
    let from = one.memory.searches().len() as int;
    let later_from = two.memory.searches().len() as int;
    let share = memory_share(one, one_after, first, answers)->Ok_0;
    let later = memory_share(two, two_after, second, later_answers)->Ok_0;
    let at = if first.scope.target is All {
        repository_share(one, one_after, first, answers)->Ok_0.at + 1
    } else {
        1
    };
    let later_at = if second.scope.target is All {
        repository_share(two, two_after, second, later_answers)->Ok_0.at + 1
    } else {
        1
    };
    assert forall|k: int| 0 <= k < share.pages - from implies #[trigger] memory_search_pages(
        log,
    )[from + k] == memory_search_pages(later_log)[later_from + k] by {
        memory_pages_agree(
            request,
            log,
            from,
            answers,
            at,
            later_log,
            later_from,
            later_answers,
            later_at,
            k,
        );
    }
    gathering_goes_on(
        memory_search_pages(log),
        from,
        true,
        Seq::empty(),
        false,
        results_wanted(first, one.limits.deep_view()),
        answers,
        at,
        memory_search_pages(later_log),
        later_from,
        results_wanted(second, two.limits.deep_view()),
        later_answers,
        later_at,
        share,
        later,
    );
    let found = memory_results(share.items);
    let more = memory_results(later.items);
    assert(found =~= more.take(found.len() as int)) by {
        assert(share.items =~= later.items.take(share.items.len() as int));
        assert forall|i: int| 0 <= i < found.len() implies found[i] == more[i] by {
            assert(share.items[i] == later.items.take(share.items.len() as int)[i]);
        }
    }
}

/// Two searches of domains that do not change, the second from the cursor of the first on, repeat nothing:
/// where each domain answers alike, gives its hits in the order of the answer and each thing once, no
/// result is in both answers, and the results of both together stand in the order of all results.
pub proof fn unchanged_domains_repeat_nothing<R: GraphQuery, M: MemoryQuery, L>(
    one: FederatedContextService<R, M, L>,
    one_after: FederatedContextService<R, M, L>,
    two: FederatedContextService<R, M, L>,
    two_after: FederatedContextService<R, M, L>,
    first: FederatedSearchRequestView,
    second: FederatedSearchRequestView,
    answers: Seq<u64>,
    later_answers: Seq<u64>,
    before: FederatedSearchResponseView,
    after: FederatedSearchResponseView,
)
    requires
        federated_search_went(one, one_after, first, answers, Ok(before)),
        federated_search_went(two, two_after, second, later_answers, Ok(after)),
        two.limits.deep_view() == one.limits.deep_view(),
        two.memory_freshness.deep_view() == one.memory_freshness.deep_view(),
        first.cursor is None,
        before.page.next_cursor is Some,
        second == (FederatedSearchRequestView { cursor: before.page.next_cursor, ..first }),
        !(first.scope.target is Memory) ==> repository_is_unchanged(
            one,
            one_after,
            two,
            two_after,
            first,
            second,
            answers,
            later_answers,
        ),
        !(first.scope.target is Repository) ==> memory_is_unchanged(
            one,
            one_after,
            two,
            two_after,
            first,
            second,
            answers,
            later_answers,
        ),
        found_once(found_by(two, two_after, second, later_answers)->Ok_0),
    ensures
        is_keyed::<FederatedSearchResult>(before.results + after.results),
        forall|i: int, j: int|
            0 <= i < before.results.len() && 0 <= j < after.results.len() ==> result_key(
                #[trigger] before.results[i],
            ) != result_key(#[trigger] after.results[j]),
{
    let limits = one.limits.deep_view();
    let budget = effective(first.scope.budget, limits);
    let fingerprint = search_identity(first);
    assert(search_identity(second) == fingerprint);
    let found = found_by(one, one_after, first, answers)->Ok_0;
    let later = found_by(two, two_after, second, later_answers)->Ok_0;
    search_page_is_a_part(first, budget, found, None, fingerprint, answers, before);
    let key = revisions_key(found.repository, found.memory);
    assert(second.cursor == Some(
        federation_cursor("search"@, fingerprint, key, before.results.len() as u64),
    ));
    shares_make_findings(one, one_after, first, answers);
    shares_make_findings(two, two_after, second, later_answers);
    if !(first.scope.target is Memory) {
        repository_goes_on(
            one,
            one_after,
            two,
            two_after,
            first,
            second,
            answers,
            later_answers,
            before,
            after,
        );
    }
    if !(first.scope.target is Repository) {
        memory_goes_on(
            one,
            one_after,
            two,
            two_after,
            first,
            second,
            answers,
            later_answers,
            before,
            after,
        );
    }
    answer_order_has_no_ties(found);
    shares_go_on(
        repository_found(one, one_after, first, answers),
        memory_found(one, one_after, first, answers),
        repository_found(two, two_after, second, later_answers),
        memory_found(two, two_after, second, later_answers),
        found,
        later,
        results_wanted(first, limits),
        before.results.len() as int,
    );
    second_search_repeats_nothing(
        one,
        one_after,
        two,
        two_after,
        first,
        second,
        answers,
        later_answers,
        before,
        Ok(after),
    );
}

}
