//! Gathering the pages of the domains, one after the other, until there is enough.
use vstd::prelude::*;
use crate::deadline::{begins, is_up, keeps_time, shorter, Deadline};
use crate::federation::state::{graph_error, repository_error};
use crate::domain::{MemoryRelationship, MemoryRelationshipView};
use crate::ports::{GraphQuery, MemoryQuery};
use crate::query::{
    MemoryContextItem, MemoryContextItemView, MemoryContextRequest, MemoryContextRequestView,
    MemoryContextResponse, MemoryContextResponseView, MemoryPageRequestView, MemoryQueryBudgetView,
    MemoryQueryError, MemoryQueryErrorView, MemoryQueryScopeView, MemorySearchHit,
    MemorySearchHitView, MemorySearchRequest, MemorySearchRequestView, MemorySearchResponse,
    MemorySearchResponseView, MemoryTruncationReason,
};
use crate::record::{outcome, Record};
use crate::repository::{
    ContextItem, ContextItemView, ContextRequest, ContextRequestView, ContextResponse,
    ContextResponseView, ContextSnippet, ContextSnippetView, QueryBudgetView, QueryErrorCode,
    QueryScopeView, SearchHit, SearchHitView, SearchRequest, SearchRequestView, SearchResponse,
    SearchResponseView,
};
use crate::value::NonZeroU64;

verus! {

/// A page of a domain: what it holds, and whether there is more.
pub struct DomainPage<T> {
    pub items: Seq<T>,
    pub more: bool,
}

/// What was gathered: the items, whether there is more, and how many pages of the domain and answers
/// of the deadline are known then.
pub struct Gathered<T> {
    pub items: Seq<T>,
    pub more: bool,
    pub pages: int,
    pub at: int,
}

/// Gathers pages from one on, behind the items that are already there: until there are enough, the
/// domain has no more, a page is empty, or the time is over. Without a first page there is nothing.
pub open spec fn gather<T>(
    pages: Seq<Result<DomainPage<T>, MemoryQueryErrorView>>,
    from: int,
    first: bool,
    items: Seq<T>,
    more: bool,
    desired: int,
    answers: Seq<u64>,
    at: int,
) -> Result<Gathered<T>, MemoryQueryErrorView>
    decreases desired - items.len(),
{
    if is_up(answers[at]) {
        if first {
            Err(MemoryQueryErrorView::BudgetExceeded(MemoryTruncationReason::Duration))
        } else {
            Ok(Gathered { items, more, pages: from, at: at + 1 })
        }
    } else {
        match pages[from] {
            Err(error) => Err(error),
            Ok(page) => {
                let all = items + page.items;
                if all.len() >= desired || !page.more || page.items.len() == 0 {
                    Ok(Gathered { items: all, more: page.more, pages: from + 1, at: at + 1 })
                } else if is_up(answers[at + 1]) {
                    Ok(Gathered { items: all, more: page.more, pages: from + 1, at: at + 2 })
                } else {
                    gather(pages, from + 1, false, all, page.more, desired, answers, at + 2)
                }
            },
        }
    }
}

/// Puts copies of some records behind others.
pub fn extend<T: Record>(records: &mut Vec<T>, more: &Vec<T>)
    ensures
        final(records).deep_view() == old(records).deep_view() + more.deep_view(),
{
    let ghost start = records.deep_view();
    let mut at: usize = 0;
    assert(records.deep_view() =~= start + more.deep_view().take(0));
    while at < more.len()
        invariant
            at <= more.len(),
            records.deep_view() == start + more.deep_view().take(at as int),
        decreases more.len() - at,
    {
        let ghost before = records.deep_view();
        records.push(more[at].copied());
        assert(records.deep_view() =~= before.push(more@[at as int].deep_view()));
        assert(before.push(more@[at as int].deep_view()) =~= start + more.deep_view().take(at + 1));
        at += 1;
    }
    assert(more.deep_view().take(at as int) =~= more.deep_view());
}

/// The milliseconds that a page may still take: those that are left, and no more than the whole.
fn page_time(left_ms: u64, whole: &NonZeroU64) -> (ms: NonZeroU64)
    requires
        left_ms > 0,
    ensures
        ms.deep_view() == shorter(left_ms, whole.deep_view()),
{
    let most = whole.get();
    NonZeroU64::new(if left_ms <= most { left_ms } else { most }).unwrap()
}

/// The same request, in so many milliseconds and from a cursor on.
pub open spec fn repository_search_request(
    request: SearchRequestView,
    max_duration_ms: u64,
    cursor: Option<Seq<char>>,
) -> SearchRequestView {
    SearchRequestView {
        scope: QueryScopeView {
            budget: QueryBudgetView { max_duration_ms, ..request.scope.budget },
            ..request.scope
        },
        cursor,
        ..request
    }
}

/// A page of a repository search, as an answer gives it.
pub open spec fn repository_search_page(
    entry: (SearchRequestView, Result<SearchResponseView, QueryErrorCode>),
) -> Result<DomainPage<SearchHitView>, MemoryQueryErrorView> {
    match entry.1 {
        Ok(response) => Ok(
            DomainPage { items: response.hits, more: response.page.next_cursor is Some },
        ),
        Err(error) => Err(repository_error(error)),
    }
}

/// The pages of a repository search, as the answers give them.
pub open spec fn repository_search_pages(
    log: Seq<(SearchRequestView, Result<SearchResponseView, QueryErrorCode>)>,
) -> Seq<Result<DomainPage<SearchHitView>, MemoryQueryErrorView>> {
    log.map_values(|entry: (SearchRequestView, Result<SearchResponseView, QueryErrorCode>)| repository_search_page(entry))
}

/// Whether a page was asked for as it should be: the first as the request says, each other one from
/// where the page before it ends, and all in the time that was left then.
pub open spec fn repository_search_asked(
    request: SearchRequestView,
    log: Seq<(SearchRequestView, Result<SearchResponseView, QueryErrorCode>)>,
    from: int,
    at: int,
    lefts: Seq<u64>,
    first: int,
) -> bool {
    &&& 0 <= first + 2 * (at - from) < lefts.len()
    &&& log[at].0.scope.budget.max_duration_ms == shorter(
        lefts[first + 2 * (at - from)],
        request.scope.budget.max_duration_ms,
    )
    &&& log[at].0 == repository_search_request(
        request,
        log[at].0.scope.budget.max_duration_ms,
        if at == from {
            request.cursor
        } else {
            match log[at - 1].1 {
                Ok(response) => response.page.next_cursor,
                Err(_) => None,
            }
        },
    )
}

/// Gathers pages of a repository search: the last answer, the items of all the pages, and whether there are
/// more.
pub fn gather_repository_search<R: GraphQuery, D: Deadline>(
    domain: &mut R,
    request: &SearchRequest,
    desired: usize,
    deadline: &mut D,
) -> (result: Result<(SearchResponse, Vec<SearchHit>, bool), MemoryQueryError>)
    ensures
        begins(old(deadline).answers(), final(deadline).answers()),
        keeps_time(*old(deadline), *final(deadline)),
        begins(old(domain).searches(), final(domain).searches()),
        final(domain).contexts() == old(domain).contexts(),
        final(domain).statuses() == old(domain).statuses(),
        forall|at: int|
            old(domain).searches().len() <= at < final(domain).searches().len() ==> #[trigger] repository_search_asked(
                request.deep_view(),
                final(domain).searches(),
                old(domain).searches().len() as int,
                at,
                final(deadline).answers(),
                old(deadline).answers().len() as int,
            ),
        forall|all: Seq<u64>, log: Seq<(SearchRequestView, Result<SearchResponseView, QueryErrorCode>)>|
            begins(final(deadline).answers(), all) && begins(final(domain).searches(), log)
                ==> #[trigger] gather(
                repository_search_pages(log),
                old(domain).searches().len() as int,
                true,
                Seq::empty(),
                false,
                desired as int,
                all,
                old(deadline).answers().len() as int,
            ) == match result {
                Ok((_, items, more)) => Ok::<_, MemoryQueryErrorView>(
                    Gathered {
                        items: items.deep_view(),
                        more,
                        pages: final(domain).searches().len() as int,
                        at: final(deadline).answers().len() as int,
                    },
                ),
                Err(error) => Err::<Gathered<SearchHitView>, _>(error.deep_view()),
            },
        result matches Ok((last, _, _)) ==> final(domain).searches().len() > old(domain).searches().len()
            && final(domain).searches().last().1 == Ok::<_, QueryErrorCode>(last.deep_view()),
{
    let ghost start = domain.searches().len() as int;
    let ghost asked_from = deadline.answers().len() as int;
    let ghost wanted = request.deep_view();
    let mut next = request.copied();
    let mut last: Option<SearchResponse> = None;
    let mut items: Vec<SearchHit> = Vec::new();
    let mut more = false;
    assert(items.deep_view() =~= Seq::<SearchHitView>::empty());
    loop
        invariant
            start == old(domain).searches().len(),
            asked_from == old(deadline).answers().len(),
            begins(old(deadline).answers(), deadline.answers()),
            keeps_time(*old(deadline), *deadline),
            begins(old(domain).searches(), domain.searches()),
            domain.contexts() == old(domain).contexts(),
            domain.statuses() == old(domain).statuses(),
            wanted == request.deep_view(),
            next.deep_view() == repository_search_request(
                wanted,
                next.deep_view().scope.budget.max_duration_ms,
                next.deep_view().cursor,
            ),
            last is None == (domain.searches().len() == start),
            last is None ==> next.deep_view().cursor == wanted.cursor,
            last matches Some(response) ==> domain.searches().last().1 == Ok::<_, QueryErrorCode>(
                response.deep_view(),
            ) && next.deep_view().cursor == response.deep_view().page.next_cursor && items.len() < desired,
            forall|at: int|
                start <= at < domain.searches().len() ==> #[trigger] repository_search_asked(
                    wanted,
                    domain.searches(),
                    start,
                    at,
                    deadline.answers(),
                    asked_from,
                ),
            deadline.answers().len() == asked_from + 2 * (domain.searches().len() - start),
            items.len() == 0 || items.len() < desired,
            forall|all: Seq<u64>, log: Seq<(SearchRequestView, Result<SearchResponseView, QueryErrorCode>)>|
                begins(deadline.answers(), all) && begins(domain.searches(), log) ==> #[trigger] gather(
                    repository_search_pages(log),
                    start,
                    true,
                    Seq::empty(),
                    false,
                    desired as int,
                    all,
                    asked_from,
                ) == gather(
                    repository_search_pages(log),
                    domain.searches().len() as int,
                    last is None,
                    items.deep_view(),
                    more,
                    desired as int,
                    all,
                    deadline.answers().len() as int,
                ),
        decreases desired - items.len(),
    {
        let ghost answered = deadline.answers();
        let ghost read = domain.searches();
        let ghost held = items.deep_view();
        let left_ms = deadline.remaining_ms();
        proof {
            assert forall|all: Seq<u64>| begins(deadline.answers(), all) implies all[answered.len() as int]
                == left_ms by {
                assert(all[answered.len() as int] == deadline.answers()[answered.len() as int]);
            }
            assert forall|at: int| start <= at < domain.searches().len() implies #[trigger] repository_search_asked(
                wanted,
                domain.searches(),
                start,
                at,
                deadline.answers(),
                asked_from,
            ) by {
                assert(repository_search_asked(wanted, domain.searches(), start, at, answered, asked_from));
            }
        }
        if left_ms == 0 {
            return match last {
                Some(last) => Ok((last, items, more)),
                None => Err(MemoryQueryError::BudgetExceeded(MemoryTruncationReason::Duration)),
            };
        }
        next.scope.budget.max_duration_ms = page_time(
            left_ms,
            &request.scope.budget.max_duration_ms,
        );
        let ghost sent = next.deep_view();
        let reply = domain.search(&next);
        proof {
            let log = domain.searches();
            assert(log =~= read.push((sent, outcome(reply))));
            assert(repository_search_asked(wanted, log, start, read.len() as int, deadline.answers(), asked_from));
            assert forall|at: int| start <= at < log.len() implies #[trigger] repository_search_asked(
                wanted,
                log,
                start,
                at,
                deadline.answers(),
                asked_from,
            ) by {
                if at < read.len() {
                    assert(repository_search_asked(wanted, read, start, at, answered, asked_from));
                    assert(log[at] == read[at]);
                    assert(at > start ==> log[at - 1] == read[at - 1]);
                }
            }
            assert forall|all: Seq<(SearchRequestView, Result<SearchResponseView, QueryErrorCode>)>|
                begins(log, all) implies #[trigger] repository_search_pages(all)[read.len() as int]
                == repository_search_page((sent, outcome(reply))) by {
                assert(all[read.len() as int] == log[read.len() as int]);
            }
        }
        let response = match reply {
            Ok(response) => response,
            Err(error) => {
                return Err(graph_error(error));
            },
        };
        let returned = response.hits.len();
        more = response.page.next_cursor.is_some();
        extend(&mut items, &response.hits);
        if items.len() >= desired || !more || returned == 0 {
            return Ok((response, items, more));
        }
        let ghost answered_twice = deadline.answers();
        let expired = deadline.expired();
        proof {
            assert forall|all: Seq<u64>| begins(deadline.answers(), all) implies is_up(all[answered_twice.len() as int])
                == expired && begins(answered_twice, all) by {
                assert(all[answered_twice.len() as int] == deadline.answers()[answered_twice.len() as int]);
            }
            assert forall|at: int| start <= at < domain.searches().len() implies #[trigger] repository_search_asked(
                wanted,
                domain.searches(),
                start,
                at,
                deadline.answers(),
                asked_from,
            ) by {
                assert(repository_search_asked(wanted, domain.searches(), start, at, answered_twice, asked_from));
            }
        }
        if expired {
            return Ok((response, items, more));
        }
        next.cursor = response.page.next_cursor.copied();
        last = Some(response);
    }
}

/// The same request, in so many milliseconds and from a cursor on.
pub open spec fn memory_search_request(
    request: MemorySearchRequestView,
    max_duration_ms: u64,
    cursor: Option<Seq<char>>,
) -> MemorySearchRequestView {
    MemorySearchRequestView {
        scope: MemoryQueryScopeView {
            budget: MemoryQueryBudgetView { max_duration_ms, ..request.scope.budget },
            ..request.scope
        },
        page: MemoryPageRequestView { cursor },
        ..request
    }
}

/// A page of a memory search, as an answer gives it.
pub open spec fn memory_search_page(
    entry: (MemorySearchRequestView, Result<MemorySearchResponseView, MemoryQueryErrorView>),
) -> Result<DomainPage<MemorySearchHitView>, MemoryQueryErrorView> {
    match entry.1 {
        Ok(response) => Ok(
            DomainPage { items: response.hits, more: response.page.next_cursor is Some },
        ),
        Err(error) => Err(error),
    }
}

/// The pages of a memory search, as the answers give them.
pub open spec fn memory_search_pages(
    log: Seq<(MemorySearchRequestView, Result<MemorySearchResponseView, MemoryQueryErrorView>)>,
) -> Seq<Result<DomainPage<MemorySearchHitView>, MemoryQueryErrorView>> {
    log.map_values(
        |entry: (MemorySearchRequestView, Result<MemorySearchResponseView, MemoryQueryErrorView>)|
            memory_search_page(entry),
    )
}

/// Whether a page was asked for as it should be: the first as the request says, each other one from
/// where the page before it ends, and all in the time that was left then.
pub open spec fn memory_search_asked(
    request: MemorySearchRequestView,
    log: Seq<(MemorySearchRequestView, Result<MemorySearchResponseView, MemoryQueryErrorView>)>,
    from: int,
    at: int,
    lefts: Seq<u64>,
    first: int,
) -> bool {
    &&& 0 <= first + 2 * (at - from) < lefts.len()
    &&& log[at].0.scope.budget.max_duration_ms == shorter(
        lefts[first + 2 * (at - from)],
        request.scope.budget.max_duration_ms,
    )
    &&& log[at].0 == memory_search_request(
        request,
        log[at].0.scope.budget.max_duration_ms,
        if at == from {
            request.page.cursor
        } else {
            match log[at - 1].1 {
                Ok(response) => response.page.next_cursor,
                Err(_) => None,
            }
        },
    )
}

/// Gathers pages of a memory search: the last answer, the items of all the pages, and whether there are
/// more.
pub fn gather_memory_search<M: MemoryQuery, D: Deadline>(
    domain: &mut M,
    request: &MemorySearchRequest,
    desired: usize,
    deadline: &mut D,
) -> (result: Result<(MemorySearchResponse, Vec<MemorySearchHit>, bool), MemoryQueryError>)
    ensures
        begins(old(deadline).answers(), final(deadline).answers()),
        keeps_time(*old(deadline), *final(deadline)),
        begins(old(domain).searches(), final(domain).searches()),
        final(domain).contexts() == old(domain).contexts(),
        final(domain).statuses() == old(domain).statuses(),
        forall|at: int|
            old(domain).searches().len() <= at < final(domain).searches().len() ==> #[trigger] memory_search_asked(
                request.deep_view(),
                final(domain).searches(),
                old(domain).searches().len() as int,
                at,
                final(deadline).answers(),
                old(deadline).answers().len() as int,
            ),
        forall|all: Seq<u64>, log: Seq<(MemorySearchRequestView, Result<MemorySearchResponseView, MemoryQueryErrorView>)>|
            begins(final(deadline).answers(), all) && begins(final(domain).searches(), log)
                ==> #[trigger] gather(
                memory_search_pages(log),
                old(domain).searches().len() as int,
                true,
                Seq::empty(),
                false,
                desired as int,
                all,
                old(deadline).answers().len() as int,
            ) == match result {
                Ok((_, items, more)) => Ok::<_, MemoryQueryErrorView>(
                    Gathered {
                        items: items.deep_view(),
                        more,
                        pages: final(domain).searches().len() as int,
                        at: final(deadline).answers().len() as int,
                    },
                ),
                Err(error) => Err::<Gathered<MemorySearchHitView>, _>(error.deep_view()),
            },
        result matches Ok((last, _, _)) ==> final(domain).searches().len() > old(domain).searches().len()
            && final(domain).searches().last().1 == Ok::<_, MemoryQueryErrorView>(last.deep_view()),
{
    let ghost start = domain.searches().len() as int;
    let ghost asked_from = deadline.answers().len() as int;
    let ghost wanted = request.deep_view();
    let mut next = request.copied();
    let mut last: Option<MemorySearchResponse> = None;
    let mut items: Vec<MemorySearchHit> = Vec::new();
    let mut more = false;
    assert(items.deep_view() =~= Seq::<MemorySearchHitView>::empty());
    loop
        invariant
            start == old(domain).searches().len(),
            asked_from == old(deadline).answers().len(),
            begins(old(deadline).answers(), deadline.answers()),
            keeps_time(*old(deadline), *deadline),
            begins(old(domain).searches(), domain.searches()),
            domain.contexts() == old(domain).contexts(),
            domain.statuses() == old(domain).statuses(),
            wanted == request.deep_view(),
            next.deep_view() == memory_search_request(
                wanted,
                next.deep_view().scope.budget.max_duration_ms,
                next.deep_view().page.cursor,
            ),
            last is None == (domain.searches().len() == start),
            last is None ==> next.deep_view().page.cursor == wanted.page.cursor,
            last matches Some(response) ==> domain.searches().last().1 == Ok::<_, MemoryQueryErrorView>(
                response.deep_view(),
            ) && next.deep_view().page.cursor == response.deep_view().page.next_cursor && items.len() < desired,
            forall|at: int|
                start <= at < domain.searches().len() ==> #[trigger] memory_search_asked(
                    wanted,
                    domain.searches(),
                    start,
                    at,
                    deadline.answers(),
                    asked_from,
                ),
            deadline.answers().len() == asked_from + 2 * (domain.searches().len() - start),
            items.len() == 0 || items.len() < desired,
            forall|all: Seq<u64>, log: Seq<(MemorySearchRequestView, Result<MemorySearchResponseView, MemoryQueryErrorView>)>|
                begins(deadline.answers(), all) && begins(domain.searches(), log) ==> #[trigger] gather(
                    memory_search_pages(log),
                    start,
                    true,
                    Seq::empty(),
                    false,
                    desired as int,
                    all,
                    asked_from,
                ) == gather(
                    memory_search_pages(log),
                    domain.searches().len() as int,
                    last is None,
                    items.deep_view(),
                    more,
                    desired as int,
                    all,
                    deadline.answers().len() as int,
                ),
        decreases desired - items.len(),
    {
        let ghost answered = deadline.answers();
        let ghost read = domain.searches();
        let ghost held = items.deep_view();
        let left_ms = deadline.remaining_ms();
        proof {
            assert forall|all: Seq<u64>| begins(deadline.answers(), all) implies all[answered.len() as int]
                == left_ms by {
                assert(all[answered.len() as int] == deadline.answers()[answered.len() as int]);
            }
            assert forall|at: int| start <= at < domain.searches().len() implies #[trigger] memory_search_asked(
                wanted,
                domain.searches(),
                start,
                at,
                deadline.answers(),
                asked_from,
            ) by {
                assert(memory_search_asked(wanted, domain.searches(), start, at, answered, asked_from));
            }
        }
        if left_ms == 0 {
            return match last {
                Some(last) => Ok((last, items, more)),
                None => Err(MemoryQueryError::BudgetExceeded(MemoryTruncationReason::Duration)),
            };
        }
        next.scope.budget.max_duration_ms = page_time(
            left_ms,
            &request.scope.budget.max_duration_ms,
        );
        let ghost sent = next.deep_view();
        let reply = domain.search(&next);
        proof {
            let log = domain.searches();
            assert(log =~= read.push((sent, outcome(reply))));
            assert(memory_search_asked(wanted, log, start, read.len() as int, deadline.answers(), asked_from));
            assert forall|at: int| start <= at < log.len() implies #[trigger] memory_search_asked(
                wanted,
                log,
                start,
                at,
                deadline.answers(),
                asked_from,
            ) by {
                if at < read.len() {
                    assert(memory_search_asked(wanted, read, start, at, answered, asked_from));
                    assert(log[at] == read[at]);
                    assert(at > start ==> log[at - 1] == read[at - 1]);
                }
            }
            assert forall|all: Seq<(MemorySearchRequestView, Result<MemorySearchResponseView, MemoryQueryErrorView>)>|
                begins(log, all) implies #[trigger] memory_search_pages(
                all,
            )[read.len() as int] == memory_search_page((sent, outcome(reply))) by {
                assert(all[read.len() as int] == log[read.len() as int]);
            }
        }
        let response = match reply {
            Ok(response) => response,
            Err(error) => {
                return Err(error);
            },
        };
        let returned = response.hits.len();
        more = response.page.next_cursor.is_some();
        extend(&mut items, &response.hits);
        if items.len() >= desired || !more || returned == 0 {
            return Ok((response, items, more));
        }
        let ghost answered_twice = deadline.answers();
        let expired = deadline.expired();
        proof {
            assert forall|all: Seq<u64>| begins(deadline.answers(), all) implies is_up(all[answered_twice.len() as int])
                == expired && begins(answered_twice, all) by {
                assert(all[answered_twice.len() as int] == deadline.answers()[answered_twice.len() as int]);
            }
            assert forall|at: int| start <= at < domain.searches().len() implies #[trigger] memory_search_asked(
                wanted,
                domain.searches(),
                start,
                at,
                deadline.answers(),
                asked_from,
            ) by {
                assert(memory_search_asked(wanted, domain.searches(), start, at, answered_twice, asked_from));
            }
        }
        if expired {
            return Ok((response, items, more));
        }
        next.page.cursor = response.page.next_cursor.copied();
        last = Some(response);
    }
}

/// The snippets of the answers from one on, up to another.
pub open spec fn repository_context_snippets(
    log: Seq<(ContextRequestView, Result<ContextResponseView, QueryErrorCode>)>,
    from: int,
    to: int,
) -> Seq<ContextSnippetView>
    decreases to - from,
{
    if to <= from {
        Seq::empty()
    } else {
        repository_context_snippets(log, from, to - 1) + match log[to - 1].1 {
            Ok(response) => response.snippets,
            Err(_) => Seq::empty(),
        }
    }
}

pub proof fn repository_context_snippets_are_kept(
    log: Seq<(ContextRequestView, Result<ContextResponseView, QueryErrorCode>)>,
    all: Seq<(ContextRequestView, Result<ContextResponseView, QueryErrorCode>)>,
    from: int,
    to: int,
)
    requires
        begins(log, all),
        0 <= from,
        to <= log.len(),
    ensures
        repository_context_snippets(all, from, to) == repository_context_snippets(log, from, to),
    decreases to - from,
{
    if to > from {
        repository_context_snippets_are_kept(log, all, from, to - 1);
        assert(all[to - 1] == log[to - 1]);
    }
}

/// The same request, in so many milliseconds and from a cursor on.
pub open spec fn repository_context_request(
    request: ContextRequestView,
    max_duration_ms: u64,
    cursor: Option<Seq<char>>,
) -> ContextRequestView {
    ContextRequestView {
        scope: QueryScopeView {
            budget: QueryBudgetView { max_duration_ms, ..request.scope.budget },
            ..request.scope
        },
        cursor,
        ..request
    }
}

/// A page of repository context, as an answer gives it.
pub open spec fn repository_context_page(
    entry: (ContextRequestView, Result<ContextResponseView, QueryErrorCode>),
) -> Result<DomainPage<ContextItemView>, MemoryQueryErrorView> {
    match entry.1 {
        Ok(response) => Ok(
            DomainPage { items: response.items, more: response.page.next_cursor is Some },
        ),
        Err(error) => Err(repository_error(error)),
    }
}

/// The pages of repository context, as the answers give them.
pub open spec fn repository_context_pages(
    log: Seq<(ContextRequestView, Result<ContextResponseView, QueryErrorCode>)>,
) -> Seq<Result<DomainPage<ContextItemView>, MemoryQueryErrorView>> {
    log.map_values(|entry: (ContextRequestView, Result<ContextResponseView, QueryErrorCode>)| repository_context_page(entry))
}

/// Whether a page was asked for as it should be: the first as the request says, each other one from
/// where the page before it ends, and all in the time that was left then.
pub open spec fn repository_context_asked(
    request: ContextRequestView,
    log: Seq<(ContextRequestView, Result<ContextResponseView, QueryErrorCode>)>,
    from: int,
    at: int,
    lefts: Seq<u64>,
    first: int,
) -> bool {
    &&& 0 <= first + 2 * (at - from) < lefts.len()
    &&& log[at].0.scope.budget.max_duration_ms == shorter(
        lefts[first + 2 * (at - from)],
        request.scope.budget.max_duration_ms,
    )
    &&& log[at].0 == repository_context_request(
        request,
        log[at].0.scope.budget.max_duration_ms,
        if at == from {
            request.cursor
        } else {
            match log[at - 1].1 {
                Ok(response) => response.page.next_cursor,
                Err(_) => None,
            }
        },
    )
}

/// Gathers pages of repository context: the last answer, the items of all the pages, and whether there are
/// more.
pub fn gather_repository_context<R: GraphQuery, D: Deadline>(
    domain: &mut R,
    request: &ContextRequest,
    desired: usize,
    deadline: &mut D,
) -> (result: Result<(ContextResponse, Vec<ContextItem>, Vec<ContextSnippet>, bool), MemoryQueryError>)
    ensures
        begins(old(deadline).answers(), final(deadline).answers()),
        keeps_time(*old(deadline), *final(deadline)),
        begins(old(domain).contexts(), final(domain).contexts()),
        final(domain).searches() == old(domain).searches(),
        final(domain).statuses() == old(domain).statuses(),
        forall|at: int|
            old(domain).contexts().len() <= at < final(domain).contexts().len() ==> #[trigger] repository_context_asked(
                request.deep_view(),
                final(domain).contexts(),
                old(domain).contexts().len() as int,
                at,
                final(deadline).answers(),
                old(deadline).answers().len() as int,
            ),
        forall|all: Seq<u64>, log: Seq<(ContextRequestView, Result<ContextResponseView, QueryErrorCode>)>|
            begins(final(deadline).answers(), all) && begins(final(domain).contexts(), log)
                ==> #[trigger] gather(
                repository_context_pages(log),
                old(domain).contexts().len() as int,
                true,
                Seq::empty(),
                false,
                desired as int,
                all,
                old(deadline).answers().len() as int,
            ) == match result {
                Ok((_, items, _, more)) => Ok::<_, MemoryQueryErrorView>(
                    Gathered {
                        items: items.deep_view(),
                        more,
                        pages: final(domain).contexts().len() as int,
                        at: final(deadline).answers().len() as int,
                    },
                ),
                Err(error) => Err::<Gathered<ContextItemView>, _>(error.deep_view()),
            },
        result matches Ok((last, _, _, _)) ==> final(domain).contexts().len() > old(domain).contexts().len()
            && final(domain).contexts().last().1 == Ok::<_, QueryErrorCode>(last.deep_view()),
        result matches Ok((_, _, snippets, _)) ==> snippets.deep_view() == repository_context_snippets(
            final(domain).contexts(),
            old(domain).contexts().len() as int,
            final(domain).contexts().len() as int,
        ),
{
    let ghost start = domain.contexts().len() as int;
    let ghost asked_from = deadline.answers().len() as int;
    let ghost wanted = request.deep_view();
    let mut next = request.copied();
    let mut last: Option<ContextResponse> = None;
    let mut items: Vec<ContextItem> = Vec::new();
    let mut snippets: Vec<ContextSnippet> = Vec::new();
    assert(snippets.deep_view() =~= repository_context_snippets(domain.contexts(), start, start));
    let mut more = false;
    assert(items.deep_view() =~= Seq::<ContextItemView>::empty());
    loop
        invariant
            start == old(domain).contexts().len(),
            asked_from == old(deadline).answers().len(),
            begins(old(deadline).answers(), deadline.answers()),
            keeps_time(*old(deadline), *deadline),
            begins(old(domain).contexts(), domain.contexts()),
            domain.searches() == old(domain).searches(),
            domain.statuses() == old(domain).statuses(),
            wanted == request.deep_view(),
            next.deep_view() == repository_context_request(
                wanted,
                next.deep_view().scope.budget.max_duration_ms,
                next.deep_view().cursor,
            ),
            last is None == (domain.contexts().len() == start),
            last is None ==> next.deep_view().cursor == wanted.cursor,
            last matches Some(response) ==> domain.contexts().last().1 == Ok::<_, QueryErrorCode>(
                response.deep_view(),
            ) && next.deep_view().cursor == response.deep_view().page.next_cursor && items.len() < desired,
            forall|at: int|
                start <= at < domain.contexts().len() ==> #[trigger] repository_context_asked(
                    wanted,
                    domain.contexts(),
                    start,
                    at,
                    deadline.answers(),
                    asked_from,
                ),
            deadline.answers().len() == asked_from + 2 * (domain.contexts().len() - start),
            items.len() == 0 || items.len() < desired,
            snippets.deep_view() == repository_context_snippets(
                domain.contexts(),
                start,
                domain.contexts().len() as int,
            ),
            forall|all: Seq<u64>, log: Seq<(ContextRequestView, Result<ContextResponseView, QueryErrorCode>)>|
                begins(deadline.answers(), all) && begins(domain.contexts(), log) ==> #[trigger] gather(
                    repository_context_pages(log),
                    start,
                    true,
                    Seq::empty(),
                    false,
                    desired as int,
                    all,
                    asked_from,
                ) == gather(
                    repository_context_pages(log),
                    domain.contexts().len() as int,
                    last is None,
                    items.deep_view(),
                    more,
                    desired as int,
                    all,
                    deadline.answers().len() as int,
                ),
        decreases desired - items.len(),
    {
        let ghost answered = deadline.answers();
        let ghost read = domain.contexts();
        let ghost held = items.deep_view();
        let left_ms = deadline.remaining_ms();
        proof {
            assert forall|all: Seq<u64>| begins(deadline.answers(), all) implies all[answered.len() as int]
                == left_ms by {
                assert(all[answered.len() as int] == deadline.answers()[answered.len() as int]);
            }
            assert forall|at: int| start <= at < domain.contexts().len() implies #[trigger] repository_context_asked(
                wanted,
                domain.contexts(),
                start,
                at,
                deadline.answers(),
                asked_from,
            ) by {
                assert(repository_context_asked(wanted, domain.contexts(), start, at, answered, asked_from));
            }
        }
        if left_ms == 0 {
            return match last {
                Some(last) => Ok((last, items, snippets, more)),
                None => Err(MemoryQueryError::BudgetExceeded(MemoryTruncationReason::Duration)),
            };
        }
        next.scope.budget.max_duration_ms = page_time(
            left_ms,
            &request.scope.budget.max_duration_ms,
        );
        let ghost sent = next.deep_view();
        let reply = domain.context(&next);
        proof {
            let log = domain.contexts();
            assert(log =~= read.push((sent, outcome(reply))));
            assert(repository_context_asked(wanted, log, start, read.len() as int, deadline.answers(), asked_from));
            assert forall|at: int| start <= at < log.len() implies #[trigger] repository_context_asked(
                wanted,
                log,
                start,
                at,
                deadline.answers(),
                asked_from,
            ) by {
                if at < read.len() {
                    assert(repository_context_asked(wanted, read, start, at, answered, asked_from));
                    assert(log[at] == read[at]);
                    assert(at > start ==> log[at - 1] == read[at - 1]);
                }
            }
            assert forall|all: Seq<(ContextRequestView, Result<ContextResponseView, QueryErrorCode>)>|
                begins(log, all) implies #[trigger] repository_context_pages(
                all,
            )[read.len() as int] == repository_context_page((sent, outcome(reply))) by {
                assert(all[read.len() as int] == log[read.len() as int]);
            }
        }
        let response = match reply {
            Ok(response) => response,
            Err(error) => {
                return Err(graph_error(error));
            },
        };
        let returned = response.items.len();
        more = response.page.next_cursor.is_some();
        extend(&mut items, &response.items);
        proof {
            repository_context_snippets_are_kept(read, domain.contexts(), start, read.len() as int);
        }
        extend(&mut snippets, &response.snippets);
        if items.len() >= desired || !more || returned == 0 {
            return Ok((response, items, snippets, more));
        }
        let ghost answered_twice = deadline.answers();
        let expired = deadline.expired();
        proof {
            assert forall|all: Seq<u64>| begins(deadline.answers(), all) implies is_up(all[answered_twice.len() as int])
                == expired && begins(answered_twice, all) by {
                assert(all[answered_twice.len() as int] == deadline.answers()[answered_twice.len() as int]);
            }
            assert forall|at: int| start <= at < domain.contexts().len() implies #[trigger] repository_context_asked(
                wanted,
                domain.contexts(),
                start,
                at,
                deadline.answers(),
                asked_from,
            ) by {
                assert(repository_context_asked(wanted, domain.contexts(), start, at, answered_twice, asked_from));
            }
        }
        if expired {
            return Ok((response, items, snippets, more));
        }
        next.cursor = response.page.next_cursor.copied();
        last = Some(response);
    }
}

/// The relationships of the answers from one on, up to another.
pub open spec fn memory_context_relationships(
    log: Seq<(MemoryContextRequestView, Result<MemoryContextResponseView, MemoryQueryErrorView>)>,
    from: int,
    to: int,
) -> Seq<MemoryRelationshipView>
    decreases to - from,
{
    if to <= from {
        Seq::empty()
    } else {
        memory_context_relationships(log, from, to - 1) + match log[to - 1].1 {
            Ok(response) => response.relationships,
            Err(_) => Seq::empty(),
        }
    }
}

pub proof fn memory_context_relationships_are_kept(
    log: Seq<(MemoryContextRequestView, Result<MemoryContextResponseView, MemoryQueryErrorView>)>,
    all: Seq<(MemoryContextRequestView, Result<MemoryContextResponseView, MemoryQueryErrorView>)>,
    from: int,
    to: int,
)
    requires
        begins(log, all),
        0 <= from,
        to <= log.len(),
    ensures
        memory_context_relationships(all, from, to) == memory_context_relationships(log, from, to),
    decreases to - from,
{
    if to > from {
        memory_context_relationships_are_kept(log, all, from, to - 1);
        assert(all[to - 1] == log[to - 1]);
    }
}

/// The same request, in so many milliseconds and from a cursor on.
pub open spec fn memory_context_request(
    request: MemoryContextRequestView,
    max_duration_ms: u64,
    cursor: Option<Seq<char>>,
) -> MemoryContextRequestView {
    MemoryContextRequestView {
        scope: MemoryQueryScopeView {
            budget: MemoryQueryBudgetView { max_duration_ms, ..request.scope.budget },
            ..request.scope
        },
        page: MemoryPageRequestView { cursor },
        ..request
    }
}

/// A page of memory context, as an answer gives it.
pub open spec fn memory_context_page(
    entry: (MemoryContextRequestView, Result<MemoryContextResponseView, MemoryQueryErrorView>),
) -> Result<DomainPage<MemoryContextItemView>, MemoryQueryErrorView> {
    match entry.1 {
        Ok(response) => Ok(
            DomainPage { items: response.items, more: response.page.next_cursor is Some },
        ),
        Err(error) => Err(error),
    }
}

/// The pages of memory context, as the answers give them.
pub open spec fn memory_context_pages(
    log: Seq<(MemoryContextRequestView, Result<MemoryContextResponseView, MemoryQueryErrorView>)>,
) -> Seq<Result<DomainPage<MemoryContextItemView>, MemoryQueryErrorView>> {
    log.map_values(|entry: (MemoryContextRequestView, Result<MemoryContextResponseView, MemoryQueryErrorView>)| memory_context_page(entry))
}

/// Whether a page was asked for as it should be: the first as the request says, each other one from
/// where the page before it ends, and all in the time that was left then.
pub open spec fn memory_context_asked(
    request: MemoryContextRequestView,
    log: Seq<(MemoryContextRequestView, Result<MemoryContextResponseView, MemoryQueryErrorView>)>,
    from: int,
    at: int,
    lefts: Seq<u64>,
    first: int,
) -> bool {
    &&& 0 <= first + 2 * (at - from) < lefts.len()
    &&& log[at].0.scope.budget.max_duration_ms == shorter(
        lefts[first + 2 * (at - from)],
        request.scope.budget.max_duration_ms,
    )
    &&& log[at].0 == memory_context_request(
        request,
        log[at].0.scope.budget.max_duration_ms,
        if at == from {
            request.page.cursor
        } else {
            match log[at - 1].1 {
                Ok(response) => response.page.next_cursor,
                Err(_) => None,
            }
        },
    )
}

/// Gathers pages of memory context: the last answer, the items of all the pages, and whether there are
/// more.
pub fn gather_memory_context<M: MemoryQuery, D: Deadline>(
    domain: &mut M,
    request: &MemoryContextRequest,
    desired: usize,
    deadline: &mut D,
) -> (result: Result<(MemoryContextResponse, Vec<MemoryContextItem>, Vec<MemoryRelationship>, bool), MemoryQueryError>)
    ensures
        begins(old(deadline).answers(), final(deadline).answers()),
        keeps_time(*old(deadline), *final(deadline)),
        begins(old(domain).contexts(), final(domain).contexts()),
        final(domain).searches() == old(domain).searches(),
        final(domain).statuses() == old(domain).statuses(),
        forall|at: int|
            old(domain).contexts().len() <= at < final(domain).contexts().len() ==> #[trigger] memory_context_asked(
                request.deep_view(),
                final(domain).contexts(),
                old(domain).contexts().len() as int,
                at,
                final(deadline).answers(),
                old(deadline).answers().len() as int,
            ),
        forall|all: Seq<u64>, log: Seq<(MemoryContextRequestView, Result<MemoryContextResponseView, MemoryQueryErrorView>)>|
            begins(final(deadline).answers(), all) && begins(final(domain).contexts(), log)
                ==> #[trigger] gather(
                memory_context_pages(log),
                old(domain).contexts().len() as int,
                true,
                Seq::empty(),
                false,
                desired as int,
                all,
                old(deadline).answers().len() as int,
            ) == match result {
                Ok((_, items, _, more)) => Ok::<_, MemoryQueryErrorView>(
                    Gathered {
                        items: items.deep_view(),
                        more,
                        pages: final(domain).contexts().len() as int,
                        at: final(deadline).answers().len() as int,
                    },
                ),
                Err(error) => Err::<Gathered<MemoryContextItemView>, _>(error.deep_view()),
            },
        result matches Ok((last, _, _, _)) ==> final(domain).contexts().len() > old(domain).contexts().len()
            && final(domain).contexts().last().1 == Ok::<_, MemoryQueryErrorView>(last.deep_view()),
        result matches Ok((_, _, relationships, _)) ==> relationships.deep_view() == memory_context_relationships(
            final(domain).contexts(),
            old(domain).contexts().len() as int,
            final(domain).contexts().len() as int,
        ),
{
    let ghost start = domain.contexts().len() as int;
    let ghost asked_from = deadline.answers().len() as int;
    let ghost wanted = request.deep_view();
    let mut next = request.copied();
    let mut last: Option<MemoryContextResponse> = None;
    let mut items: Vec<MemoryContextItem> = Vec::new();
    let mut relationships: Vec<MemoryRelationship> = Vec::new();
    assert(relationships.deep_view() =~= memory_context_relationships(domain.contexts(), start, start));
    let mut more = false;
    assert(items.deep_view() =~= Seq::<MemoryContextItemView>::empty());
    loop
        invariant
            start == old(domain).contexts().len(),
            asked_from == old(deadline).answers().len(),
            begins(old(deadline).answers(), deadline.answers()),
            keeps_time(*old(deadline), *deadline),
            begins(old(domain).contexts(), domain.contexts()),
            domain.searches() == old(domain).searches(),
            domain.statuses() == old(domain).statuses(),
            wanted == request.deep_view(),
            next.deep_view() == memory_context_request(
                wanted,
                next.deep_view().scope.budget.max_duration_ms,
                next.deep_view().page.cursor,
            ),
            last is None == (domain.contexts().len() == start),
            last is None ==> next.deep_view().page.cursor == wanted.page.cursor,
            last matches Some(response) ==> domain.contexts().last().1 == Ok::<_, MemoryQueryErrorView>(
                response.deep_view(),
            ) && next.deep_view().page.cursor == response.deep_view().page.next_cursor && items.len() < desired,
            forall|at: int|
                start <= at < domain.contexts().len() ==> #[trigger] memory_context_asked(
                    wanted,
                    domain.contexts(),
                    start,
                    at,
                    deadline.answers(),
                    asked_from,
                ),
            deadline.answers().len() == asked_from + 2 * (domain.contexts().len() - start),
            items.len() == 0 || items.len() < desired,
            relationships.deep_view() == memory_context_relationships(
                domain.contexts(),
                start,
                domain.contexts().len() as int,
            ),
            forall|all: Seq<u64>, log: Seq<(MemoryContextRequestView, Result<MemoryContextResponseView, MemoryQueryErrorView>)>|
                begins(deadline.answers(), all) && begins(domain.contexts(), log) ==> #[trigger] gather(
                    memory_context_pages(log),
                    start,
                    true,
                    Seq::empty(),
                    false,
                    desired as int,
                    all,
                    asked_from,
                ) == gather(
                    memory_context_pages(log),
                    domain.contexts().len() as int,
                    last is None,
                    items.deep_view(),
                    more,
                    desired as int,
                    all,
                    deadline.answers().len() as int,
                ),
        decreases desired - items.len(),
    {
        let ghost answered = deadline.answers();
        let ghost read = domain.contexts();
        let ghost held = items.deep_view();
        let left_ms = deadline.remaining_ms();
        proof {
            assert forall|all: Seq<u64>| begins(deadline.answers(), all) implies all[answered.len() as int]
                == left_ms by {
                assert(all[answered.len() as int] == deadline.answers()[answered.len() as int]);
            }
            assert forall|at: int| start <= at < domain.contexts().len() implies #[trigger] memory_context_asked(
                wanted,
                domain.contexts(),
                start,
                at,
                deadline.answers(),
                asked_from,
            ) by {
                assert(memory_context_asked(wanted, domain.contexts(), start, at, answered, asked_from));
            }
        }
        if left_ms == 0 {
            return match last {
                Some(last) => Ok((last, items, relationships, more)),
                None => Err(MemoryQueryError::BudgetExceeded(MemoryTruncationReason::Duration)),
            };
        }
        next.scope.budget.max_duration_ms = page_time(
            left_ms,
            &request.scope.budget.max_duration_ms,
        );
        let ghost sent = next.deep_view();
        let reply = domain.context(&next);
        proof {
            let log = domain.contexts();
            assert(log =~= read.push((sent, outcome(reply))));
            assert(memory_context_asked(wanted, log, start, read.len() as int, deadline.answers(), asked_from));
            assert forall|at: int| start <= at < log.len() implies #[trigger] memory_context_asked(
                wanted,
                log,
                start,
                at,
                deadline.answers(),
                asked_from,
            ) by {
                if at < read.len() {
                    assert(memory_context_asked(wanted, read, start, at, answered, asked_from));
                    assert(log[at] == read[at]);
                    assert(at > start ==> log[at - 1] == read[at - 1]);
                }
            }
            assert forall|all: Seq<(MemoryContextRequestView, Result<MemoryContextResponseView, MemoryQueryErrorView>)>|
                begins(log, all) implies #[trigger] memory_context_pages(
                all,
            )[read.len() as int] == memory_context_page((sent, outcome(reply))) by {
                assert(all[read.len() as int] == log[read.len() as int]);
            }
        }
        let response = match reply {
            Ok(response) => response,
            Err(error) => {
                return Err(error);
            },
        };
        let returned = response.items.len();
        more = response.page.next_cursor.is_some();
        extend(&mut items, &response.items);
        proof {
            memory_context_relationships_are_kept(read, domain.contexts(), start, read.len() as int);
        }
        extend(&mut relationships, &response.relationships);
        if items.len() >= desired || !more || returned == 0 {
            return Ok((response, items, relationships, more));
        }
        let ghost answered_twice = deadline.answers();
        let expired = deadline.expired();
        proof {
            assert forall|all: Seq<u64>| begins(deadline.answers(), all) implies is_up(all[answered_twice.len() as int])
                == expired && begins(answered_twice, all) by {
                assert(all[answered_twice.len() as int] == deadline.answers()[answered_twice.len() as int]);
            }
            assert forall|at: int| start <= at < domain.contexts().len() implies #[trigger] memory_context_asked(
                wanted,
                domain.contexts(),
                start,
                at,
                deadline.answers(),
                asked_from,
            ) by {
                assert(memory_context_asked(wanted, domain.contexts(), start, at, answered_twice, asked_from));
            }
        }
        if expired {
            return Ok((response, items, relationships, more));
        }
        next.page.cursor = response.page.next_cursor.copied();
        last = Some(response);
    }
}

}
