//! Collecting what the domains say to a question for context.
use vstd::prelude::*;
use crate::budget::{backend, backend_error, EffectiveBudget};
use crate::deadline::{begins, is_up, keeps_time, Deadline};
use crate::diagnostics::{MemoryDiagnostic, MemoryDiagnosticView};
use crate::domain::{MemoryRelationship, MemoryRelationshipView};
use crate::federation::asking::{
    memory_context, memory_question, memory_says, repository_context, repository_question,
    repository_says,
};
use crate::federation::crossing::{
    both_known, cross_in, cross_out, ends_of, learn, links_asked, links_in, links_of, links_said,
    memory_status_request, repository_status_scope, said, said_first, snapshot_said, sources_of,
    status_requests_are, status_scopes_are, ways_out, MemoryAnswers, Said,
};
use crate::federation::fitting::too_late;
use crate::federation::gathering::{extend, memory_context_asked, repository_context_asked};
use crate::federation::seeds::{
    all_memory, all_repository, memory_only_seeds, memory_seeds, repository_only_seeds,
    repository_seeds, split_all_seeds,
};
use crate::federation::state::{
    contextual_memory, contextual_repository, known_memory, known_repository,
    memory_state_from_context, memory_state_from_status, repository_state_from_context,
    repository_state_from_status,
};
use crate::federation::{
    FederatedContextRequest, FederatedContextRequestView, FederatedTarget, FederatedTargetView,
    MemoryDomainState, MemoryDomainStateView, RepositoryContextTarget, RepositoryContextTargetView,
    RepositoryDomainState, RepositoryDomainStateView,
};
use crate::ports::{GraphQuery, MemoryLinkStore, MemoryQuery};
use crate::query::{
    MemoryContextRequestView, MemoryContextResponseView, MemoryContextSeed, MemoryContextSeedView,
    MemoryFreshnessComparison, MemoryFreshnessComparisonView, MemoryQueryError,
    MemoryQueryErrorView, MemoryRevisionSelector, MemoryRevisionSelectorView,
    MemoryTruncationReason,
};
use crate::repository::{
    ContextRequestView, ContextResponse, ContextResponseView, ContextSeed, ContextSeedView,
    QueryErrorCode,
};
use crate::sort::{dedup_keys, distinct_keys, sort, sorted};

verus! {

/// Repository answers, each with the number of links that were crossed to get it.
pub type RepositoryAnswers = Vec<(ContextResponse, u32)>;

/// What one domain said in two questions: its answers, and how many of its pages and of the
/// deadline's answers are known then.
pub struct TwoAnswers<T> {
    pub answers: Seq<(T, u32)>,
    pub pages: int,
    pub at: int,
}

/// Answers with one more, where there is one.
pub open spec fn with_answer<T>(
    answers: Seq<(T, u32)>,
    answer: Option<T>,
    hops: u32,
) -> Seq<(T, u32)> {
    match answer {
        Some(answer) => answers.push((answer, hops)),
        None => answers,
    }
}

/// One step less.
pub open spec fn shallower(depth: u32) -> u32 {
    if depth == 0 {
        0
    } else {
        (depth - 1) as u32
    }
}

fn one_less(depth: u32) -> (less: u32)
    ensures
        less == shallower(depth),
{
    if depth == 0 {
        0
    } else {
        depth - 1
    }
}

/// What the memory says about its own seeds and then, one step less deep, about those that links
/// lead to.
#[verifier::opaque]
pub open spec fn memory_says_twice(
    log: Seq<(MemoryContextRequestView, Result<MemoryContextResponseView, MemoryQueryErrorView>)>,
    from: int,
    seeds: Seq<MemoryContextSeedView>,
    linked: Seq<MemoryContextSeedView>,
    max_depth: u32,
    desired: int,
    answers: Seq<u64>,
    at: int,
) -> Result<TwoAnswers<MemoryContextResponseView>, MemoryQueryErrorView> {
    if is_up(answers[at]) {
        Err(too_late())
    } else {
        match memory_says(log, from, seeds, max_depth, desired, answers, at + 1) {
            Err(error) => Err(error),
            Ok(own) => if is_up(answers[own.at]) {
                Err(too_late())
            } else {
                match memory_says(
                    log,
                    own.pages,
                    linked,
                    shallower(max_depth),
                    desired,
                    answers,
                    own.at + 1,
                ) {
                    Err(error) => Err(error),
                    Ok(other) => Ok(
                        TwoAnswers {
                            answers: with_answer(
                                with_answer(Seq::empty(), own.response, 0),
                                other.response,
                                1,
                            ),
                            pages: other.pages,
                            at: other.at,
                        },
                    ),
                }
            },
        }
    }
}

/// What the repository says about its own seeds and then, one step less deep, about those that links
/// lead to.
#[verifier::opaque]
pub open spec fn repository_says_twice(
    log: Seq<(ContextRequestView, Result<ContextResponseView, QueryErrorCode>)>,
    from: int,
    seeds: Seq<ContextSeedView>,
    linked: Seq<ContextSeedView>,
    max_depth: u32,
    desired: int,
    answers: Seq<u64>,
    at: int,
) -> Result<TwoAnswers<ContextResponseView>, MemoryQueryErrorView> {
    if is_up(answers[at]) {
        Err(too_late())
    } else {
        match repository_says(log, from, seeds, max_depth, desired, answers, at + 1) {
            Err(error) => Err(error),
            Ok(own) => if is_up(answers[own.at]) {
                Err(too_late())
            } else {
                match repository_says(
                    log,
                    own.pages,
                    linked,
                    shallower(max_depth),
                    desired,
                    answers,
                    own.at + 1,
                ) {
                    Err(error) => Err(error),
                    Ok(other) => Ok(
                        TwoAnswers {
                            answers: with_answer(
                                with_answer(Seq::empty(), own.response, 0),
                                other.response,
                                1,
                            ),
                            pages: other.pages,
                            at: other.at,
                        },
                    ),
                }
            },
        }
    }
}

/// Whether the memory was asked this, page by page, from one question on up to another, each in the
/// time that was left.
pub open spec fn memory_asked_between(
    question: MemoryContextRequestView,
    log: Seq<(MemoryContextRequestView, Result<MemoryContextResponseView, MemoryQueryErrorView>)>,
    from: int,
    to: int,
    lefts: Seq<u64>,
    first: int,
) -> bool {
    forall|at: int|
        from <= at < to ==> #[trigger] memory_context_asked(question, log, from, at, lefts, first)
}

/// What was asked stays asked, whatever follows.
proof fn memory_stays_asked(
    question: MemoryContextRequestView,
    log: Seq<(MemoryContextRequestView, Result<MemoryContextResponseView, MemoryQueryErrorView>)>,
    from: int,
    to: int,
    lefts: Seq<u64>,
    first: int,
    later: Seq<(MemoryContextRequestView, Result<MemoryContextResponseView, MemoryQueryErrorView>)>,
    all: Seq<u64>,
)
    requires
        memory_asked_between(question, log, from, to, lefts, first),
        0 <= from <= to <= log.len(),
        begins(log, later),
        begins(lefts, all),
    ensures
        memory_asked_between(question, later, from, to, all, first),
{
    assert forall|at: int| from <= at < to implies #[trigger] memory_context_asked(
        question,
        later,
        from,
        at,
        all,
        first,
    ) by {
        assert(memory_context_asked(question, log, from, at, lefts, first));
        assert(later[at] == log[at]);
        assert(at > from ==> later[at - 1] == log[at - 1]);
        assert(all[first + 2 * (at - from)] == lefts[first + 2 * (at - from)]);
    }
}

/// Whether the memory was asked one thing and then another, from some question on.
pub open spec fn memory_asked_twice(
    own: MemoryContextRequestView,
    linked: MemoryContextRequestView,
    log: Seq<(MemoryContextRequestView, Result<MemoryContextResponseView, MemoryQueryErrorView>)>,
    from: int,
    lefts: Seq<u64>,
    first: int,
) -> bool {
    exists|middle: int, second: int|
        #![trigger memory_asked_between(own, log, from, middle, lefts, first), memory_asked_between(
            linked,
            log,
            middle,
            log.len() as int,
            lefts,
            second,
        )]
        from <= middle <= log.len() && first < second && memory_asked_between(
            own,
            log,
            from,
            middle,
            lefts,
            first,
        ) && memory_asked_between(linked, log, middle, log.len() as int, lefts, second)
}

/// What was asked stays asked when the time goes on.
proof fn memory_stays_asked_twice(
    own: MemoryContextRequestView,
    linked: MemoryContextRequestView,
    log: Seq<(MemoryContextRequestView, Result<MemoryContextResponseView, MemoryQueryErrorView>)>,
    from: int,
    lefts: Seq<u64>,
    first: int,
    all: Seq<u64>,
)
    requires
        0 <= from,
        memory_asked_twice(own, linked, log, from, lefts, first),
        begins(lefts, all),
    ensures
        memory_asked_twice(own, linked, log, from, all, first),
{
    let (middle, second) = choose|middle: int, second: int|
        #![trigger memory_asked_between(own, log, from, middle, lefts, first), memory_asked_between(
            linked,
            log,
            middle,
            log.len() as int,
            lefts,
            second,
        )]
        from <= middle <= log.len() && first < second && memory_asked_between(
            own,
            log,
            from,
            middle,
            lefts,
            first,
        ) && memory_asked_between(linked, log, middle, log.len() as int, lefts, second);
    memory_stays_asked(own, log, from, middle, lefts, first, log, all);
    memory_stays_asked(linked, log, middle, log.len() as int, lefts, second, log, all);
}

/// Whether the repository was asked this, page by page, from one question on up to another, each in the
/// time that was left.
pub open spec fn repository_asked_between(
    question: ContextRequestView,
    log: Seq<(ContextRequestView, Result<ContextResponseView, QueryErrorCode>)>,
    from: int,
    to: int,
    lefts: Seq<u64>,
    first: int,
) -> bool {
    forall|at: int|
        from <= at < to ==> #[trigger] repository_context_asked(question, log, from, at, lefts, first)
}

/// What was asked stays asked, whatever follows.
proof fn repository_stays_asked(
    question: ContextRequestView,
    log: Seq<(ContextRequestView, Result<ContextResponseView, QueryErrorCode>)>,
    from: int,
    to: int,
    lefts: Seq<u64>,
    first: int,
    later: Seq<(ContextRequestView, Result<ContextResponseView, QueryErrorCode>)>,
    all: Seq<u64>,
)
    requires
        repository_asked_between(question, log, from, to, lefts, first),
        0 <= from <= to <= log.len(),
        begins(log, later),
        begins(lefts, all),
    ensures
        repository_asked_between(question, later, from, to, all, first),
{
    assert forall|at: int| from <= at < to implies #[trigger] repository_context_asked(
        question,
        later,
        from,
        at,
        all,
        first,
    ) by {
        assert(repository_context_asked(question, log, from, at, lefts, first));
        assert(later[at] == log[at]);
        assert(at > from ==> later[at - 1] == log[at - 1]);
        assert(all[first + 2 * (at - from)] == lefts[first + 2 * (at - from)]);
    }
}

/// Whether the repository was asked one thing and then another, from some question on.
pub open spec fn repository_asked_twice(
    own: ContextRequestView,
    linked: ContextRequestView,
    log: Seq<(ContextRequestView, Result<ContextResponseView, QueryErrorCode>)>,
    from: int,
    lefts: Seq<u64>,
    first: int,
) -> bool {
    exists|middle: int, second: int|
        #![trigger repository_asked_between(own, log, from, middle, lefts, first), repository_asked_between(
            linked,
            log,
            middle,
            log.len() as int,
            lefts,
            second,
        )]
        from <= middle <= log.len() && first < second && repository_asked_between(
            own,
            log,
            from,
            middle,
            lefts,
            first,
        ) && repository_asked_between(linked, log, middle, log.len() as int, lefts, second)
}

/// What was asked stays asked when the time goes on.
proof fn repository_stays_asked_twice(
    own: ContextRequestView,
    linked: ContextRequestView,
    log: Seq<(ContextRequestView, Result<ContextResponseView, QueryErrorCode>)>,
    from: int,
    lefts: Seq<u64>,
    first: int,
    all: Seq<u64>,
)
    requires
        0 <= from,
        repository_asked_twice(own, linked, log, from, lefts, first),
        begins(lefts, all),
    ensures
        repository_asked_twice(own, linked, log, from, all, first),
{
    let (middle, second) = choose|middle: int, second: int|
        #![trigger repository_asked_between(own, log, from, middle, lefts, first), repository_asked_between(
            linked,
            log,
            middle,
            log.len() as int,
            lefts,
            second,
        )]
        from <= middle <= log.len() && first < second && repository_asked_between(
            own,
            log,
            from,
            middle,
            lefts,
            first,
        ) && repository_asked_between(linked, log, middle, log.len() as int, lefts, second);
    repository_stays_asked(own, log, from, middle, lefts, first, log, all);
    repository_stays_asked(linked, log, middle, log.len() as int, lefts, second, log, all);
}

/// What two questions came to.
pub open spec fn heard_twice<T: DeepView>(
    result: Result<Vec<(T, u32)>, MemoryQueryError>,
    pages: int,
    at: int,
) -> Result<TwoAnswers<T::V>, MemoryQueryErrorView> {
    match result {
        Ok(answers) => Ok(TwoAnswers { answers: answers.deep_view(), pages, at }),
        Err(error) => Err(error.deep_view()),
    }
}

fn add_answer<T: DeepView>(answers: &mut Vec<(T, u32)>, answer: Option<T>, hops: u32)
    ensures
        final(answers).deep_view() == with_answer(old(answers).deep_view(), answer.deep_view(), hops),
{
    if let Some(answer) = answer {
        let ghost before = answers.deep_view();
        answers.push((answer, hops));
        assert(answers.deep_view() =~= before.push((answer.deep_view(), hops)));
    }
}

/// Asks the memory about its own seeds and then, one step less deep, about those that links lead to.
pub fn ask_memory_twice<M: MemoryQuery, D: Deadline>(
    memory: &mut M,
    request: &FederatedContextRequest,
    selector: &MemoryRevisionSelector,
    seeds: Vec<MemoryContextSeed>,
    linked: Vec<MemoryContextSeed>,
    budget: EffectiveBudget,
    freshness: &Option<MemoryFreshnessComparison>,
    desired: usize,
    deadline: &mut D,
) -> (result: Result<MemoryAnswers, MemoryQueryError>)
    ensures
        begins(old(deadline).answers(), final(deadline).answers()),
        keeps_time(*old(deadline), *final(deadline)),
        begins(old(memory).contexts(), final(memory).contexts()),
        final(memory).statuses() == old(memory).statuses(),
        final(memory).searches() == old(memory).searches(),
        memory_asked_twice(
            memory_question(
                request.deep_view().scope.project,
                selector.deep_view(),
                request.deep_view().memory_policy,
                seeds.deep_view(),
                budget,
                freshness.deep_view(),
            ),
            memory_question(
                request.deep_view().scope.project,
                selector.deep_view(),
                request.deep_view().memory_policy,
                linked.deep_view(),
                EffectiveBudget { max_depth: shallower(budget.max_depth), ..budget },
                freshness.deep_view(),
            ),
            final(memory).contexts(),
            old(memory).contexts().len() as int,
            final(deadline).answers(),
            old(deadline).answers().len() as int + 1,
        ),
        forall|
            all: Seq<u64>,
            log: Seq<(MemoryContextRequestView, Result<MemoryContextResponseView, MemoryQueryErrorView>)>,
        |
            begins(final(deadline).answers(), all) && begins(final(memory).contexts(), log)
                ==> #[trigger] memory_says_twice(
                log,
                old(memory).contexts().len() as int,
                seeds.deep_view(),
                linked.deep_view(),
                budget.max_depth,
                desired as int,
                all,
                old(deadline).answers().len() as int,
            ) == heard_twice(
                result,
                final(memory).contexts().len() as int,
                final(deadline).answers().len() as int,
            ),
{
    proof {
        reveal(memory_says_twice);
    }
    let ghost from = memory.contexts().len() as int;
    let ghost own = memory_question(
        request.deep_view().scope.project,
        selector.deep_view(),
        request.deep_view().memory_policy,
        seeds.deep_view(),
        budget,
        freshness.deep_view(),
    );
    let ghost other = memory_question(
        request.deep_view().scope.project,
        selector.deep_view(),
        request.deep_view().memory_policy,
        linked.deep_view(),
        EffectiveBudget { max_depth: shallower(budget.max_depth), ..budget },
        freshness.deep_view(),
    );
    let ghost asked_at = deadline.answers().len() as int;
    let late = deadline.expired();
    proof {
        let lefts = deadline.answers();
        assert(memory_asked_between(own, memory.contexts(), from, from, lefts, asked_at + 1));
        assert(memory_asked_between(other, memory.contexts(), from, from, lefts, asked_at + 2));
    }
    if late {
        return Err(MemoryQueryError::BudgetExceeded(MemoryTruncationReason::Duration));
    }
    let mut answers: MemoryAnswers = Vec::new();
    assert(answers.deep_view() =~= Seq::<(MemoryContextResponseView, u32)>::empty());
    let first = memory_context(
        memory,
        &request.scope.project,
        selector,
        &request.memory_policy,
        seeds,
        budget,
        freshness,
        desired,
        deadline,
    );
    let ghost asked = memory.contexts();
    let ghost lefts = deadline.answers();
    proof {
        let to = asked.len() as int;
        assert(memory_asked_between(own, asked, from, to, lefts, asked_at + 1));
        assert(memory_asked_between(other, asked, to, to, lefts, asked_at + 2));
    }
    match first {
        Ok(answer) => add_answer(&mut answers, answer, 0),
        Err(error) => {
            return Err(error);
        },
    }
    let late = deadline.expired();
    let ghost second_at = deadline.answers().len() as int;
    proof {
        let to = asked.len() as int;
        memory_stays_asked(own, asked, from, to, lefts, asked_at + 1, asked, deadline.answers());
        assert(memory_asked_between(other, asked, to, to, deadline.answers(), second_at));
    }
    if late {
        return Err(MemoryQueryError::BudgetExceeded(MemoryTruncationReason::Duration));
    }
    let second = memory_context(
        memory,
        &request.scope.project,
        selector,
        &request.memory_policy,
        linked,
        budget.with_max_depth(one_less(budget.max_depth)),
        freshness,
        desired,
        deadline,
    );
    proof {
        let all = memory.contexts();
        let to = asked.len() as int;
        assert(memory_asked_between(other, all, to, all.len() as int, deadline.answers(), second_at));
        memory_stays_asked(own, asked, from, to, lefts, asked_at + 1, all, deadline.answers());
    }
    match second {
        Ok(answer) => add_answer(&mut answers, answer, 1),
        Err(error) => {
            return Err(error);
        },
    }
    Ok(answers)
}

/// Asks the repository about its own seeds and then, one step less deep, about those that links lead
/// to.
pub fn ask_repository_twice<R: GraphQuery, D: Deadline>(
    repository: &mut R,
    request: &FederatedContextRequest,
    target: &RepositoryContextTarget,
    seeds: Vec<ContextSeed>,
    linked: Vec<ContextSeed>,
    budget: EffectiveBudget,
    desired: usize,
    deadline: &mut D,
) -> (result: Result<RepositoryAnswers, MemoryQueryError>)
    ensures
        begins(old(deadline).answers(), final(deadline).answers()),
        keeps_time(*old(deadline), *final(deadline)),
        begins(old(repository).contexts(), final(repository).contexts()),
        final(repository).statuses() == old(repository).statuses(),
        final(repository).searches() == old(repository).searches(),
        repository_asked_twice(
            repository_question(
                target.deep_view(),
                request.deep_view().repository_policy,
                seeds.deep_view(),
                budget,
            ),
            repository_question(
                target.deep_view(),
                request.deep_view().repository_policy,
                linked.deep_view(),
                EffectiveBudget { max_depth: shallower(budget.max_depth), ..budget },
            ),
            final(repository).contexts(),
            old(repository).contexts().len() as int,
            final(deadline).answers(),
            old(deadline).answers().len() as int + 1,
        ),
        forall|all: Seq<u64>, log: Seq<(ContextRequestView, Result<ContextResponseView, QueryErrorCode>)>|
            begins(final(deadline).answers(), all) && begins(final(repository).contexts(), log)
                ==> #[trigger] repository_says_twice(
                log,
                old(repository).contexts().len() as int,
                seeds.deep_view(),
                linked.deep_view(),
                budget.max_depth,
                desired as int,
                all,
                old(deadline).answers().len() as int,
            ) == heard_twice(
                result,
                final(repository).contexts().len() as int,
                final(deadline).answers().len() as int,
            ),
{
    proof {
        reveal(repository_says_twice);
    }
    let ghost from = repository.contexts().len() as int;
    let ghost own = repository_question(
        target.deep_view(),
        request.deep_view().repository_policy,
        seeds.deep_view(),
        budget,
    );
    let ghost other = repository_question(
        target.deep_view(),
        request.deep_view().repository_policy,
        linked.deep_view(),
        EffectiveBudget { max_depth: shallower(budget.max_depth), ..budget },
    );
    let ghost asked_at = deadline.answers().len() as int;
    let late = deadline.expired();
    proof {
        let lefts = deadline.answers();
        assert(repository_asked_between(own, repository.contexts(), from, from, lefts, asked_at + 1));
        assert(repository_asked_between(other, repository.contexts(), from, from, lefts, asked_at + 2));
    }
    if late {
        return Err(MemoryQueryError::BudgetExceeded(MemoryTruncationReason::Duration));
    }
    let mut answers: RepositoryAnswers = Vec::new();
    assert(answers.deep_view() =~= Seq::<(ContextResponseView, u32)>::empty());
    let first = repository_context(
        repository,
        target,
        &request.repository_policy,
        seeds,
        budget,
        desired,
        deadline,
    );
    let ghost asked = repository.contexts();
    let ghost lefts = deadline.answers();
    proof {
        let to = asked.len() as int;
        assert(repository_asked_between(own, asked, from, to, lefts, asked_at + 1));
        assert(repository_asked_between(other, asked, to, to, lefts, asked_at + 2));
    }
    match first {
        Ok(answer) => add_answer(&mut answers, answer, 0),
        Err(error) => {
            return Err(error);
        },
    }
    let late = deadline.expired();
    let ghost second_at = deadline.answers().len() as int;
    proof {
        let to = asked.len() as int;
        repository_stays_asked(own, asked, from, to, lefts, asked_at + 1, asked, deadline.answers());
        assert(repository_asked_between(other, asked, to, to, deadline.answers(), second_at));
    }
    if late {
        return Err(MemoryQueryError::BudgetExceeded(MemoryTruncationReason::Duration));
    }
    let second = repository_context(
        repository,
        target,
        &request.repository_policy,
        linked,
        budget.with_max_depth(one_less(budget.max_depth)),
        desired,
        deadline,
    );
    proof {
        let all = repository.contexts();
        let to = asked.len() as int;
        assert(repository_asked_between(other, all, to, all.len() as int, deadline.answers(), second_at));
        repository_stays_asked(own, asked, from, to, lefts, asked_at + 1, all, deadline.answers());
    }
    match second {
        Ok(answer) => add_answer(&mut answers, answer, 1),
        Err(error) => {
            return Err(error);
        },
    }
    Ok(answers)
}

/// All that the domains said to a question for context, in one.
pub struct ContextFindings {
    pub repository_state: Option<RepositoryDomainState>,
    pub memory_state: Option<MemoryDomainState>,
    pub repository: RepositoryAnswers,
    pub memory: MemoryAnswers,
    pub links: Vec<MemoryRelationship>,
    pub diagnostics: Vec<MemoryDiagnostic>,
    pub links_truncated: bool,
    pub links_late: bool,
}

/// The model of [`ContextFindings`].
pub struct ContextFindingsView {
    pub repository_state: Option<RepositoryDomainStateView>,
    pub memory_state: Option<MemoryDomainStateView>,
    pub repository: Seq<(ContextResponseView, u32)>,
    pub memory: Seq<(MemoryContextResponseView, u32)>,
    pub links: Seq<MemoryRelationshipView>,
    pub diagnostics: Seq<MemoryDiagnosticView>,
    pub links_truncated: bool,
    pub links_late: bool,
}

impl DeepView for ContextFindings {
    type V = ContextFindingsView;

    open spec fn deep_view(&self) -> ContextFindingsView {
        ContextFindingsView {
            repository_state: self.repository_state.deep_view(),
            memory_state: self.memory_state.deep_view(),
            repository: self.repository.deep_view(),
            memory: self.memory.deep_view(),
            links: self.links.deep_view(),
            diagnostics: self.diagnostics.deep_view(),
            links_truncated: self.links_truncated,
            links_late: self.links_late,
        }
    }
}

/// What the repository alone says, and how many answers of the deadline are known then.
#[verifier::opaque]
pub open spec fn repository_alone(
    request: FederatedContextRequestView,
    budget: EffectiveBudget,
    desired: int,
    all: Said,
    from: Said,
    answers: Seq<u64>,
    at: int,
) -> Result<(ContextFindingsView, int), MemoryQueryErrorView> {
    if !all_repository(request.seeds) {
        Err(backend("context.domainmismatch"@))
    } else if is_up(answers[at]) {
        Err(too_late())
    } else {
        match repository_says(
            all.repository_contexts,
            from.repository_contexts.len() as int,
            repository_seeds(request.seeds),
            budget.max_depth,
            desired,
            answers,
            at + 1,
        ) {
            Err(error) => Err(error),
            Ok(asked) => match asked.response {
                None => Err(backend("context.seeds"@)),
                Some(response) => Ok(
                    (
                        ContextFindingsView {
                            repository_state: Some(contextual_repository(response)),
                            memory_state: None,
                            repository: Seq::empty().push((response, 0u32)),
                            memory: Seq::empty(),
                            links: Seq::empty(),
                            diagnostics: Seq::empty(),
                            links_truncated: false,
                            links_late: false,
                        },
                        asked.at,
                    ),
                ),
            },
        }
    }
}

/// What the memory alone says, and how many answers of the deadline are known then.
#[verifier::opaque]
pub open spec fn memory_alone(
    request: FederatedContextRequestView,
    budget: EffectiveBudget,
    desired: int,
    all: Said,
    from: Said,
    answers: Seq<u64>,
    at: int,
) -> Result<(ContextFindingsView, int), MemoryQueryErrorView> {
    if !all_memory(request.seeds) {
        Err(backend("context.domainmismatch"@))
    } else if is_up(answers[at]) {
        Err(too_late())
    } else {
        match memory_says(
            all.memory_contexts,
            from.memory_contexts.len() as int,
            memory_seeds(request.seeds),
            budget.max_depth,
            desired,
            answers,
            at + 1,
        ) {
            Err(error) => Err(error),
            Ok(asked) => match asked.response {
                None => Err(backend("context.seeds"@)),
                Some(response) => Ok(
                    (
                        ContextFindingsView {
                            repository_state: None,
                            memory_state: Some(contextual_memory(response)),
                            repository: Seq::empty(),
                            memory: Seq::empty().push((response, 0u32)),
                            links: Seq::empty(),
                            diagnostics: Seq::empty(),
                            links_truncated: false,
                            links_late: false,
                        },
                        asked.at,
                    ),
                ),
            },
        }
    }
}

/// What both domains say, each about its own seeds and about those that links lead to, and how many
/// answers of the deadline are known then.
#[verifier::opaque]
pub open spec fn both_domains(
    request: FederatedContextRequestView,
    budget: EffectiveBudget,
    desired: int,
    all: Said,
    from: Said,
    answers: Seq<u64>,
    at: int,
) -> Result<(ContextFindingsView, int), MemoryQueryErrorView> {
    match both_known(budget, all, from, answers, at) {
        Err(error) => Err(error),
        Ok(known) => {
            let links = known.links.relationships;
            let snapshot_id = known.repository.snapshot_id;
            let crossed_in = links_in(
                repository_seeds(request.seeds),
                links,
                request.memory_policy,
                snapshot_id,
            );
            match memory_says_twice(
                all.memory_contexts,
                from.memory_contexts.len() as int,
                memory_seeds(request.seeds),
                sources_of(crossed_in),
                budget.max_depth,
                desired,
                answers,
                known.at,
            ) {
                Err(error) => Err(error),
                Ok(memory) => {
                    let ways = ways_out(memory.answers, links, request.memory_policy, snapshot_id);
                    match repository_says_twice(
                        all.repository_contexts,
                        from.repository_contexts.len() as int,
                        repository_seeds(request.seeds),
                        ends_of(ways),
                        budget.max_depth,
                        desired,
                        answers,
                        memory.at,
                    ) {
                        Err(error) => Err(error),
                        Ok(repository) => Ok(
                            (
                                ContextFindingsView {
                                    repository_state: Some(
                                        if repository.answers.len() > 0 {
                                            contextual_repository(repository.answers[0].0)
                                        } else {
                                            known_repository(known.repository)
                                        },
                                    ),
                                    memory_state: Some(
                                        if memory.answers.len() > 0 {
                                            contextual_memory(memory.answers[0].0)
                                        } else {
                                            known_memory(known.memory)
                                        },
                                    ),
                                    repository: repository.answers,
                                    memory: memory.answers,
                                    links: distinct_keys::<MemoryRelationship>(
                                        sorted::<MemoryRelationship>(crossed_in + links_of(ways)),
                                    ),
                                    diagnostics: known.links.diagnostics,
                                    links_truncated: known.links.truncated,
                                    links_late: known.links.late,
                                },
                                repository.at,
                            ),
                        ),
                    }
                },
            }
        },
    }
}

/// What the domains of a request's target say, and how many answers of the deadline are known then.
pub open spec fn context_findings(
    request: FederatedContextRequestView,
    budget: EffectiveBudget,
    desired: int,
    all: Said,
    from: Said,
    answers: Seq<u64>,
    at: int,
) -> Result<(ContextFindingsView, int), MemoryQueryErrorView> {
    match request.scope.target {
        FederatedTargetView::Repository { .. } => repository_alone(
            request,
            budget,
            desired,
            all,
            from,
            answers,
            at,
        ),
        FederatedTargetView::Memory { .. } => memory_alone(
            request,
            budget,
            desired,
            all,
            from,
            answers,
            at,
        ),
        FederatedTargetView::All { .. } => both_domains(
            request,
            budget,
            desired,
            all,
            from,
            answers,
            at,
        ),
    }
}

/// The seeds of the memory that links lead to from the seeds of the repository.
pub open spec fn linked_memory(
    request: FederatedContextRequestView,
    all: Said,
    from: Said,
) -> Seq<MemoryContextSeedView> {
    sources_of(
        links_in(
            repository_seeds(request.seeds),
            links_said(all, from),
            request.memory_policy,
            snapshot_said(all, from),
        ),
    )
}

/// Whether the memory was asked about its own seeds and then, one step less deep, about those that
/// links lead to.
pub open spec fn memory_asked_about(
    request: FederatedContextRequestView,
    selector: MemoryRevisionSelectorView,
    budget: EffectiveBudget,
    freshness: Option<MemoryFreshnessComparisonView>,
    all: Said,
    from: Said,
    lefts: Seq<u64>,
    at: int,
) -> bool {
    memory_asked_twice(
        memory_question(
            request.scope.project,
            selector,
            request.memory_policy,
            memory_seeds(request.seeds),
            budget,
            freshness,
        ),
        memory_question(
            request.scope.project,
            selector,
            request.memory_policy,
            linked_memory(request, all, from),
            EffectiveBudget { max_depth: shallower(budget.max_depth), ..budget },
            freshness,
        ),
        all.memory_contexts,
        from.memory_contexts.len() as int,
        lefts,
        at + 1,
    )
}

/// Whether the repository was asked about its own seeds and then, one step less deep, about those
/// that links lead to from what the memory said. Where the memory said nothing in time, the
/// repository was not asked.
pub open spec fn repository_asked_about(
    request: FederatedContextRequestView,
    target: RepositoryContextTargetView,
    budget: EffectiveBudget,
    desired: int,
    all: Said,
    from: Said,
    lefts: Seq<u64>,
    at: int,
) -> bool {
    all.repository_contexts.len() == from.repository_contexts.len() || repository_asked_after(
        request,
        target,
        budget,
        memory_says_twice(
            all.memory_contexts,
            from.memory_contexts.len() as int,
            memory_seeds(request.seeds),
            linked_memory(request, all, from),
            budget.max_depth,
            desired,
            lefts,
            at,
        ),
        all,
        from,
        lefts,
    )
}

/// Whether the repository was asked about its own seeds and then about those that links lead to from
/// this answer of the memory.
pub open spec fn repository_asked_after(
    request: FederatedContextRequestView,
    target: RepositoryContextTargetView,
    budget: EffectiveBudget,
    memory: Result<TwoAnswers<MemoryContextResponseView>, MemoryQueryErrorView>,
    all: Said,
    from: Said,
    lefts: Seq<u64>,
) -> bool {
    memory is Ok && repository_asked_twice(
        repository_question(
            target,
            request.repository_policy,
            repository_seeds(request.seeds),
            budget,
        ),
        repository_question(
            target,
            request.repository_policy,
            ends_of(
                ways_out(
                    memory->Ok_0.answers,
                    links_said(all, from),
                    request.memory_policy,
                    snapshot_said(all, from),
                ),
            ),
            EffectiveBudget { max_depth: shallower(budget.max_depth), ..budget },
        ),
        all.repository_contexts,
        from.repository_contexts.len() as int,
        lefts,
        memory->Ok_0.at + 1,
    )
}

/// Whether the domains were asked as a request says: each domain of its target, and no other, and none
/// where a seed is of another domain. Where both are asked, each is also asked about what the exact
/// links lead to. All is asked in the time that was left for it.
pub open spec fn asked_for_context(
    request: FederatedContextRequestView,
    budget: EffectiveBudget,
    freshness: Option<MemoryFreshnessComparisonView>,
    desired: int,
    all: Said,
    from: Said,
    lefts: Seq<u64>,
    at: int,
) -> bool {
    match request.scope.target {
        FederatedTargetView::Repository { repository: target } => {
            &&& !all_repository(request.seeds) ==> all == from
            &&& all == (Said { repository_contexts: all.repository_contexts, ..from })
            &&& repository_asked_between(
                repository_question(
                    target,
                    request.repository_policy,
                    repository_seeds(request.seeds),
                    budget,
                ),
                all.repository_contexts,
                from.repository_contexts.len() as int,
                all.repository_contexts.len() as int,
                lefts,
                at + 1,
            )
        },
        FederatedTargetView::Memory { memory: selector } => {
            &&& !all_memory(request.seeds) ==> all == from
            &&& all == (Said { memory_contexts: all.memory_contexts, ..from })
            &&& memory_asked_between(
                memory_question(
                    request.scope.project,
                    selector,
                    request.memory_policy,
                    memory_seeds(request.seeds),
                    budget,
                    freshness,
                ),
                all.memory_contexts,
                from.memory_contexts.len() as int,
                all.memory_contexts.len() as int,
                lefts,
                at + 1,
            )
        },
        FederatedTargetView::All { repository: target, memory: selector } => {
            &&& status_scopes_are(
                all.repository_statuses,
                from.repository_statuses.len() as int,
                repository_status_scope(target, budget.within(lefts[at])),
            )
            &&& status_requests_are(
                all.memory_statuses,
                from.memory_statuses.len() as int,
                memory_status_request(request, selector, budget.within(lefts[at + 1]), freshness),
            )
            &&& links_asked(target, budget, all, from, lefts[at + 2])
            &&& memory_asked_about(request, selector, budget, freshness, all, from, lefts, at + 4)
            &&& repository_asked_about(request, target, budget, desired, all, from, lefts, at + 4)
        },
    }
}

/// Whoever was not asked again was asked as it should be.
proof fn nothing_asked_is_asked(
    own: MemoryContextRequestView,
    linked: MemoryContextRequestView,
    log: Seq<(MemoryContextRequestView, Result<MemoryContextResponseView, MemoryQueryErrorView>)>,
    lefts: Seq<u64>,
    first: int,
)
    ensures
        memory_asked_twice(own, linked, log, log.len() as int, lefts, first),
{
    let end = log.len() as int;
    assert(memory_asked_between(own, log, end, end, lefts, first));
    assert(memory_asked_between(linked, log, end, end, lefts, first + 1));
}

/// What collecting came to.
pub open spec fn collected(result: Result<ContextFindings, MemoryQueryError>, at: int) -> Result<
    (ContextFindingsView, int),
    MemoryQueryErrorView,
> {
    match result {
        Ok(findings) => Ok((findings.deep_view(), at)),
        Err(error) => Err(error.deep_view()),
    }
}

fn nothing() -> (findings: ContextFindings)
    ensures
        findings.deep_view() == (ContextFindingsView {
            repository_state: None,
            memory_state: None,
            repository: Seq::empty(),
            memory: Seq::empty(),
            links: Seq::empty(),
            diagnostics: Seq::empty(),
            links_truncated: false,
            links_late: false,
        }),
{
    let findings = ContextFindings {
        repository_state: None,
        memory_state: None,
        repository: Vec::new(),
        memory: Vec::new(),
        links: Vec::new(),
        diagnostics: Vec::new(),
        links_truncated: false,
        links_late: false,
    };
    assert(findings.repository.deep_view() =~= Seq::<(ContextResponseView, u32)>::empty());
    assert(findings.memory.deep_view() =~= Seq::<(MemoryContextResponseView, u32)>::empty());
    assert(findings.links.deep_view() =~= Seq::<MemoryRelationshipView>::empty());
    assert(findings.diagnostics.deep_view() =~= Seq::<MemoryDiagnosticView>::empty());
    findings
}

fn collect_repository<R: GraphQuery, D: Deadline>(
    repository: &mut R,
    request: &FederatedContextRequest,
    target: &RepositoryContextTarget,
    budget: EffectiveBudget,
    desired: usize,
    deadline: &mut D,
) -> (result: Result<ContextFindings, MemoryQueryError>)
    ensures
        begins(old(deadline).answers(), final(deadline).answers()),
        keeps_time(*old(deadline), *final(deadline)),
        begins(old(repository).contexts(), final(repository).contexts()),
        final(repository).statuses() == old(repository).statuses(),
        final(repository).searches() == old(repository).searches(),
        !all_repository(request.deep_view().seeds) ==> final(repository).contexts() == old(repository).contexts(),
        forall|all: Seq<u64>| #[trigger]
            begins(final(deadline).answers(), all) ==> repository_asked_between(
                repository_question(
                    target.deep_view(),
                    request.deep_view().repository_policy,
                    repository_seeds(request.deep_view().seeds),
                    budget,
                ),
                final(repository).contexts(),
                old(repository).contexts().len() as int,
                final(repository).contexts().len() as int,
                all,
                old(deadline).answers().len() as int + 1,
            ),
        forall|all: Seq<u64>, later: Said, from: Said|
            begins(final(deadline).answers(), all) && begins(
                final(repository).contexts(),
                later.repository_contexts,
            ) && from.repository_contexts == old(repository).contexts() ==> #[trigger] repository_alone(
                request.deep_view(),
                budget,
                desired as int,
                later,
                from,
                all,
                old(deadline).answers().len() as int,
            ) == collected(result, final(deadline).answers().len() as int),
{
    proof {
        reveal(repository_alone);
        reveal_strlit("context.seeds");
    }
    let seeds = match repository_only_seeds(&request.seeds) {
        Ok(seeds) => seeds,
        Err(error) => {
            return Err(error);
        },
    };
    if deadline.expired() {
        return Err(MemoryQueryError::BudgetExceeded(MemoryTruncationReason::Duration));
    }
    let ghost asked_at = deadline.answers().len() as int;
    let ghost first = repository.contexts().len() as int;
    let answer = repository_context(
        repository,
        target,
        &request.repository_policy,
        seeds,
        budget,
        desired,
        deadline,
    );
    proof {
        let question = repository_question(
            target.deep_view(),
            request.deep_view().repository_policy,
            repository_seeds(request.deep_view().seeds),
            budget,
        );
        let log = repository.contexts();
        let lefts = deadline.answers();
        let to = log.len() as int;
        assert(repository_asked_between(question, log, first, to, lefts, asked_at));
        assert forall|all: Seq<u64>| #[trigger] begins(lefts, all) implies repository_asked_between(
            question,
            log,
            first,
            to,
            all,
            asked_at,
        ) by {
            repository_stays_asked(question, log, first, to, lefts, asked_at, log, all);
        }
    }
    let response = match answer {
        Ok(Some(response)) => response,
        Ok(None) => {
            return Err(backend_error("context.seeds"));
        },
        Err(error) => {
            return Err(error);
        },
    };
    let mut findings = nothing();
    findings.repository_state = Some(repository_state_from_context(&response));
    findings.repository.push((response, 0));
    assert(findings.repository.deep_view() =~= Seq::empty().push((response.deep_view(), 0u32)));
    Ok(findings)
}

fn collect_memory<M: MemoryQuery, D: Deadline>(
    memory: &mut M,
    request: &FederatedContextRequest,
    selector: &MemoryRevisionSelector,
    budget: EffectiveBudget,
    freshness: &Option<MemoryFreshnessComparison>,
    desired: usize,
    deadline: &mut D,
) -> (result: Result<ContextFindings, MemoryQueryError>)
    ensures
        begins(old(deadline).answers(), final(deadline).answers()),
        keeps_time(*old(deadline), *final(deadline)),
        begins(old(memory).contexts(), final(memory).contexts()),
        final(memory).statuses() == old(memory).statuses(),
        final(memory).searches() == old(memory).searches(),
        !all_memory(request.deep_view().seeds) ==> final(memory).contexts() == old(memory).contexts(),
        forall|all: Seq<u64>| #[trigger]
            begins(final(deadline).answers(), all) ==> memory_asked_between(
                memory_question(
                    request.deep_view().scope.project,
                    selector.deep_view(),
                    request.deep_view().memory_policy,
                    memory_seeds(request.deep_view().seeds),
                    budget,
                    freshness.deep_view(),
                ),
                final(memory).contexts(),
                old(memory).contexts().len() as int,
                final(memory).contexts().len() as int,
                all,
                old(deadline).answers().len() as int + 1,
            ),
        forall|all: Seq<u64>, later: Said, from: Said|
            begins(final(deadline).answers(), all) && begins(final(memory).contexts(), later.memory_contexts)
                && from.memory_contexts == old(memory).contexts() ==> #[trigger] memory_alone(
                request.deep_view(),
                budget,
                desired as int,
                later,
                from,
                all,
                old(deadline).answers().len() as int,
            ) == collected(result, final(deadline).answers().len() as int),
{
    proof {
        reveal(memory_alone);
        reveal_strlit("context.seeds");
    }
    let seeds = match memory_only_seeds(&request.seeds) {
        Ok(seeds) => seeds,
        Err(error) => {
            return Err(error);
        },
    };
    if deadline.expired() {
        return Err(MemoryQueryError::BudgetExceeded(MemoryTruncationReason::Duration));
    }
    let ghost asked_at = deadline.answers().len() as int;
    let ghost first = memory.contexts().len() as int;
    let answer = memory_context(
        memory,
        &request.scope.project,
        selector,
        &request.memory_policy,
        seeds,
        budget,
        freshness,
        desired,
        deadline,
    );
    proof {
        let question = memory_question(
            request.deep_view().scope.project,
            selector.deep_view(),
            request.deep_view().memory_policy,
            memory_seeds(request.deep_view().seeds),
            budget,
            freshness.deep_view(),
        );
        let log = memory.contexts();
        let lefts = deadline.answers();
        let to = log.len() as int;
        assert(memory_asked_between(question, log, first, to, lefts, asked_at));
        assert forall|all: Seq<u64>| #[trigger] begins(lefts, all) implies memory_asked_between(
            question,
            log,
            first,
            to,
            all,
            asked_at,
        ) by {
            memory_stays_asked(question, log, first, to, lefts, asked_at, log, all);
        }
    }
    let response = match answer {
        Ok(Some(response)) => response,
        Ok(None) => {
            return Err(backend_error("context.seeds"));
        },
        Err(error) => {
            return Err(error);
        },
    };
    let mut findings = nothing();
    findings.memory_state = Some(memory_state_from_context(&response));
    findings.memory.push((response, 0));
    assert(findings.memory.deep_view() =~= Seq::empty().push((response.deep_view(), 0u32)));
    Ok(findings)
}

fn collect_both<R: GraphQuery, M: MemoryQuery, L: MemoryLinkStore, D: Deadline>(
    repository: &mut R,
    memory: &mut M,
    links: &mut L,
    request: &FederatedContextRequest,
    target: &RepositoryContextTarget,
    selector: &MemoryRevisionSelector,
    budget: EffectiveBudget,
    freshness: &Option<MemoryFreshnessComparison>,
    desired: usize,
    deadline: &mut D,
) -> (result: Result<ContextFindings, MemoryQueryError>)
    ensures
        begins(old(deadline).answers(), final(deadline).answers()),
        keeps_time(*old(deadline), *final(deadline)),
        said_first(
            said(*old(repository), *old(memory), *old(links)),
            said(*final(repository), *final(memory), *final(links)),
        ),
        final(repository).searches() == old(repository).searches(),
        final(memory).searches() == old(memory).searches(),
        request.deep_view().scope.target == (FederatedTargetView::All {
            repository: target.deep_view(),
            memory: selector.deep_view(),
        }) ==> forall|all: Seq<u64>| #[trigger]
            begins(final(deadline).answers(), all) ==> asked_for_context(
                request.deep_view(),
                budget,
                freshness.deep_view(),
                desired as int,
                said(*final(repository), *final(memory), *final(links)),
                said(*old(repository), *old(memory), *old(links)),
                all,
                old(deadline).answers().len() as int,
            ),
        forall|all: Seq<u64>|
            begins(final(deadline).answers(), all) ==> #[trigger] both_domains(
                request.deep_view(),
                budget,
                desired as int,
                said(*final(repository), *final(memory), *final(links)),
                said(*old(repository), *old(memory), *old(links)),
                all,
                old(deadline).answers().len() as int,
            ) == collected(result, final(deadline).answers().len() as int),
{
    proof {
        reveal(both_domains);
        let asked = memory.contexts();
        assert forall|
            own: MemoryContextRequestView,
            linked: MemoryContextRequestView,
            lefts: Seq<u64>,
            first: int,
        | #[trigger] memory_asked_twice(own, linked, asked, asked.len() as int, lefts, first) by {
            nothing_asked_is_asked(own, linked, asked, lefts, first);
        }
    }
    let ghost from = said(*repository, *memory, *links);
    let known = match learn(
        repository,
        memory,
        links,
        request,
        target,
        selector,
        budget,
        freshness,
        deadline,
    ) {
        Ok(known) => known,
        Err(error) => {
            return Err(error);
        },
    };
    let (own_repository, own_memory) = split_all_seeds(&request.seeds);
    let (linked, crossed_in) = cross_in(
        &own_repository,
        &known.links.relationships,
        &request.memory_policy,
        &known.repository.snapshot_id,
    );
    let ghost learned = deadline.answers().len() as int;
    let ghost own_question = memory_question(
        request.deep_view().scope.project,
        selector.deep_view(),
        request.deep_view().memory_policy,
        own_memory.deep_view(),
        budget,
        freshness.deep_view(),
    );
    let ghost linked_question = memory_question(
        request.deep_view().scope.project,
        selector.deep_view(),
        request.deep_view().memory_policy,
        linked.deep_view(),
        EffectiveBudget { max_depth: shallower(budget.max_depth), ..budget },
        freshness.deep_view(),
    );
    let memory_result = ask_memory_twice(
        memory,
        request,
        selector,
        own_memory,
        linked,
        budget,
        freshness,
        desired,
        deadline,
    );
    let ghost heard = deadline.answers();
    proof {
        assert forall|all: Seq<u64>| #[trigger] begins(heard, all) implies memory_asked_twice(
            own_question,
            linked_question,
            memory.contexts(),
            from.memory_contexts.len() as int,
            all,
            learned + 1,
        ) by {
            memory_stays_asked_twice(
                own_question,
                linked_question,
                memory.contexts(),
                from.memory_contexts.len() as int,
                heard,
                learned + 1,
                all,
            );
        }
    }
    let memory_answers = match memory_result {
        Ok(answers) => answers,
        Err(error) => {
            return Err(error);
        },
    };
    let (linked_repository, crossed_out) = cross_out(
        &memory_answers,
        &known.links.relationships,
        &request.memory_policy,
        &known.repository.snapshot_id,
    );
    let mut crossed = crossed_in;
    extend(&mut crossed, &crossed_out);
    let ordered = sort(crossed);
    let cross_links = dedup_keys(&ordered);
    let ghost own_question = repository_question(
        target.deep_view(),
        request.deep_view().repository_policy,
        own_repository.deep_view(),
        budget,
    );
    let ghost linked_question = repository_question(
        target.deep_view(),
        request.deep_view().repository_policy,
        linked_repository.deep_view(),
        EffectiveBudget { max_depth: shallower(budget.max_depth), ..budget },
    );
    let repository_result = ask_repository_twice(
        repository,
        request,
        target,
        own_repository,
        linked_repository,
        budget,
        desired,
        deadline,
    );
    proof {
        let said_now = said(*repository, *memory, *links);
        assert forall|all: Seq<u64>| #[trigger] begins(deadline.answers(), all) implies begins(heard, all)
            && repository_asked_after(
            request.deep_view(),
            target.deep_view(),
            budget,
            memory_says_twice(
                said_now.memory_contexts,
                from.memory_contexts.len() as int,
                memory_seeds(request.deep_view().seeds),
                linked_memory(request.deep_view(), said_now, from),
                budget.max_depth,
                desired as int,
                all,
                learned,
            ),
            said_now,
            from,
            all,
        ) by {
            assert forall|i: int| 0 <= i < heard.len() implies #[trigger] all[i] == heard[i] by {
                assert(all[i] == deadline.answers()[i]);
            }
            assert(memory_says_twice(
                said_now.memory_contexts,
                from.memory_contexts.len() as int,
                memory_seeds(request.deep_view().seeds),
                linked_memory(request.deep_view(), said_now, from),
                budget.max_depth,
                desired as int,
                all,
                learned,
            ) == heard_twice(
                Ok::<_, MemoryQueryError>(memory_answers),
                said_now.memory_contexts.len() as int,
                heard.len() as int,
            ));
            repository_stays_asked_twice(
                own_question,
                linked_question,
                repository.contexts(),
                from.repository_contexts.len() as int,
                deadline.answers(),
                heard.len() as int + 1,
                all,
            );
        }
    }
    let repository_answers = match repository_result {
        Ok(answers) => answers,
        Err(error) => {
            return Err(error);
        },
    };
    let repository_state = if repository_answers.len() > 0 {
        repository_state_from_context(&repository_answers[0].0)
    } else {
        repository_state_from_status(&known.repository)
    };
    let memory_state = if memory_answers.len() > 0 {
        memory_state_from_context(&memory_answers[0].0)
    } else {
        memory_state_from_status(&known.memory)
    };
    Ok(
        ContextFindings {
            repository_state: Some(repository_state),
            memory_state: Some(memory_state),
            repository: repository_answers,
            memory: memory_answers,
            links: cross_links,
            diagnostics: known.links.diagnostics,
            links_truncated: known.links.truncated,
            links_late: known.links.late,
        },
    )
}

/// Collects what the domains of a request's target say.
pub fn collect<R: GraphQuery, M: MemoryQuery, L: MemoryLinkStore, D: Deadline>(
    repository: &mut R,
    memory: &mut M,
    links: &mut L,
    request: &FederatedContextRequest,
    budget: EffectiveBudget,
    freshness: &Option<MemoryFreshnessComparison>,
    desired: usize,
    deadline: &mut D,
) -> (result: Result<ContextFindings, MemoryQueryError>)
    ensures
        begins(old(deadline).answers(), final(deadline).answers()),
        keeps_time(*old(deadline), *final(deadline)),
        said_first(
            said(*old(repository), *old(memory), *old(links)),
            said(*final(repository), *final(memory), *final(links)),
        ),
        final(repository).searches() == old(repository).searches(),
        final(memory).searches() == old(memory).searches(),
        forall|all: Seq<u64>| #[trigger]
            begins(final(deadline).answers(), all) ==> asked_for_context(
                request.deep_view(),
                budget,
                freshness.deep_view(),
                desired as int,
                said(*final(repository), *final(memory), *final(links)),
                said(*old(repository), *old(memory), *old(links)),
                all,
                old(deadline).answers().len() as int,
            ),
        forall|all: Seq<u64>|
            begins(final(deadline).answers(), all) ==> #[trigger] context_findings(
                request.deep_view(),
                budget,
                desired as int,
                said(*final(repository), *final(memory), *final(links)),
                said(*old(repository), *old(memory), *old(links)),
                all,
                old(deadline).answers().len() as int,
            ) == collected(result, final(deadline).answers().len() as int),
{
    match &request.scope.target {
        FederatedTarget::Repository { repository: target } => collect_repository(
            repository,
            request,
            target,
            budget,
            desired,
            deadline,
        ),
        FederatedTarget::Memory { memory: selector } => collect_memory(
            memory,
            request,
            selector,
            budget,
            freshness,
            desired,
            deadline,
        ),
        FederatedTarget::All { repository: target, memory: selector } => collect_both(
            repository,
            memory,
            links,
            request,
            target,
            selector,
            budget,
            freshness,
            desired,
            deadline,
        ),
    }
}

}
