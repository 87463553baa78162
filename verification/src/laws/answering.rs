//! What an answer says of the revision, of its age and of itself.
use vstd::prelude::*;
use crate::budget::{effective, saturated, zero_limit, EffectiveBudget};
use crate::cursor::{federated_page_model, page_model, truncation};
use crate::deadline::{is_up, left_after, ms_of, shorter};
use crate::diagnostics::MemoryDiagnosticView;
use crate::domain::{MemoryBuildView, MemoryRevisionView, PublishedMemoryRevisionView};
use crate::laws::lists::push_holds;
use crate::query::{
    MemoryAvailability, MemoryFreshness, MemoryFreshnessComparisonView, MemoryQueryErrorView, MemoryQueryBudgetView,
    MemoryQueryScopeView, MemoryRetrievalAction, MemoryRevisionSelectorView, MemoryStatusRequestView,
    MemoryTruncationReason,
};
use crate::repository::QueryLimitsConfigView;
use crate::scope::{diagnostics_within, freshness_of, read_failure, resolved, selected, ReadFailure};
use crate::status::{available, not_built};

verus! {

/// A revision is fresh exactly where the sources, the policy and the extractors are those that it was
/// made of; where it is not, the reasons say which of the three changed, and no other. Without a
/// comparison nothing is known, and the reason says so.
pub proof fn freshness_names_what_changed(
    revision: MemoryRevisionView,
    comparison: Option<MemoryFreshnessComparisonView>,
)
    ensures
        comparison is None ==> {
            let found = freshness_of(revision, comparison);
            &&& found.freshness == MemoryFreshness::Unknown
            &&& found.compared_source_set_digest is None
            &&& found.reason_codes == seq!["freshness.notcompared"@]
        },
        comparison matches Some(compared) ==> {
            let found = freshness_of(revision, comparison);
            let sources = compared.source_set_digest != revision.source_set_digest;
            let policy = compared.policy_digest != revision.policy_digest;
            let extractors = compared.extractor_set_digest != revision.extractor_set_digest;
            &&& found.freshness == if sources || policy || extractors {
                MemoryFreshness::Stale
            } else {
                MemoryFreshness::Fresh
            }
            &&& found.compared_source_set_digest == Some(compared.source_set_digest)
            &&& found.reason_codes.contains("freshness.sourceschanged"@) == sources
            &&& found.reason_codes.contains("freshness.policychanged"@) == policy
            &&& found.reason_codes.contains("freshness.extractorschanged"@) == extractors
            &&& found.reason_codes.len() == (if sources {
                1int
            } else {
                0
            }) + (if policy {
                1int
            } else {
                0
            }) + (if extractors {
                1int
            } else {
                0
            })
        },
{
    reveal_strlit("freshness.sourceschanged");
    reveal_strlit("freshness.policychanged");
    reveal_strlit("freshness.extractorschanged");
    let one = "freshness.sourceschanged"@;
    let two = "freshness.policychanged"@;
    let three = "freshness.extractorschanged"@;
    assert(one[10] == 's' && two[10] == 'p' && three[10] == 'e');
    assert(Seq::empty().push("freshness.notcompared"@) =~= seq!["freshness.notcompared"@]);
    if let Some(compared) = comparison {
        let none = Seq::<Seq<char>>::empty();
        let sources = if compared.source_set_digest != revision.source_set_digest {
            none.push(one)
        } else {
            none
        };
        let policy = if compared.policy_digest != revision.policy_digest {
            sources.push(two)
        } else {
            sources
        };
        assert(!none.contains(one) && !none.contains(two) && !none.contains(three));
        push_holds(none, one, one);
        push_holds(none, one, two);
        push_holds(none, one, three);
        push_holds(sources, two, one);
        push_holds(sources, two, two);
        push_holds(sources, two, three);
        push_holds(policy, three, one);
        push_holds(policy, three, two);
        push_holds(policy, three, three);
    }
}

/// A revision answers for its own project alone, in the version of the questions that is known, and
/// within both budgets, the asked one and the configured one.
pub proof fn revisions_answer_for_their_project(
    scope: MemoryQueryScopeView,
    limits: QueryLimitsConfigView,
    revision: Result<Option<MemoryRevisionView>, MemoryQueryErrorView>,
)
    ensures
        resolved(scope, limits, revision) is Ok == (scope.wire_version == 1 && revision is Ok && revision->Ok_0 is Some
            && revision->Ok_0->0.project == scope.project),
        scope.wire_version != 1 ==> resolved(scope, limits, revision) == Err::<
            crate::scope::ResolvedScopeView,
            MemoryQueryErrorView,
        >(MemoryQueryErrorView::Backend("query.wireversion"@)),
        scope.wire_version == 1 && (revision matches Ok(found) && (found is None || found->0.project != scope.project))
            ==> resolved(scope, limits, revision) == Err::<crate::scope::ResolvedScopeView, MemoryQueryErrorView>(
            MemoryQueryErrorView::RevisionNotFound,
        ),
        resolved(scope, limits, revision) matches Ok(found) ==> {
            &&& Some(found.revision) == revision->Ok_0
            &&& found.freshness == freshness_of(found.revision, scope.freshness_comparison)
            &&& found.budget == effective(scope.budget, limits)
        },
{
}

/// A question for what is published goes to the published revision, and there has to be one; a question
/// for a revision goes to it, whatever is published.
pub proof fn questions_go_to_the_revision_they_select(
    scope: MemoryQueryScopeView,
    view: Result<Option<PublishedMemoryRevisionView>, MemoryQueryErrorView>,
)
    requires
        scope.wire_version == 1,
    ensures
        scope.revision matches MemoryRevisionSelectorView::Revision(id) ==> selected(scope, view) == Ok::<
            Seq<char>,
            MemoryQueryErrorView,
        >(id),
        scope.revision is Published ==> (view matches Ok(Some(published)) ==> selected(scope, view) == Ok::<
            Seq<char>,
            MemoryQueryErrorView,
        >(published.revision_id)),
        scope.revision is Published && view is Ok && view->Ok_0 is None ==> selected(scope, view) == Err::<
            Seq<char>,
            MemoryQueryErrorView,
        >(MemoryQueryErrorView::Unavailable),
{
}

/// Each limit in force is the smaller of the two that are given for it.
pub proof fn budgets_are_the_smaller_ones(requested: MemoryQueryBudgetView, limits: QueryLimitsConfigView)
    ensures
        ({
            let budget = effective(requested, limits);
            &&& (budget.max_results == requested.max_results && requested.max_results <= limits.max_results) || (
            budget.max_results == limits.max_results && limits.max_results <= requested.max_results)
            &&& (budget.max_bytes == requested.max_bytes && requested.max_bytes <= limits.max_bytes) || (
            budget.max_bytes == limits.max_bytes && limits.max_bytes <= requested.max_bytes)
            &&& (budget.max_snippet_bytes == requested.max_snippet_bytes && requested.max_snippet_bytes
                <= limits.max_snippet_bytes) || (budget.max_snippet_bytes == limits.max_snippet_bytes
                && limits.max_snippet_bytes <= requested.max_snippet_bytes)
            &&& (budget.max_depth == requested.max_depth && requested.max_depth <= limits.max_depth) || (
            budget.max_depth == limits.max_depth && limits.max_depth <= requested.max_depth)
            &&& (budget.max_duration_ms == requested.max_duration_ms && requested.max_duration_ms
                <= limits.max_duration_ms) || (budget.max_duration_ms == limits.max_duration_ms
                && limits.max_duration_ms <= requested.max_duration_ms)
            &&& (budget.max_diagnostics == requested.max_diagnostics && requested.max_diagnostics
                <= limits.max_diagnostics) || (budget.max_diagnostics == limits.max_diagnostics
                && limits.max_diagnostics <= requested.max_diagnostics)
        }),
{
}

/// A domain is asked within the budget of the whole question, and for one of each at least.
pub proof fn domains_are_asked_within_the_budget(budget: EffectiveBudget, left_ms: u64)
    ensures
        budget.max_results > 0 ==> budget.for_memory().max_results == budget.max_results
            && budget.for_repository().max_results == budget.max_results,
        budget.max_bytes > 0 ==> budget.for_memory().max_bytes == budget.max_bytes
            && budget.for_repository().max_bytes == budget.max_bytes,
        budget.max_snippet_bytes > 0 ==> budget.for_memory().max_snippet_bytes == budget.max_snippet_bytes,
        budget.max_depth > 0 ==> budget.for_memory().max_depth == budget.max_depth
            && budget.for_repository().max_depth == budget.max_depth,
        budget.max_duration_ms > 0 ==> budget.for_memory().max_duration_ms == budget.max_duration_ms
            && budget.for_repository().max_duration_ms == budget.max_duration_ms,
        budget.max_diagnostics > 0 ==> budget.for_memory().max_diagnostics == budget.max_diagnostics
            && budget.for_repository().max_diagnostics == budget.max_diagnostics,
        budget.for_memory().max_results > 0 && budget.for_memory().max_bytes > 0
            && budget.for_memory().max_snippet_bytes > 0 && budget.for_memory().max_depth > 0
            && budget.for_memory().max_duration_ms > 0 && budget.for_memory().max_diagnostics > 0,
        budget.for_repository().max_results > 0 && budget.for_repository().max_bytes > 0
            && budget.for_repository().max_depth > 0 && budget.for_repository().max_duration_ms > 0
            && budget.for_repository().max_diagnostics > 0,
        budget.within(left_ms).max_duration_ms <= left_ms,
        budget.within(left_ms).max_duration_ms <= budget.max_duration_ms,
        budget.within(left_ms).max_duration_ms == left_ms || budget.within(left_ms).max_duration_ms
            == budget.max_duration_ms,
        budget.within(left_ms).max_results == budget.max_results && budget.within(left_ms).max_bytes
            == budget.max_bytes && budget.within(left_ms).max_depth == budget.max_depth
            && budget.within(left_ms).max_snippet_bytes == budget.max_snippet_bytes
            && budget.within(left_ms).max_diagnostics == budget.max_diagnostics,
{
}

/// A limit of zero is refused under its own name, and limits that are not zero are not refused.
pub proof fn zero_limits_are_refused_by_name(limits: QueryLimitsConfigView)
    ensures
        zero_limit(limits) is None == (limits.max_results > 0 && limits.max_bytes > 0 && limits.max_snippet_bytes > 0
            && limits.max_depth > 0 && limits.max_duration_ms > 0 && limits.max_diagnostics > 0),
        zero_limit(limits) == Some("query.maxresults"@) ==> limits.max_results == 0,
        zero_limit(limits) == Some("query.maxbytes"@) ==> limits.max_bytes == 0,
        zero_limit(limits) == Some("query.maxsnippetbytes"@) ==> limits.max_snippet_bytes == 0,
        zero_limit(limits) == Some("query.maxdepth"@) ==> limits.max_depth == 0,
        zero_limit(limits) == Some("query.maxduration"@) ==> limits.max_duration_ms == 0,
        zero_limit(limits) == Some("query.maxdiagnostics"@) ==> limits.max_diagnostics == 0,
        zero_limit(limits) matches Some(code) ==> set![
            "query.maxresults"@,
            "query.maxbytes"@,
            "query.maxsnippetbytes"@,
            "query.maxdepth"@,
            "query.maxduration"@,
            "query.maxdiagnostics"@,
        ].contains(code),
{
    reveal_strlit("query.maxresults");
    reveal_strlit("query.maxbytes");
    reveal_strlit("query.maxsnippetbytes");
    reveal_strlit("query.maxdepth");
    reveal_strlit("query.maxduration");
    reveal_strlit("query.maxdiagnostics");
    assert("query.maxresults"@.len() == 16 && "query.maxbytes"@.len() == 14 && "query.maxdepth"@.len() == 14);
    assert("query.maxsnippetbytes"@.len() == 21 && "query.maxduration"@.len() == 17
        && "query.maxdiagnostics"@.len() == 20);
    assert("query.maxbytes"@[9] == 'b' && "query.maxdepth"@[9] == 'd');
}

/// A time is up exactly where nothing of it is left, and as much is left as was not spent.
pub proof fn times_run_out(limit_ms: u64, spent_ns: int, first: u64, second: u64)
    requires
        0 <= spent_ns,
    ensures
        is_up(first) == (first == 0),
        spent_ns < 1_000_000 * limit_ms ==> left_after(limit_ms, ms_of(spent_ns)) > 0,
        spent_ns >= 1_000_000 * limit_ms ==> left_after(limit_ms, ms_of(spent_ns)) == 0,
        0 <= left_after(limit_ms, ms_of(spent_ns)) <= limit_ms,
        left_after(limit_ms, 0) == limit_ms,
        shorter(first, second) <= first,
        shorter(first, second) <= second,
        shorter(first, second) == first || shorter(first, second) == second,
{
    assert(spent_ns < 1_000_000 * limit_ms ==> spent_ns / 1_000_000 < limit_ms) by (nonlinear_arith)
        requires
            0 <= spent_ns,
    ;
    assert(spent_ns >= 1_000_000 * limit_ms ==> spent_ns / 1_000_000 >= limit_ms) by (nonlinear_arith)
        requires
            0 <= spent_ns,
    ;
}

/// Sums stop at the greatest number.
pub proof fn sums_stop_at_the_greatest_number(left: u64, right: u64)
    ensures
        left + right <= u64::MAX ==> saturated(left, right) == left + right,
        left + right > u64::MAX ==> saturated(left, right) == u64::MAX,
{
}

/// Before anything was built, the status says so, names the last build and asks for one.
pub proof fn status_before_a_build(
    request: MemoryStatusRequestView,
    latest: Option<MemoryBuildView>,
    retention: crate::query::MemoryRetentionStatisticsView,
)
    ensures
        ({
            let status = not_built(request, latest, retention);
            &&& status.revision_id is None
            &&& status.project == request.scope.project
            &&& status.data.availability == MemoryAvailability::NotBuilt
            &&& status.data.recommended_action == Some(MemoryRetrievalAction::Build)
            &&& status.data.statistics is None
            &&& status.data.retention == Some(retention)
            &&& status.freshness.freshness == MemoryFreshness::Unknown
            &&& latest is None ==> status.data.build_id is None && status.data.build_state is None
            &&& latest matches Some(build) ==> status.data.build_id == Some(build.id) && status.data.build_state
                == Some(build.state)
        }),
{
}

/// Of a revision the status tells its identity, its age and its numbers, and asks to refresh it exactly
/// where it is stale.
pub proof fn status_of_a_revision(
    scope: crate::scope::ResolvedScopeView,
    latest: Option<MemoryBuildView>,
    statistics: crate::query::MemoryStatisticsView,
    retention: crate::query::MemoryRetentionStatisticsView,
    diagnostics: Seq<MemoryDiagnosticView>,
)
    ensures
        ({
            let status = available(scope, latest, statistics, retention, diagnostics);
            &&& status.revision_id == Some(scope.revision.id)
            &&& status.project == scope.revision.project
            &&& status.freshness == scope.freshness
            &&& status.data.availability == MemoryAvailability::Available
            &&& (status.data.recommended_action == Some(MemoryRetrievalAction::Refresh)) == (scope.freshness.freshness
                == MemoryFreshness::Stale)
            &&& scope.freshness.freshness != MemoryFreshness::Stale ==> status.data.recommended_action is None
            &&& status.data.memory_model_version == Some(scope.revision.memory_model_version)
            &&& status.data.statistics == Some(statistics)
            &&& status.data.retention == Some(retention)
            &&& latest is None ==> status.data.build_id is None && status.data.build_state is None
            &&& latest matches Some(build) ==> status.data.build_id == Some(build.id) && status.data.build_state
                == Some(build.state)
            &&& status.diagnostics.len() <= scope.budget.max_diagnostics
            &&& status.diagnostics.is_prefix_of(diagnostics)
            &&& diagnostics.len() <= scope.budget.max_diagnostics ==> status.diagnostics == diagnostics
        }),
{
    if diagnostics.len() > scope.budget.max_diagnostics {
        assert(diagnostics.take(scope.budget.max_diagnostics as int).is_prefix_of(diagnostics));
    }
}

/// In time, an answer holds the first diagnostics, as many as the budget allows; too late, it holds none
/// and says so.
pub proof fn diagnostics_are_the_first_ones(
    diagnostics: Seq<MemoryDiagnosticView>,
    max_diagnostics: u32,
    answers: Seq<u64>,
    at: int,
)
    ensures
        ({
            let found = diagnostics_within(Ok(diagnostics), max_diagnostics, answers, at);
            &&& found is Ok
            &&& answers[at] == 0 ==> found->Ok_0.0.len() == 0 && found->Ok_0.1
            &&& answers[at] > 0 ==> found->Ok_0.0.is_prefix_of(diagnostics) && found->Ok_0.1 == (answers[at + 1] == 0)
            &&& answers[at] > 0 && diagnostics.len() <= max_diagnostics ==> found->Ok_0.0 == diagnostics
            &&& answers[at] > 0 && diagnostics.len() > max_diagnostics ==> found->Ok_0.0.len() == max_diagnostics
        }),
{
    if diagnostics.len() > max_diagnostics {
        assert(diagnostics.take(max_diagnostics as int).is_prefix_of(diagnostics));
    }
}

/// A page names where it continues exactly where there is more, something was returned, and it ended at
/// the number of its results or of its bytes. It says how it ended, and how much it holds.
pub proof fn pages_continue_where_their_budget_ended_them(
    reason: Option<MemoryTruncationReason>,
    returned: nat,
    bytes: u64,
    depth: u32,
    has_more: bool,
    cursor: Seq<char>,
)
    ensures
        ({
            let page = page_model(reason, returned, bytes, depth, has_more, cursor);
            let federated = federated_page_model(reason, returned, bytes, depth, has_more, cursor);
            let goes_on = has_more && returned > 0 && (reason == Some(MemoryTruncationReason::Results) || reason
                == Some(MemoryTruncationReason::Bytes));
            &&& page.next_cursor is Some == goes_on
            &&& goes_on ==> page.next_cursor == Some(cursor)
            &&& federated.next_cursor is Some == goes_on
            &&& goes_on ==> federated.next_cursor == Some(cursor)
            &&& page.truncation is Some == reason is Some
            &&& federated.truncation == page.truncation
            &&& page.truncation matches Some(ended) ==> Some(ended.reason) == reason && ended.returned_bytes == bytes
                && ended.explored_depth == depth && (returned <= u32::MAX ==> ended.returned_results == returned)
        }),
{
}

/// A read that was interrupted is one that ran out of time; what is corrupt or unavailable is an error of
/// the storage.
pub proof fn interrupted_reads_ran_out_of_time(failure: ReadFailure)
    ensures
        (read_failure(failure) == MemoryQueryErrorView::BudgetExceeded(MemoryTruncationReason::Duration)) == (failure
            == ReadFailure::Interrupted),
        failure == ReadFailure::Corrupt ==> read_failure(failure) == MemoryQueryErrorView::Backend(
            "storage.corrupt"@,
        ),
        failure == ReadFailure::Unavailable ==> read_failure(failure) == MemoryQueryErrorView::Backend(
            "storage.unavailable"@,
        ),
{
}

}
