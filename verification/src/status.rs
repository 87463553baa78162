//! The state of a project's memory.
use vstd::prelude::*;
use crate::deadline::{begins, is_up, Deadline};
use crate::diagnostics::{MemoryDiagnostic, MemoryDiagnosticView};
use crate::domain::{MemoryBuild, MemoryBuildView, MemoryRevision, MemoryRevisionView};
use crate::policy::{default_policy, MemoryPolicy, MemorySourcePolicyStatus};
use crate::query::{
    MemoryAvailability, MemoryFreshness, MemoryQueryError, MemoryQueryErrorView,
    MemoryRetentionStatistics, MemoryRetentionStatisticsView, MemoryRetrievalAction,
    MemoryRevisionSelector, MemoryStatistics, MemoryStatisticsView, MemoryStatusData,
    MemoryStatusDataView, MemoryStatusRequest, MemoryStatusRequestView, MemoryStatusResponse,
    MemoryStatusResponseView, MemoryTruncationReason,
};
use crate::record::{outcome, Record};
use crate::repository::{QueryLimitsConfig, QueryLimitsConfigView};
use crate::scope::{
    first_diagnostics, freshness_action, limit_diagnostics, not_compared, resolve_scope, resolved,
    unknown_freshness, ResolvedScopeView,
};
use crate::MEMORY_QUERY_WIRE_VERSION;

verus! {

/// What the policy says of every category, in the order of the categories.
pub fn source_policy_status() -> (status: Vec<MemorySourcePolicyStatus>)
    ensures
        status.deep_view() == default_policy().categories,
{
    MemoryPolicy::default().categories().copied()
}

/// The state and the name of the last build, where there was one.
pub open spec fn last_build(build: Option<MemoryBuildView>) -> (Option<
    crate::domain::MemoryBuildState,
>, Option<Seq<char>>) {
    match build {
        Some(build) => (Some(build.state), Some(build.id)),
        None => (None, None),
    }
}

/// The answer where nothing was published yet.
pub open spec fn not_built(
    request: MemoryStatusRequestView,
    latest: Option<MemoryBuildView>,
    retention: MemoryRetentionStatisticsView,
) -> MemoryStatusResponseView {
    MemoryStatusResponseView {
        wire_version: MEMORY_QUERY_WIRE_VERSION,
        project: request.scope.project,
        revision_id: None,
        freshness: not_compared(),
        diagnostics: Seq::empty(),
        data: MemoryStatusDataView {
            availability: MemoryAvailability::NotBuilt,
            build_state: last_build(latest).0,
            build_id: last_build(latest).1,
            memory_model_version: None,
            statistics: None,
            retention: Some(retention),
            recommended_action: Some(MemoryRetrievalAction::Build),
            source_policy: default_policy().categories,
        },
    }
}

/// The answer where there is a revision.
pub open spec fn available(
    scope: ResolvedScopeView,
    latest: Option<MemoryBuildView>,
    statistics: MemoryStatisticsView,
    retention: MemoryRetentionStatisticsView,
    diagnostics: Seq<MemoryDiagnosticView>,
) -> MemoryStatusResponseView {
    MemoryStatusResponseView {
        wire_version: MEMORY_QUERY_WIRE_VERSION,
        project: scope.revision.project,
        revision_id: Some(scope.revision.id),
        freshness: scope.freshness,
        diagnostics: first_diagnostics(diagnostics, scope.budget.max_diagnostics),
        data: MemoryStatusDataView {
            availability: MemoryAvailability::Available,
            build_state: last_build(latest).0,
            build_id: last_build(latest).1,
            memory_model_version: Some(scope.revision.memory_model_version),
            statistics: Some(statistics),
            retention: Some(retention),
            recommended_action: if scope.freshness.freshness == MemoryFreshness::Stale {
                Some(MemoryRetrievalAction::Refresh)
            } else {
                None
            },
            source_policy: default_policy().categories,
        },
    }
}

/// What is read to tell the state of a memory.
pub struct StatusRecords {
    pub latest: Result<Option<MemoryBuild>, MemoryQueryError>,
    pub statistics: Result<MemoryStatistics, MemoryQueryError>,
    pub retention: Result<MemoryRetentionStatistics, MemoryQueryError>,
    pub diagnostics: Result<Vec<MemoryDiagnostic>, MemoryQueryError>,
}

/// The state of a memory, given the revision that the request selects and what else was read. With
/// nothing published under the name that was asked for, the memory waits to be built.
pub open spec fn status_answer(
    request: MemoryStatusRequestView,
    limits: QueryLimitsConfigView,
    revision: Result<Option<MemoryRevisionView>, MemoryQueryErrorView>,
    records: StatusRecords,
    late: bool,
) -> Result<MemoryStatusResponseView, MemoryQueryErrorView> {
    let too_late = MemoryQueryErrorView::BudgetExceeded(MemoryTruncationReason::Duration);
    match resolved(request.scope, limits, revision) {
        Err(error) => if error == MemoryQueryErrorView::Unavailable
            && request.scope.revision is Published {
            match (outcome(records.latest), outcome(records.retention)) {
                (Err(error), _) => Err(error),
                (_, Err(error)) => Err(error),
                (Ok(latest), Ok(retention)) => if late {
                    Err(too_late)
                } else {
                    Ok(not_built(request, latest, retention))
                },
            }
        } else {
            Err(error)
        },
        Ok(scope) => match (
            outcome(records.latest),
            outcome(records.statistics),
            outcome(records.retention),
            outcome(records.diagnostics),
        ) {
            (Err(error), _, _, _) => Err(error),
            (_, Err(error), _, _) => Err(error),
            (_, _, Err(error), _) => Err(error),
            (_, _, _, Err(error)) => Err(error),
            (Ok(latest), Ok(statistics), Ok(retention), Ok(diagnostics)) => if late {
                Err(too_late)
            } else {
                Ok(available(scope, latest, statistics, retention, diagnostics))
            },
        },
    }
}

/// Tells the state of a memory, given the revision that the request selects and what else was read.
/// The deadline is asked once, when all is there.
pub fn status<D: Deadline>(
    request: &MemoryStatusRequest,
    limits: &QueryLimitsConfig,
    revision: Result<Option<MemoryRevision>, MemoryQueryError>,
    records: StatusRecords,
    deadline: &mut D,
) -> (result: Result<MemoryStatusResponse, MemoryQueryError>)
    ensures
        begins(old(deadline).answers(), final(deadline).answers()),
        outcome(result) == status_answer(
            request.deep_view(),
            limits.deep_view(),
            outcome(revision),
            records,
            is_up(final(deadline).answers()[old(deadline).answers().len() as int]),
        ),
{
    match resolve_scope(&request.scope, limits, revision) {
        Err(MemoryQueryError::Unavailable) => {
            match &request.scope.revision {
                MemoryRevisionSelector::Published(_) => {},
                MemoryRevisionSelector::Revision(_) => {
                    return Err(MemoryQueryError::Unavailable);
                },
            }
            let latest = match records.latest {
                Ok(latest) => latest,
                Err(error) => {
                    return Err(error);
                },
            };
            let retention = match records.retention {
                Ok(retention) => retention,
                Err(error) => {
                    return Err(error);
                },
            };
            if deadline.expired() {
                return Err(MemoryQueryError::BudgetExceeded(MemoryTruncationReason::Duration));
            }
            let (build_state, build_id) = match latest {
                Some(build) => (Some(build.state), Some(build.id)),
                None => (None, None),
            };
            let diagnostics: Vec<MemoryDiagnostic> = Vec::new();
            assert(diagnostics.deep_view() =~= Seq::<MemoryDiagnosticView>::empty());
            Ok(
                MemoryStatusResponse {
                    wire_version: MEMORY_QUERY_WIRE_VERSION,
                    project: request.scope.project.copied(),
                    revision_id: None,
                    freshness: unknown_freshness(),
                    diagnostics,
                    data: MemoryStatusData {
                        availability: MemoryAvailability::NotBuilt,
                        build_state,
                        build_id,
                        memory_model_version: None,
                        statistics: None,
                        retention: Some(retention),
                        recommended_action: Some(MemoryRetrievalAction::Build),
                        source_policy: source_policy_status(),
                    },
                },
            )
        },
        Err(error) => Err(error),
        Ok(scope) => {
            let latest = match records.latest {
                Ok(latest) => latest,
                Err(error) => {
                    return Err(error);
                },
            };
            let statistics = match records.statistics {
                Ok(statistics) => statistics,
                Err(error) => {
                    return Err(error);
                },
            };
            let retention = match records.retention {
                Ok(retention) => retention,
                Err(error) => {
                    return Err(error);
                },
            };
            let diagnostics = match records.diagnostics {
                Ok(diagnostics) => diagnostics,
                Err(error) => {
                    return Err(error);
                },
            };
            if deadline.expired() {
                return Err(MemoryQueryError::BudgetExceeded(MemoryTruncationReason::Duration));
            }
            let (build_state, build_id) = match latest {
                Some(build) => (Some(build.state), Some(build.id)),
                None => (None, None),
            };
            let recommended_action = freshness_action(&scope.freshness);
            Ok(
                MemoryStatusResponse {
                    wire_version: MEMORY_QUERY_WIRE_VERSION,
                    project: scope.revision.project,
                    revision_id: Some(scope.revision.id),
                    freshness: scope.freshness,
                    diagnostics: limit_diagnostics(diagnostics, scope.budget.max_diagnostics),
                    data: MemoryStatusData {
                        availability: MemoryAvailability::Available,
                        build_state,
                        build_id,
                        memory_model_version: Some(scope.revision.memory_model_version),
                        statistics: Some(statistics),
                        retention: Some(retention),
                        recommended_action,
                        source_policy: source_policy_status(),
                    },
                },
            )
        },
    }
}

}
