//! What a caller chooses, and what is asked because of it.
use vstd::prelude::*;
use crate::domain::ProjectRefView;
use crate::federation::{
    ContextDomain, FederatedTargetView, RepositoryContextTargetView, RepositoryDomainStateView,
};
use crate::query::{
    MemoryAvailability, MemoryQueryBudgetView, MemoryRetrievalAction, MemoryRevisionSelectorView,
};
use crate::repository::{QueryLimitsConfigView, TaskViewEnvelopeView};
use crate::runtime::{
    chosen_budget, file_status, scope_of, seen_from, zero_choice, BudgetField, ChosenLimits,
    ScopeRefusal,
};
use crate::store::QueryReadiness;

verus! {

/// A limit that is chosen holds, and one that is not chosen is the usual one.
pub proof fn chosen_limits_hold(chosen: ChosenLimits, limits: QueryLimitsConfigView)
    ensures
        chosen.max_results matches Some(limit) ==> chosen_budget(chosen, limits).max_results == limit,
        chosen.max_results is None ==> chosen_budget(chosen, limits).max_results == limits.max_results,
        chosen.max_bytes matches Some(limit) ==> chosen_budget(chosen, limits).max_bytes == limit,
        chosen.max_bytes is None ==> chosen_budget(chosen, limits).max_bytes == limits.max_bytes,
        chosen.max_snippet_bytes matches Some(limit) ==> chosen_budget(chosen, limits).max_snippet_bytes
            == limit,
        chosen.max_snippet_bytes is None ==> chosen_budget(chosen, limits).max_snippet_bytes
            == limits.max_snippet_bytes,
        chosen.max_depth matches Some(limit) ==> chosen_budget(chosen, limits).max_depth == limit,
        chosen.max_depth is None ==> chosen_budget(chosen, limits).max_depth == limits.max_depth,
        chosen.max_duration_ms matches Some(limit) ==> chosen_budget(chosen, limits).max_duration_ms
            == limit,
        chosen.max_duration_ms is None ==> chosen_budget(chosen, limits).max_duration_ms
            == limits.max_duration_ms,
        chosen.max_diagnostics matches Some(limit) ==> chosen_budget(chosen, limits).max_diagnostics
            == limit,
        chosen.max_diagnostics is None ==> chosen_budget(chosen, limits).max_diagnostics
            == limits.max_diagnostics,
{
}

/// A limit that is chosen to be zero is named, and nothing is named where none is zero.
pub proof fn zero_limits_are_named(chosen: ChosenLimits)
    ensures
        zero_choice(chosen) matches Some(field) ==> match field {
            BudgetField::MaxResults => chosen.max_results == Some(0u32),
            BudgetField::MaxBytes => chosen.max_bytes == Some(0u64),
            BudgetField::MaxSnippetBytes => chosen.max_snippet_bytes == Some(0u64),
            BudgetField::MaxDepth => chosen.max_depth == Some(0u32),
            BudgetField::MaxDurationMs => chosen.max_duration_ms == Some(0u64),
            BudgetField::MaxDiagnostics => chosen.max_diagnostics == Some(0u32),
        },
        zero_choice(chosen) is None ==> chosen.max_results != Some(0u32) && chosen.max_bytes != Some(
            0u64,
        ) && chosen.max_snippet_bytes != Some(0u64) && chosen.max_depth != Some(0u32)
            && chosen.max_duration_ms != Some(0u64) && chosen.max_diagnostics != Some(0u32),
{
}

/// The memory alone can always be asked, and the view of the project is what is asked of it.
pub proof fn the_memory_can_be_asked_alone(
    project: ProjectRefView,
    budget: MemoryQueryBudgetView,
    graph_enabled: bool,
    repository: Option<RepositoryContextTargetView>,
)
    ensures
        scope_of(project, ContextDomain::Memory, budget, graph_enabled, repository) is Ok,
        scope_of(project, ContextDomain::Memory, budget, graph_enabled, repository)->Ok_0.project
            == project,
        scope_of(project, ContextDomain::Memory, budget, graph_enabled, repository)->Ok_0.budget
            == budget,
        scope_of(project, ContextDomain::Memory, budget, graph_enabled, repository)->Ok_0.target == (
        FederatedTargetView::Memory { memory: MemoryRevisionSelectorView::Published("project"@) }),
{
}

/// The repository is asked, alone or beside the memory, where its graph is on and its snapshot known.
pub proof fn known_repositories_can_be_asked(
    project: ProjectRefView,
    budget: MemoryQueryBudgetView,
    repository: RepositoryContextTargetView,
)
    ensures
        scope_of(project, ContextDomain::Repository, budget, true, Some(repository)) is Ok,
        scope_of(project, ContextDomain::Repository, budget, true, Some(repository))->Ok_0.target == (
        FederatedTargetView::Repository { repository }),
        scope_of(project, ContextDomain::Repository, budget, true, Some(repository))->Ok_0.project
            == project,
        scope_of(project, ContextDomain::Repository, budget, true, Some(repository))->Ok_0.budget
            == budget,
        scope_of(project, ContextDomain::All, budget, true, Some(repository)) is Ok,
        scope_of(project, ContextDomain::All, budget, true, Some(repository))->Ok_0.target == (
        FederatedTargetView::All {
            repository,
            memory: MemoryRevisionSelectorView::Published("project"@),
        }),
        scope_of(project, ContextDomain::All, budget, true, Some(repository))->Ok_0.project == project,
        scope_of(project, ContextDomain::All, budget, true, Some(repository))->Ok_0.budget == budget,
{
}

/// A repository is not asked while its graph is off, nor while its snapshot is not known.
pub proof fn other_repositories_are_refused(
    project: ProjectRefView,
    domain: ContextDomain,
    budget: MemoryQueryBudgetView,
    repository: Option<RepositoryContextTargetView>,
)
    requires
        domain == ContextDomain::Repository || domain == ContextDomain::All,
    ensures
        scope_of(project, domain, budget, false, repository) is Err,
        scope_of(project, domain, budget, false, repository)->Err_0 == ScopeRefusal::GraphDisabled,
        scope_of(project, domain, budget, true, None) is Err,
        scope_of(project, domain, budget, true, None)->Err_0 == ScopeRefusal::RepositoryUnknown,
{
}

/// Without a file the memory is not built and asks to be; with one that cannot be read it is
/// incompatible and asks to be rebuilt; and with one that can be read the file itself is asked.
pub proof fn files_say_what_to_do(project: ProjectRefView, readiness: QueryReadiness)
    ensures
        file_status(project, Some(None)) is Some,
        file_status(project, Some(None))->0.project == project,
        file_status(project, Some(None))->0.revision_id is None,
        file_status(project, Some(None))->0.data.availability == MemoryAvailability::NotBuilt,
        file_status(project, Some(None))->0.data.recommended_action == Some(
            MemoryRetrievalAction::Build,
        ),
        file_status(project, Some(Some(readiness))) is None <==> readiness == QueryReadiness::Ready,
        readiness != QueryReadiness::Ready ==> {
            &&& file_status(project, Some(Some(readiness)))->0.data.availability
                == MemoryAvailability::Incompatible
            &&& file_status(project, Some(Some(readiness)))->0.data.recommended_action == Some(
                MemoryRetrievalAction::Rebuild,
            )
            &&& file_status(project, Some(Some(readiness)))->0.project == project
        },
        file_status(project, None) is Some,
        file_status(project, None)->0.data.availability == MemoryAvailability::Incompatible,
        file_status(project, None)->0.data.recommended_action == Some(MemoryRetrievalAction::Rebuild),
{
}

/// Whoever sees a repository from within a task sees that task, and otherwise what was there.
pub proof fn repositories_are_seen_from_a_task(
    state: RepositoryDomainStateView,
    task_view: Option<TaskViewEnvelopeView>,
)
    ensures
        seen_from(Some(state), task_view) is Some,
        seen_from(Some(state), task_view)->0.task_view == task_view,
        seen_from(seen_from(Some(state), task_view), state.task_view) == Some(state),
        seen_from(None, task_view) is None,
{
}

} // verus!
