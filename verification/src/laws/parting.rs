//! How a question to both domains is parted into a question to each.
use vstd::prelude::*;
use crate::budget::EffectiveBudget;
use crate::domain::ProjectRefView;
use crate::federation::asking::{memory_question, repository_question};
use crate::federation::context::{memory_depth, repository_depth};
use crate::federation::gathering::{
    memory_context_request, memory_search_request, repository_context_request,
    repository_search_request,
};
use crate::federation::search::{memory_part, repository_part};
use crate::federation::{FederatedSearchRequestView, RepositoryContextTargetView};
use crate::json::ToJson;
use crate::laws::lists::{deduplicated_holds, sorted_holds};
use crate::query::{
    MemoryContextPolicyView, MemoryContextRequestView, MemoryContextResponseView,
    MemoryContextSeed, MemoryContextSeedView, MemoryFreshnessComparisonView,
    MemoryRevisionSelectorView, MemorySearchRequestView,
};
use crate::repository::{
    ContextPolicyView, ContextRequestView, ContextResponseView, ContextSeed, ContextSeedView,
    SearchRequestView,
};
use crate::sort::{deduplicated, sorted, Identified};

verus! {

/// Both domains are searched for the same text, each with its own filters, from its first page on.
pub proof fn both_domains_are_searched_for_the_same(
    request: FederatedSearchRequestView,
    selector: MemoryRevisionSelectorView,
    target: RepositoryContextTargetView,
    budget: EffectiveBudget,
    freshness: Option<MemoryFreshnessComparisonView>,
)
    ensures
        memory_part(request, selector, budget, freshness).text == request.text,
        repository_part(request, target, budget).text == request.text,
        memory_part(request, selector, budget, freshness).entity_kinds == request.memory_kinds,
        memory_part(request, selector, budget, freshness).source_categories == request.memory_sources,
        memory_part(request, selector, budget, freshness).scope.project == request.scope.project,
        memory_part(request, selector, budget, freshness).scope.revision == selector,
        memory_part(request, selector, budget, freshness).scope.freshness_comparison == freshness,
        memory_part(request, selector, budget, freshness).page.cursor is None,
        repository_part(request, target, budget).node_kinds == request.repository_kinds,
        repository_part(request, target, budget).paths == request.repository_paths,
        repository_part(request, target, budget).scope.repository == target.repository,
        repository_part(request, target, budget).scope.snapshot == target.snapshot,
        repository_part(request, target, budget).cursor is None,
{
}

/// The memory is asked about the seeds given to it, each once as its text tells them apart, and about
/// no others, in the revision and under the policy given.
pub proof fn the_memory_is_asked_about_its_seeds(
    project: ProjectRefView,
    selector: MemoryRevisionSelectorView,
    policy: MemoryContextPolicyView,
    seeds: Seq<MemoryContextSeedView>,
    budget: EffectiveBudget,
    freshness: Option<MemoryFreshnessComparisonView>,
    seed: MemoryContextSeedView,
)
    ensures
        ({
            let question = memory_question(project, selector, policy, seeds, budget, freshness);
            &&& question.policy == policy
            &&& question.scope.project == project
            &&& question.scope.revision == selector
            &&& question.scope.freshness_comparison == freshness
            &&& question.page.cursor is None
            &&& question.seeds.contains(seed) ==> seeds.contains(seed)
            &&& seeds.contains(seed) ==> exists|i: int|
                0 <= i < question.seeds.len() && <MemoryContextSeed as ToJson>::json(
                    #[trigger] question.seeds[i],
                ) == <MemoryContextSeed as ToJson>::json(seed)
        }),
{
    let ordered = sorted::<MemoryContextSeed>(seeds);
    sorted_holds::<MemoryContextSeed>(seeds, seed);
    deduplicated_holds::<MemoryContextSeed>(ordered, seed);
    let kept = deduplicated::<MemoryContextSeed>(ordered);
    if seeds.contains(seed) {
        let i = choose|i: int|
            0 <= i < kept.len() && MemoryContextSeed::identity(#[trigger] kept[i])
                == MemoryContextSeed::identity(seed);
        let question = memory_question(project, selector, policy, seeds, budget, freshness);
        assert(question.seeds == kept);
        assert(<MemoryContextSeed as ToJson>::json(question.seeds[i]) == <MemoryContextSeed as ToJson>::json(
            seed,
        ));
    }
}

/// The repository is asked about the seeds given to it, each once as its text tells them apart, and
/// about no others, in the snapshot and under the policy given.
pub proof fn the_repository_is_asked_about_its_seeds(
    target: RepositoryContextTargetView,
    policy: ContextPolicyView,
    seeds: Seq<ContextSeedView>,
    budget: EffectiveBudget,
    seed: ContextSeedView,
)
    ensures
        ({
            let question = repository_question(target, policy, seeds, budget);
            &&& question.policy == policy
            &&& question.scope.repository == target.repository
            &&& question.scope.snapshot == target.snapshot
            &&& question.cursor is None
            &&& question.seeds.contains(seed) ==> seeds.contains(seed)
            &&& seeds.contains(seed) ==> exists|i: int|
                0 <= i < question.seeds.len() && <ContextSeed as ToJson>::json(
                    #[trigger] question.seeds[i],
                ) == <ContextSeed as ToJson>::json(seed)
        }),
{
    let ordered = sorted::<ContextSeed>(seeds);
    sorted_holds::<ContextSeed>(seeds, seed);
    deduplicated_holds::<ContextSeed>(ordered, seed);
    let kept = deduplicated::<ContextSeed>(ordered);
    if seeds.contains(seed) {
        let i = choose|i: int|
            0 <= i < kept.len() && ContextSeed::identity(#[trigger] kept[i])
                == ContextSeed::identity(seed);
        let question = repository_question(target, policy, seeds, budget);
        assert(question.seeds == kept);
        assert(<ContextSeed as ToJson>::json(question.seeds[i]) == <ContextSeed as ToJson>::json(seed));
    }
}

/// The next page is asked for with the same question, the place where the last one ended, and the
/// time that is left.
pub proof fn next_pages_are_asked_for(
    memory_search: MemorySearchRequestView,
    repository_search: SearchRequestView,
    memory_context: MemoryContextRequestView,
    repository_context: ContextRequestView,
    left: u64,
    cursor: Option<Seq<char>>,
)
    ensures
        memory_search_request(memory_search, left, cursor).page.cursor == cursor,
        memory_search_request(memory_search, left, cursor).scope.budget.max_duration_ms == left,
        memory_search_request(memory_search, left, cursor).text == memory_search.text,
        memory_search_request(
            memory_search_request(memory_search, left, cursor),
            memory_search.scope.budget.max_duration_ms,
            memory_search.page.cursor,
        ) == memory_search,
        repository_search_request(repository_search, left, cursor).cursor == cursor,
        repository_search_request(repository_search, left, cursor).scope.budget.max_duration_ms == left,
        repository_search_request(
            repository_search_request(repository_search, left, cursor),
            repository_search.scope.budget.max_duration_ms,
            repository_search.cursor,
        ) == repository_search,
        memory_context_request(memory_context, left, cursor).page.cursor == cursor,
        memory_context_request(memory_context, left, cursor).scope.budget.max_duration_ms == left,
        memory_context_request(
            memory_context_request(memory_context, left, cursor),
            memory_context.scope.budget.max_duration_ms,
            memory_context.page.cursor,
        ) == memory_context,
        repository_context_request(repository_context, left, cursor).cursor == cursor,
        repository_context_request(repository_context, left, cursor).scope.budget.max_duration_ms
            == left,
        repository_context_request(
            repository_context_request(repository_context, left, cursor),
            repository_context.scope.budget.max_duration_ms,
            repository_context.cursor,
        ) == repository_context,
{
}

/// Whether a depth is reached by one of some answers of the memory: by the steps taken before it was
/// asked and those it took.
pub open spec fn is_memory_depth(answers: Seq<(MemoryContextResponseView, u32)>, depth: u32) -> bool {
    exists|i: int|
        0 <= i < answers.len() && (#[trigger] answers[i]).0.page.truncation is Some && answers[i].1
            + answers[i].0.page.truncation->0.explored_depth == depth
}

/// The memory was explored at least as deep as each of its answers says.
pub proof fn the_deepest_answer_counts(
    depth: u32,
    answers: Seq<(MemoryContextResponseView, u32)>,
    other: u32,
)
    requires
        is_memory_depth(answers, other),
    ensures
        memory_depth(depth, answers) >= other,
        memory_depth(depth, answers) >= depth,
    decreases answers.len(),
{
    let rest = answers.drop_last();
    memory_depth_is_no_less(depth, rest);
    let i = choose|i: int|
        0 <= i < answers.len() && (#[trigger] answers[i]).0.page.truncation is Some && answers[i].1
            + answers[i].0.page.truncation->0.explored_depth == other;
    if i < rest.len() {
        assert(rest[i] == answers[i]);
        assert(is_memory_depth(rest, other));
        the_deepest_answer_counts(depth, rest, other);
    }
}

proof fn memory_depth_is_no_less(depth: u32, answers: Seq<(MemoryContextResponseView, u32)>)
    ensures
        memory_depth(depth, answers) >= depth,
    decreases answers.len(),
{
    if answers.len() > 0 {
        memory_depth_is_no_less(depth, answers.drop_last());
    }
}

/// The repository was explored at least as deep as each of its answers says.
pub proof fn the_deepest_answer_of_the_repository_counts(
    answers: Seq<(ContextResponseView, u32)>,
    at: int,
)
    requires
        0 <= at < answers.len(),
        answers[at].0.page.truncation is Some,
        answers[at].1 + answers[at].0.page.truncation->0.explored_depth <= u32::MAX,
    ensures
        repository_depth(answers) >= answers[at].1 + answers[at].0.page.truncation->0.explored_depth,
    decreases answers.len(),
{
    if at < answers.len() - 1 {
        assert(answers.drop_last()[at] == answers[at]);
        the_deepest_answer_of_the_repository_counts(answers.drop_last(), at);
    }
}

} // verus!
