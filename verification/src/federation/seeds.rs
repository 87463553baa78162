//! The seeds of a federated request, and how links carry them from one domain to the other.
use vstd::prelude::*;
use crate::budget::{backend, backend_error};
use crate::domain::{
    MemoryRelationship, MemoryRelationshipTarget, MemoryRelationshipTargetView,
    MemoryRelationshipView,
};
use crate::federation::{FederatedContextSeed, FederatedContextSeedView};
use crate::json::ToJson;
use crate::query::{
    MemoryContextPolicy, MemoryContextPolicyView, MemoryContextSeed, MemoryContextSeedView,
    MemoryQueryError,
};
use crate::record::Record;
use crate::repository::{ContextItem, ContextItemView, ContextSeed, ContextSeedView, SnapshotId};
use crate::sort::{dedup, deduplicated, sort, sorted, text_key, Identified, SortKey, Sortable};

verus! {

/// The repository seed that a seed is, if it is one.
pub open spec fn repository_seed(seed: FederatedContextSeedView) -> Option<ContextSeedView> {
    match seed {
        FederatedContextSeedView::Repository(seed) => Some(seed),
        _ => None,
    }
}

/// The memory seed that a seed is, if it is one.
pub open spec fn memory_seed(seed: FederatedContextSeedView) -> Option<MemoryContextSeedView> {
    match seed {
        FederatedContextSeedView::MemoryEntity(id) => Some(MemoryContextSeedView::Entity(id)),
        FederatedContextSeedView::Milestone(id) => Some(MemoryContextSeedView::Milestone(id)),
        FederatedContextSeedView::Task(id) => Some(MemoryContextSeedView::Task(id)),
        FederatedContextSeedView::Run(id) => Some(MemoryContextSeedView::Run(id)),
        FederatedContextSeedView::Repository(_) => None,
    }
}

fn as_memory_seed(seed: &FederatedContextSeed) -> (result: Option<MemoryContextSeed>)
    ensures
        result.deep_view() == memory_seed(seed.deep_view()),
{
    match seed {
        FederatedContextSeed::MemoryEntity(id) => Some(MemoryContextSeed::Entity(id.copied())),
        FederatedContextSeed::Milestone(id) => Some(MemoryContextSeed::Milestone(id.copied())),
        FederatedContextSeed::Task(id) => Some(MemoryContextSeed::Task(id.copied())),
        FederatedContextSeed::Run(id) => Some(MemoryContextSeed::Run(id.copied())),
        FederatedContextSeed::Repository(_) => None,
    }
}

/// The repository seeds among some seeds, in their order.
pub open spec fn repository_seeds(seeds: Seq<FederatedContextSeedView>) -> Seq<ContextSeedView>
    decreases seeds.len(),
{
    if seeds.len() == 0 {
        Seq::empty()
    } else {
        let rest = repository_seeds(seeds.drop_last());
        match repository_seed(seeds.last()) {
            Some(seed) => rest.push(seed),
            None => rest,
        }
    }
}

/// The memory seeds among some seeds, in their order.
pub open spec fn memory_seeds(seeds: Seq<FederatedContextSeedView>) -> Seq<MemoryContextSeedView>
    decreases seeds.len(),
{
    if seeds.len() == 0 {
        Seq::empty()
    } else {
        let rest = memory_seeds(seeds.drop_last());
        match memory_seed(seeds.last()) {
            Some(seed) => rest.push(seed),
            None => rest,
        }
    }
}

/// Whether every seed is one of the repository.
pub open spec fn all_repository(seeds: Seq<FederatedContextSeedView>) -> bool {
    forall|i: int| 0 <= i < seeds.len() ==> repository_seed(#[trigger] seeds[i]) is Some
}

/// Whether every seed is one of the memory.
pub open spec fn all_memory(seeds: Seq<FederatedContextSeedView>) -> bool {
    forall|i: int| 0 <= i < seeds.len() ==> memory_seed(#[trigger] seeds[i]) is Some
}

/// A seed belongs to exactly one domain, so no seed is lost between the domains or counted in both.
pub proof fn each_seed_has_one_domain(seeds: Seq<FederatedContextSeedView>)
    ensures
        repository_seeds(seeds).len() + memory_seeds(seeds).len() == seeds.len(),
        all_repository(seeds) ==> memory_seeds(seeds).len() == 0,
        all_memory(seeds) ==> repository_seeds(seeds).len() == 0,
    decreases seeds.len(),
{
    if seeds.len() > 0 {
        let rest = seeds.drop_last();
        each_seed_has_one_domain(rest);
        if all_repository(seeds) {
            assert forall|i: int|
                0 <= i < rest.len() implies repository_seed(#[trigger] rest[i]) is Some by {
                assert(rest[i] == seeds[i]);
            }
            assert(repository_seed(seeds[seeds.len() - 1]) is Some);
        }
        if all_memory(seeds) {
            assert forall|i: int|
                0 <= i < rest.len() implies memory_seed(#[trigger] rest[i]) is Some by {
                assert(rest[i] == seeds[i]);
            }
            assert(memory_seed(seeds[seeds.len() - 1]) is Some);
        }
    }
}

/// The seeds of a request to the repository alone: a seed of the memory is an error, never a reason
/// to ask the memory too.
pub fn repository_only_seeds(seeds: &Vec<FederatedContextSeed>) -> (result: Result<
    Vec<ContextSeed>,
    MemoryQueryError,
>)
    ensures
        match result {
            Ok(found) => all_repository(seeds.deep_view()) && found.deep_view() == repository_seeds(
                seeds.deep_view(),
            ),
            Err(error) => !all_repository(seeds.deep_view()) && error.deep_view() == backend(
                "context.domainmismatch"@,
            ),
        },
{
    let mut found: Vec<ContextSeed> = Vec::new();
    let mut at: usize = 0;
    assert(found.deep_view() =~= repository_seeds(seeds.deep_view().take(0)));
    while at < seeds.len()
        invariant
            at <= seeds.len(),
            found.deep_view() == repository_seeds(seeds.deep_view().take(at as int)),
            forall|i: int| 0 <= i < at ==> repository_seed(#[trigger] seeds.deep_view()[i]) is Some,
        decreases seeds.len() - at,
    {
        proof {
            let next = seeds.deep_view().take(at + 1);
            assert(next.drop_last() =~= seeds.deep_view().take(at as int));
            assert(next.last() == seeds.deep_view()[at as int]);
            assert(seeds.deep_view()[at as int] == seeds@[at as int].deep_view());
        }
        match &seeds[at] {
            FederatedContextSeed::Repository(seed) => {
                let ghost before = found.deep_view();
                found.push(seed.copied());
                assert(found.deep_view() =~= before.push(seed.deep_view()));
            },
            _ => {
                proof {
                    reveal_strlit("context.domainmismatch");
                }
                return Err(backend_error("context.domainmismatch"));
            },
        }
        at += 1;
    }
    assert(seeds.deep_view().take(at as int) =~= seeds.deep_view());
    Ok(found)
}

/// The seeds of a request to the memory alone: a seed of the repository is an error, never a reason
/// to ask the repository too.
pub fn memory_only_seeds(seeds: &Vec<FederatedContextSeed>) -> (result: Result<
    Vec<MemoryContextSeed>,
    MemoryQueryError,
>)
    ensures
        match result {
            Ok(found) => all_memory(seeds.deep_view()) && found.deep_view() == memory_seeds(
                seeds.deep_view(),
            ),
            Err(error) => !all_memory(seeds.deep_view()) && error.deep_view() == backend(
                "context.domainmismatch"@,
            ),
        },
{
    let mut found: Vec<MemoryContextSeed> = Vec::new();
    let mut at: usize = 0;
    assert(found.deep_view() =~= memory_seeds(seeds.deep_view().take(0)));
    while at < seeds.len()
        invariant
            at <= seeds.len(),
            found.deep_view() == memory_seeds(seeds.deep_view().take(at as int)),
            forall|i: int| 0 <= i < at ==> memory_seed(#[trigger] seeds.deep_view()[i]) is Some,
        decreases seeds.len() - at,
    {
        proof {
            let next = seeds.deep_view().take(at + 1);
            assert(next.drop_last() =~= seeds.deep_view().take(at as int));
            assert(next.last() == seeds.deep_view()[at as int]);
            assert(seeds.deep_view()[at as int] == seeds@[at as int].deep_view());
        }
        match as_memory_seed(&seeds[at]) {
            Some(seed) => {
                let ghost before = found.deep_view();
                found.push(seed);
                assert(found.deep_view() =~= before.push(seed.deep_view()));
            },
            None => {
                proof {
                    reveal_strlit("context.domainmismatch");
                }
                return Err(backend_error("context.domainmismatch"));
            },
        }
        at += 1;
    }
    assert(seeds.deep_view().take(at as int) =~= seeds.deep_view());
    Ok(found)
}

/// The seeds of a request to both domains, each with its own.
pub fn split_all_seeds(seeds: &Vec<FederatedContextSeed>) -> (result: (
    Vec<ContextSeed>,
    Vec<MemoryContextSeed>,
))
    ensures
        result.0.deep_view() == repository_seeds(seeds.deep_view()),
        result.1.deep_view() == memory_seeds(seeds.deep_view()),
{
    let mut repository: Vec<ContextSeed> = Vec::new();
    let mut memory: Vec<MemoryContextSeed> = Vec::new();
    let mut at: usize = 0;
    assert(repository.deep_view() =~= repository_seeds(seeds.deep_view().take(0)));
    assert(memory.deep_view() =~= memory_seeds(seeds.deep_view().take(0)));
    while at < seeds.len()
        invariant
            at <= seeds.len(),
            repository.deep_view() == repository_seeds(seeds.deep_view().take(at as int)),
            memory.deep_view() == memory_seeds(seeds.deep_view().take(at as int)),
        decreases seeds.len() - at,
    {
        proof {
            let next = seeds.deep_view().take(at + 1);
            assert(next.drop_last() =~= seeds.deep_view().take(at as int));
            assert(next.last() == seeds@[at as int].deep_view());
        }
        match &seeds[at] {
            FederatedContextSeed::Repository(seed) => {
                let ghost before = repository.deep_view();
                repository.push(seed.copied());
                assert(repository.deep_view() =~= before.push(seed.deep_view()));
            },
            seed => {
                if let Some(seed) = as_memory_seed(seed) {
                    let ghost before = memory.deep_view();
                    memory.push(seed);
                    assert(memory.deep_view() =~= before.push(seed.deep_view()));
                }
            },
        }
        at += 1;
    }
    assert(seeds.deep_view().take(at as int) =~= seeds.deep_view());
    (repository, memory)
}

/// Whether a policy follows links of this kind.
pub open spec fn kind_is_allowed(
    policy: MemoryContextPolicyView,
    relationship: MemoryRelationshipView,
) -> bool {
    policy.relationship_kinds.len() == 0 || policy.relationship_kinds.contains(relationship.kind)
}

/// Whether a policy follows links of this kind.
pub fn cross_link_kind_allowed(
    policy: &MemoryContextPolicy,
    relationship: &MemoryRelationship,
) -> (allowed: bool)
    ensures
        allowed == kind_is_allowed(policy.deep_view(), relationship.deep_view()),
{
    if policy.relationship_kinds.len() == 0 {
        return true;
    }
    let mut at: usize = 0;
    while at < policy.relationship_kinds.len()
        invariant
            at <= policy.relationship_kinds.len(),
            policy.relationship_kinds.len() > 0,
            forall|i: int| 0 <= i < at ==> policy.relationship_kinds.deep_view()[i] != relationship.kind,
        decreases policy.relationship_kinds.len() - at,
    {
        if policy.relationship_kinds[at] == relationship.kind {
            assert(policy.relationship_kinds.deep_view()[at as int] == relationship.kind);
            return true;
        }
        at += 1;
    }
    false
}

/// Whether a target without a snapshot, or with this one, is meant.
pub open spec fn snapshot_agrees(
    target: Option<Seq<char>>,
    snapshot_id: Option<Seq<char>>,
) -> bool {
    target is None || target == snapshot_id
}

/// Whether a repository seed is what a link points at in a snapshot.
pub open spec fn seed_meets_target(
    seed: ContextSeedView,
    target: MemoryRelationshipTargetView,
    snapshot_id: Option<Seq<char>>,
) -> bool {
    match seed {
        ContextSeedView::Node(node) => match target {
            MemoryRelationshipTargetView::RepositoryNode { snapshot_id: bound, node_id, .. } => Some(bound)
                == snapshot_id && node_id == node,
            _ => false,
        },
        ContextSeedView::Path(wanted) => match target {
            MemoryRelationshipTargetView::RepositoryPath { path, snapshot_id: bound, .. } => path == wanted
                && snapshot_agrees(bound, snapshot_id),
            _ => false,
        },
        ContextSeedView::Symbol(wanted) => match target {
            MemoryRelationshipTargetView::RepositoryNode { snapshot_id: bound, semantic_key, .. } =>
                semantic_key == Some(wanted) && Some(bound) == snapshot_id,
            MemoryRelationshipTargetView::RepositorySymbol { semantic_key, snapshot_id: bound, .. } =>
                semantic_key == wanted && snapshot_agrees(bound, snapshot_id),
            _ => false,
        },
    }
}

fn same_snapshot(target: &SnapshotId, snapshot_id: &Option<SnapshotId>) -> (same: bool)
    ensures
        same == (Some(target.deep_view()) == snapshot_id.deep_view()),
{
    match snapshot_id {
        Some(snapshot_id) => target.same(snapshot_id),
        None => false,
    }
}

fn agrees(target: &Option<SnapshotId>, snapshot_id: &Option<SnapshotId>) -> (agrees: bool)
    ensures
        agrees == snapshot_agrees(target.deep_view(), snapshot_id.deep_view()),
{
    match target {
        Some(target) => same_snapshot(target, snapshot_id),
        None => true,
    }
}

/// Whether a repository seed is what a link points at in a snapshot. A link to a node is bound to
/// its snapshot; a link to a path or a symbol may be bound to none.
pub fn repository_seed_matches(
    seed: &ContextSeed,
    target: &MemoryRelationshipTarget,
    snapshot_id: &Option<SnapshotId>,
) -> (found: bool)
    ensures
        found == seed_meets_target(seed.deep_view(), target.deep_view(), snapshot_id.deep_view()),
{
    match seed {
        ContextSeed::Node(node) => match target {
            MemoryRelationshipTarget::RepositoryNode { snapshot_id: bound, node_id, .. } => same_snapshot(
                bound,
                snapshot_id,
            ) && node_id.same(node),
            _ => false,
        },
        ContextSeed::Path(wanted) => match target {
            MemoryRelationshipTarget::RepositoryPath { path, snapshot_id: bound, .. } => path.same(wanted)
                && agrees(bound, snapshot_id),
            _ => false,
        },
        ContextSeed::Symbol(wanted) => match target {
            MemoryRelationshipTarget::RepositoryNode { snapshot_id: bound, semantic_key, .. } => {
                (match semantic_key {
                    Some(key) => key.same(wanted),
                    None => false,
                }) && same_snapshot(bound, snapshot_id)
            },
            MemoryRelationshipTarget::RepositorySymbol { semantic_key, snapshot_id: bound, .. } =>
                semantic_key.same(wanted) && agrees(bound, snapshot_id),
            _ => false,
        },
    }
}

/// The repository seed that a link leads to in a snapshot.
pub open spec fn seed_from_target(
    target: MemoryRelationshipTargetView,
    snapshot_id: Option<Seq<char>>,
) -> Option<ContextSeedView> {
    match target {
        MemoryRelationshipTargetView::RepositoryNode { snapshot_id: bound, node_id, .. } => if Some(bound)
            == snapshot_id {
            Some(ContextSeedView::Node(node_id))
        } else {
            None
        },
        MemoryRelationshipTargetView::RepositoryPath { path, snapshot_id: bound, .. } =>
            if snapshot_agrees(bound, snapshot_id) {
            Some(ContextSeedView::Path(path))
        } else {
            None
        },
        MemoryRelationshipTargetView::RepositorySymbol { semantic_key, snapshot_id: bound, .. } =>
            if snapshot_agrees(bound, snapshot_id) {
            Some(ContextSeedView::Symbol(semantic_key))
        } else {
            None
        },
        _ => None,
    }
}

/// The repository seed that a link leads to in a snapshot.
pub fn repository_seed_from_target(
    target: &MemoryRelationshipTarget,
    snapshot_id: &Option<SnapshotId>,
) -> (seed: Option<ContextSeed>)
    ensures
        seed.deep_view() == seed_from_target(target.deep_view(), snapshot_id.deep_view()),
{
    match target {
        MemoryRelationshipTarget::RepositoryNode { snapshot_id: bound, node_id, .. } => if same_snapshot(
            bound,
            snapshot_id,
        ) {
            Some(ContextSeed::Node(node_id.copied()))
        } else {
            None
        },
        MemoryRelationshipTarget::RepositoryPath { path, snapshot_id: bound, .. } => if agrees(
            bound,
            snapshot_id,
        ) {
            Some(ContextSeed::Path(path.copied()))
        } else {
            None
        },
        MemoryRelationshipTarget::RepositorySymbol { semantic_key, snapshot_id: bound, .. } => if agrees(
            bound,
            snapshot_id,
        ) {
            Some(ContextSeed::Symbol(semantic_key.copied()))
        } else {
            None
        },
        _ => None,
    }
}

/// The seed that a link leads to leads back over that link.
pub proof fn links_lead_both_ways(
    target: MemoryRelationshipTargetView,
    snapshot_id: Option<Seq<char>>,
)
    ensures
        seed_from_target(target, snapshot_id) matches Some(seed) ==> seed_meets_target(
            seed,
            target,
            snapshot_id,
        ),
{
}

/// Whether a repository item is what a link points at.
pub open spec fn item_meets_target(
    item: ContextItemView,
    target: MemoryRelationshipTargetView,
) -> bool {
    match target {
        MemoryRelationshipTargetView::RepositoryNode { node_id, .. } => item.node_id == node_id,
        MemoryRelationshipTargetView::RepositoryPath { path, .. } => item.path == path,
        MemoryRelationshipTargetView::RepositorySymbol { semantic_key, .. } => item.semantic_key == Some(
            semantic_key,
        ),
        _ => false,
    }
}

/// Whether a repository item is what a link points at.
pub fn repository_item_matches(
    item: &ContextItem,
    target: &MemoryRelationshipTarget,
) -> (found: bool)
    ensures
        found == item_meets_target(item.deep_view(), target.deep_view()),
{
    match target {
        MemoryRelationshipTarget::RepositoryNode { node_id, .. } => item.node_id.same(node_id),
        MemoryRelationshipTarget::RepositoryPath { path, .. } => item.path.same(path),
        MemoryRelationshipTarget::RepositorySymbol {
            semantic_key,
            ..
        } => match &item.semantic_key {
            Some(key) => key.same(semantic_key),
            None => false,
        },
        _ => false,
    }
}

/// Repository seeds are ordered by their JSON texts.
impl Sortable for ContextSeed {
    open spec fn key(model: ContextSeedView) -> SortKey {
        text_key(<ContextSeed as ToJson>::json(model))
    }

    fn before(&self, other: &Self) -> (before: bool) {
        self.to_json().before(&other.to_json())
    }
}

impl Identified for ContextSeed {
    open spec fn identity(model: ContextSeedView) -> Seq<char> {
        <ContextSeed as ToJson>::json(model)
    }

    fn same_identity(&self, other: &Self) -> (same: bool) {
        self.to_json() == other.to_json()
    }
}

/// Memory seeds are ordered by their JSON texts.
impl Sortable for MemoryContextSeed {
    open spec fn key(model: MemoryContextSeedView) -> SortKey {
        text_key(<MemoryContextSeed as ToJson>::json(model))
    }

    fn before(&self, other: &Self) -> (before: bool) {
        self.to_json().before(&other.to_json())
    }
}

impl Identified for MemoryContextSeed {
    open spec fn identity(model: MemoryContextSeedView) -> Seq<char> {
        <MemoryContextSeed as ToJson>::json(model)
    }

    fn same_identity(&self, other: &Self) -> (same: bool) {
        self.to_json() == other.to_json()
    }
}

/// Records in their order and once each.
pub open spec fn distinct<T: Sortable + Identified>(records: Seq<T::V>) -> Seq<T::V> {
    deduplicated::<T>(sorted::<T>(records))
}

/// Records in their order and once each.
pub fn sort_and_dedup<T: Sortable + Identified>(records: Vec<T>) -> (result: Vec<T>)
    ensures
        result.deep_view() == distinct::<T>(records.deep_view()),
{
    let ordered = sort(records);
    dedup(&ordered)
}

}
