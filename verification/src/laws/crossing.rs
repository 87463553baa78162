//! Which links carry a question from one domain to the other.
use vstd::prelude::*;
use crate::domain::{MemoryRelationshipTargetView, MemoryRelationshipView, MemoryResolutionState};
use crate::federation::crossing::{
    any_holds_seed, links_in, links_to, links_to_all, sources_of, ways_out,
};
use crate::federation::seeds::{
    item_meets_target, memory_seeds, repository_seeds, seed_from_target, seed_meets_target,
};
use crate::federation::FederatedContextSeedView;
use crate::laws::lists::push_holds;
use crate::query::{MemoryContextPolicyView, MemoryContextResponseView, MemoryContextSeedView};
use crate::repository::{ContextItemView, ContextSeedView, EdgeDirection};

verus! {

/// Whether a policy lets a link among these be crossed at all.
pub open spec fn may_be_crossed(
    link: MemoryRelationshipView,
    links: Seq<MemoryRelationshipView>,
    policy: MemoryContextPolicyView,
) -> bool {
    &&& links.contains(link)
    &&& link.provenance.resolution == MemoryResolutionState::Resolved
    &&& policy.relationship_kinds == Seq::<crate::domain::MemoryRelationshipKind>::empty() || exists|i: int|
        0 <= i < policy.relationship_kinds.len() && policy.relationship_kinds[i] == link.kind
}

proof fn links_to_holds(
    seed: ContextSeedView,
    links: Seq<MemoryRelationshipView>,
    policy: MemoryContextPolicyView,
    snapshot_id: Option<Seq<char>>,
    link: MemoryRelationshipView,
)
    ensures
        links_to(seed, links, policy, snapshot_id).contains(link) == (may_be_crossed(link, links, policy)
            && seed_meets_target(seed, link.target, snapshot_id)),
    decreases links.len(),
{
    let found = links_to(seed, links, policy, snapshot_id);
    assert((policy.relationship_kinds.len() == 0) == (policy.relationship_kinds =~= Seq::empty()));
    if links.len() > 0 {
        let rest = links.drop_last();
        let last = links.last();
        links_to_holds(seed, rest, policy, snapshot_id, link);
        let before = links_to(seed, rest, policy, snapshot_id);
        assert(links.contains(link) == (rest.contains(link) || link == last)) by {
            if links.contains(link) {
                let i = choose|i: int| 0 <= i < links.len() && links[i] == link;
                if i < rest.len() {
                    assert(rest[i] == link);
                }
            }
            if rest.contains(link) {
                let i = choose|i: int| 0 <= i < rest.len() && rest[i] == link;
                assert(links[i] == link);
            }
            assert(links[links.len() - 1] == last);
        }
        if found.contains(link) {
            let i = choose|i: int| 0 <= i < found.len() && found[i] == link;
            if i < before.len() {
                assert(before[i] == link);
            }
        }
        if before.contains(link) {
            let i = choose|i: int| 0 <= i < before.len() && before[i] == link;
            assert(found[i] == link);
        }
        if link == last && found.len() > before.len() {
            assert(found[before.len() as int] == link);
        }
    }
}

proof fn links_to_all_holds(
    seeds: Seq<ContextSeedView>,
    links: Seq<MemoryRelationshipView>,
    policy: MemoryContextPolicyView,
    snapshot_id: Option<Seq<char>>,
    link: MemoryRelationshipView,
)
    ensures
        links_to_all(seeds, links, policy, snapshot_id).contains(link) == exists|i: int|
            0 <= i < seeds.len() && links_to(#[trigger] seeds[i], links, policy, snapshot_id).contains(link),
    decreases seeds.len(),
{
    let found = links_to_all(seeds, links, policy, snapshot_id);
    if seeds.len() > 0 {
        let rest = seeds.drop_last();
        links_to_all_holds(rest, links, policy, snapshot_id, link);
        let before = links_to_all(rest, links, policy, snapshot_id);
        let new = links_to(seeds.last(), links, policy, snapshot_id);
        assert(found == before + new);
        if found.contains(link) {
            let i = choose|i: int| 0 <= i < found.len() && found[i] == link;
            if i < before.len() {
                assert(before[i] == link);
                let j = choose|j: int|
                    0 <= j < rest.len() && links_to(#[trigger] rest[j], links, policy, snapshot_id).contains(link);
                assert(seeds[j] == rest[j]);
            } else {
                assert(new[i - before.len()] == link);
                assert(seeds[seeds.len() - 1] == seeds.last());
            }
        }
        if exists|i: int|
            0 <= i < seeds.len() && links_to(#[trigger] seeds[i], links, policy, snapshot_id).contains(link) {
            let i = choose|i: int|
                0 <= i < seeds.len() && links_to(#[trigger] seeds[i], links, policy, snapshot_id).contains(link);
            if i < rest.len() {
                assert(rest[i] == seeds[i]);
                let j = choose|j: int| 0 <= j < before.len() && before[j] == link;
                assert(found[j] == link);
            } else {
                let j = choose|j: int| 0 <= j < new.len() && new[j] == link;
                assert(found[before.len() + j] == link);
            }
        }
    }
}

/// The links crossed in from several seeds are those crossed in from one of them.
pub proof fn seeds_cross_on_their_own(
    seeds: Seq<ContextSeedView>,
    links: Seq<MemoryRelationshipView>,
    policy: MemoryContextPolicyView,
    snapshot_id: Option<Seq<char>>,
    link: MemoryRelationshipView,
)
    ensures
        links_in(seeds, links, policy, snapshot_id).contains(link) == exists|i: int|
            0 <= i < seeds.len() && links_in(seq![#[trigger] seeds[i]], links, policy, snapshot_id).contains(
                link,
            ),
{
    links_to_all_holds(seeds, links, policy, snapshot_id, link);
    assert forall|i: int| 0 <= i < seeds.len() implies links_to_all(
        seq![#[trigger] seeds[i]],
        links,
        policy,
        snapshot_id,
    ).contains(link) == links_to(seeds[i], links, policy, snapshot_id).contains(link) by {
        links_to_all_holds(seq![seeds[i]], links, policy, snapshot_id, link);
        if links_to(seeds[i], links, policy, snapshot_id).contains(link) {
            assert(seq![seeds[i]][0] == seeds[i]);
        }
    }
}

proof fn one_seed_crosses(
    seed: ContextSeedView,
    links: Seq<MemoryRelationshipView>,
    policy: MemoryContextPolicyView,
    snapshot_id: Option<Seq<char>>,
    link: MemoryRelationshipView,
)
    ensures
        links_in(seq![seed], links, policy, snapshot_id).contains(link) == (policy.direction
            != EdgeDirection::Outgoing && may_be_crossed(link, links, policy) && seed_meets_target(
            seed,
            link.target,
            snapshot_id,
        )),
{
    links_to_all_holds(seq![seed], links, policy, snapshot_id, link);
    links_to_holds(seed, links, policy, snapshot_id, link);
    assert(seq![seed][0] == seed);
}

/// A node of the asked snapshot is crossed in from over exactly those links that end at this node of
/// this snapshot.
pub proof fn nodes_are_crossed_in_from_over_their_links(
    node: Seq<char>,
    snapshot: Seq<char>,
    links: Seq<MemoryRelationshipView>,
    policy: MemoryContextPolicyView,
    link: MemoryRelationshipView,
)
    ensures
        links_in(seq![ContextSeedView::Node(node)], links, policy, Some(snapshot)).contains(link) == {
            &&& policy.direction == EdgeDirection::Incoming || policy.direction == EdgeDirection::Both
            &&& may_be_crossed(link, links, policy)
            &&& link.target matches MemoryRelationshipTargetView::RepositoryNode {
                snapshot_id: bound,
                node_id,
                ..
            } && bound == snapshot && node_id == node
        },
{
    one_seed_crosses(ContextSeedView::Node(node), links, policy, Some(snapshot), link);
}

/// A path is crossed in from over exactly those links that end at this path, in the asked snapshot or
/// in none.
pub proof fn paths_are_crossed_in_from_over_their_links(
    wanted: Seq<char>,
    snapshot: Seq<char>,
    links: Seq<MemoryRelationshipView>,
    policy: MemoryContextPolicyView,
    link: MemoryRelationshipView,
)
    ensures
        links_in(seq![ContextSeedView::Path(wanted)], links, policy, Some(snapshot)).contains(link) == {
            &&& policy.direction == EdgeDirection::Incoming || policy.direction == EdgeDirection::Both
            &&& may_be_crossed(link, links, policy)
            &&& link.target matches MemoryRelationshipTargetView::RepositoryPath {
                path,
                snapshot_id: bound,
                ..
            } && path == wanted && (bound == None::<Seq<char>> || bound == Some(snapshot))
        },
{
    one_seed_crosses(ContextSeedView::Path(wanted), links, policy, Some(snapshot), link);
}

/// A symbol is crossed in from over every link to a node of the asked snapshot that carries its key,
/// whichever node that is, and over every link to the symbol itself, in that snapshot or in none.
pub proof fn symbols_are_crossed_in_from_over_their_nodes(
    key: Seq<char>,
    snapshot: Seq<char>,
    links: Seq<MemoryRelationshipView>,
    policy: MemoryContextPolicyView,
    link: MemoryRelationshipView,
)
    requires
        may_be_crossed(link, links, policy),
        policy.direction == EdgeDirection::Incoming || policy.direction == EdgeDirection::Both,
    ensures
        link.target matches MemoryRelationshipTargetView::RepositoryNode {
            snapshot_id: bound,
            semantic_key,
            ..
        } ==> links_in(seq![ContextSeedView::Symbol(key)], links, policy, Some(snapshot)).contains(link) == (
        semantic_key == Some(key) && bound == snapshot),
        link.target matches MemoryRelationshipTargetView::RepositorySymbol {
            semantic_key,
            snapshot_id: bound,
            ..
        } ==> links_in(seq![ContextSeedView::Symbol(key)], links, policy, Some(snapshot)).contains(link) == (
        semantic_key == key && (bound == None::<Seq<char>> || bound == Some(snapshot))),
        link.target is MemoryEntity || link.target is RepositoryPath || link.target is Task || link.target is Run
            || link.target is Milestone ==> !links_in(
            seq![ContextSeedView::Symbol(key)],
            links,
            policy,
            Some(snapshot),
        ).contains(link),
{
    one_seed_crosses(ContextSeedView::Symbol(key), links, policy, Some(snapshot), link);
}

/// Where the asked snapshot is not known, nothing is crossed in over a link that names a snapshot, and
/// a link that names none is crossed in from its path or its symbol.
pub proof fn without_a_snapshot_only_free_links_are_crossed(
    seed: ContextSeedView,
    links: Seq<MemoryRelationshipView>,
    policy: MemoryContextPolicyView,
    link: MemoryRelationshipView,
)
    requires
        may_be_crossed(link, links, policy),
        policy.direction == EdgeDirection::Incoming || policy.direction == EdgeDirection::Both,
    ensures
        link.target is RepositoryNode ==> !links_in(seq![seed], links, policy, None).contains(link),
        link.target matches MemoryRelationshipTargetView::RepositoryPath { path, snapshot_id: bound, .. }
            ==> links_in(seq![seed], links, policy, None).contains(link) == (seed == ContextSeedView::Path(path)
            && bound is None),
        link.target matches MemoryRelationshipTargetView::RepositorySymbol {
            semantic_key,
            snapshot_id: bound,
            ..
        } ==> links_in(seq![seed], links, policy, None).contains(link) == (seed == ContextSeedView::Symbol(
            semantic_key,
        ) && bound is None),
{
    one_seed_crosses(seed, links, policy, None, link);
}

/// A policy that only follows links outwards crosses none inwards, and one that only follows them
/// inwards crosses none outwards.
pub proof fn directions_are_kept_to(
    seeds: Seq<ContextSeedView>,
    responses: Seq<(MemoryContextResponseView, u32)>,
    links: Seq<MemoryRelationshipView>,
    policy: MemoryContextPolicyView,
    snapshot_id: Option<Seq<char>>,
)
    ensures
        policy.direction == EdgeDirection::Outgoing ==> links_in(seeds, links, policy, snapshot_id).len() == 0,
        policy.direction == EdgeDirection::Incoming ==> ways_out(responses, links, policy, snapshot_id).len()
            == 0,
{
}

/// Where a link is crossed in, the memory is asked about the entity at which the link starts.
pub proof fn crossed_links_start_at_the_entities_asked_for(
    links: Seq<MemoryRelationshipView>,
    entity: Seq<char>,
)
    ensures
        sources_of(links).contains(MemoryContextSeedView::Entity(entity)) == exists|i: int|
            0 <= i < links.len() && (#[trigger] links[i]).source == entity,
        sources_of(links).len() == links.len(),
{
    let sources = sources_of(links);
    if sources.contains(MemoryContextSeedView::Entity(entity)) {
        let i = choose|i: int| 0 <= i < sources.len() && sources[i] == MemoryContextSeedView::Entity(entity);
        assert(links[i].source == entity);
    }
    if exists|i: int| 0 <= i < links.len() && (#[trigger] links[i]).source == entity {
        let i = choose|i: int| 0 <= i < links.len() && (#[trigger] links[i]).source == entity;
        assert(sources[i] == MemoryContextSeedView::Entity(entity));
    }
}

/// The place to which a link out of a seed leads: its node, its path or its symbol, where it ends in
/// the asked snapshot or, but for a node, in none.
pub open spec fn leads_to(
    target: MemoryRelationshipTargetView,
    snapshot: Seq<char>,
    end: ContextSeedView,
) -> bool {
    match end {
        ContextSeedView::Node(node) => target matches MemoryRelationshipTargetView::RepositoryNode {
            snapshot_id,
            node_id,
            ..
        } && snapshot_id == snapshot && node_id == node,
        ContextSeedView::Path(wanted) => target matches MemoryRelationshipTargetView::RepositoryPath {
            path,
            snapshot_id,
            ..
        } && path == wanted && (snapshot_id is Some ==> snapshot_id->0 == snapshot),
        ContextSeedView::Symbol(wanted) => target matches MemoryRelationshipTargetView::RepositorySymbol {
            semantic_key,
            snapshot_id,
            ..
        } && semantic_key == wanted && (snapshot_id is Some ==> snapshot_id->0 == snapshot),
    }
}

/// Every link of the policy that starts at a seed of the memory and ends in the repository is crossed
/// out, to its end, and no other.
pub proof fn links_of_seeds_are_crossed_out(
    responses: Seq<(MemoryContextResponseView, u32)>,
    links: Seq<MemoryRelationshipView>,
    policy: MemoryContextPolicyView,
    snapshot: Seq<char>,
    link: MemoryRelationshipView,
    end: ContextSeedView,
)
    ensures
        ways_out(responses, links, policy, Some(snapshot)).contains((end, link)) == {
            &&& policy.direction == EdgeDirection::Outgoing || policy.direction == EdgeDirection::Both
            &&& may_be_crossed(link, links, policy)
            &&& exists|i: int, j: int|
                0 <= i < responses.len() && 0 <= j < responses[i].0.items.len() && (
                #[trigger] responses[i].0.items[j]).entity.id == link.source
                    && responses[i].0.items[j].selection_reasons.contains("context.seed"@)
            &&& leads_to(link.target, snapshot, end)
        },
    decreases links.len(),
{
    let found = ways_out(responses, links, policy, Some(snapshot));
    let way = (end, link);
    assert((policy.relationship_kinds.len() == 0) == (policy.relationship_kinds =~= Seq::empty()));
    assert(any_holds_seed(responses, link.source) == exists|i: int, j: int|
        0 <= i < responses.len() && 0 <= j < responses[i].0.items.len() && (
        #[trigger] responses[i].0.items[j]).entity.id == link.source
            && responses[i].0.items[j].selection_reasons.contains("context.seed"@)) by {
        if any_holds_seed(responses, link.source) {
            let i = choose|i: int|
                0 <= i < responses.len() && crate::federation::crossing::holds_seed(
                    (#[trigger] responses[i]).0,
                    link.source,
                );
            let j = choose|j: int|
                0 <= j < responses[i].0.items.len() && (#[trigger] responses[i].0.items[j]).entity.id
                    == link.source && responses[i].0.items[j].selection_reasons.contains("context.seed"@);
            assert(responses[i].0.items[j].entity.id == link.source);
        }
        if exists|i: int, j: int|
            0 <= i < responses.len() && 0 <= j < responses[i].0.items.len() && (
            #[trigger] responses[i].0.items[j]).entity.id == link.source
                && responses[i].0.items[j].selection_reasons.contains("context.seed"@) {
            let (i, j) = choose|i: int, j: int|
                0 <= i < responses.len() && 0 <= j < responses[i].0.items.len() && (
                #[trigger] responses[i].0.items[j]).entity.id == link.source
                    && responses[i].0.items[j].selection_reasons.contains("context.seed"@);
            assert(crate::federation::crossing::holds_seed(responses[i].0, link.source));
        }
    }
    if links.len() > 0 && policy.direction != EdgeDirection::Incoming {
        let rest = links.drop_last();
        let last = links.last();
        links_of_seeds_are_crossed_out(responses, rest, policy, snapshot, link, end);
        let before = ways_out(responses, rest, policy, Some(snapshot));
        assert(links.contains(link) == (rest.contains(link) || link == last)) by {
            if links.contains(link) {
                let i = choose|i: int| 0 <= i < links.len() && links[i] == link;
                if i < rest.len() {
                    assert(rest[i] == link);
                }
            }
            if rest.contains(link) {
                let i = choose|i: int| 0 <= i < rest.len() && rest[i] == link;
                assert(links[i] == link);
            }
            assert(links[links.len() - 1] == last);
        }
        assert(leads_to(link.target, snapshot, end) == (seed_from_target(link.target, Some(snapshot)) == Some(
            end,
        )));
        if found.contains(way) {
            let i = choose|i: int| 0 <= i < found.len() && found[i] == way;
            if i < before.len() {
                assert(before[i] == way);
            }
        }
        if before.contains(way) {
            let i = choose|i: int| 0 <= i < before.len() && before[i] == way;
            assert(found[i] == way);
        }
        if link == last && found.len() > before.len() {
            assert(found[before.len() as int].1 == link);
        }
    }
}

/// Each seed of a request is asked of its own domain as what it names.
pub proof fn seeds_are_asked_of_their_domain(
    seeds: Seq<FederatedContextSeedView>,
    repository: ContextSeedView,
    id: Seq<char>,
)
    ensures
        repository_seeds(seeds).contains(repository) == seeds.contains(
            FederatedContextSeedView::Repository(repository),
        ),
        memory_seeds(seeds).contains(MemoryContextSeedView::Entity(id)) == seeds.contains(
            FederatedContextSeedView::MemoryEntity(id),
        ),
        memory_seeds(seeds).contains(MemoryContextSeedView::Milestone(id)) == seeds.contains(
            FederatedContextSeedView::Milestone(id),
        ),
        memory_seeds(seeds).contains(MemoryContextSeedView::Task(id)) == seeds.contains(
            FederatedContextSeedView::Task(id),
        ),
        memory_seeds(seeds).contains(MemoryContextSeedView::Run(id)) == seeds.contains(
            FederatedContextSeedView::Run(id),
        ),
    decreases seeds.len(),
{
    if seeds.len() > 0 {
        let rest = seeds.drop_last();
        seeds_are_asked_of_their_domain(rest, repository, id);
        assert(seeds =~= rest.push(seeds.last()));
        push_holds(rest, seeds.last(), FederatedContextSeedView::Repository(repository));
        push_holds(rest, seeds.last(), FederatedContextSeedView::MemoryEntity(id));
        push_holds(rest, seeds.last(), FederatedContextSeedView::Milestone(id));
        push_holds(rest, seeds.last(), FederatedContextSeedView::Task(id));
        push_holds(rest, seeds.last(), FederatedContextSeedView::Run(id));
        if let FederatedContextSeedView::Repository(seed) = seeds.last() {
            push_holds(repository_seeds(rest), seed, repository);
        } else {
            let new = memory_seeds(seeds).last();
            push_holds(memory_seeds(rest), new, MemoryContextSeedView::Entity(id));
            push_holds(memory_seeds(rest), new, MemoryContextSeedView::Milestone(id));
            push_holds(memory_seeds(rest), new, MemoryContextSeedView::Task(id));
            push_holds(memory_seeds(rest), new, MemoryContextSeedView::Run(id));
        }
    }
}

/// An item of the repository is the end of a link to its own node, to its own path or to the symbol
/// whose key it carries, and of no other link.
pub proof fn items_are_the_ends_of_their_links(item: ContextItemView, target: MemoryRelationshipTargetView)
    ensures
        item_meets_target(item, target) == {
            ||| (target matches MemoryRelationshipTargetView::RepositoryNode { node_id, .. } && node_id
                == item.node_id)
            ||| (target matches MemoryRelationshipTargetView::RepositoryPath { path, .. } && path == item.path)
            ||| (target matches MemoryRelationshipTargetView::RepositorySymbol { semantic_key, .. }
                && item.semantic_key == Some(semantic_key))
        },
{
}

}
