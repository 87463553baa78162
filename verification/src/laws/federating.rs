//! How the answers of both domains become one.
use vstd::prelude::*;
use crate::budget::EffectiveBudget;
use crate::diagnostics::MemoryDiagnosticCode;
use crate::domain::{
    MemoryRelationship, MemoryRelationshipTargetView, MemoryRelationshipView, MemoryRepositoryLinkSetView,
};
use crate::federation::asking::{
    exact_items, links_found, memory_seeds_only, repository_seeds_only, seed_items,
};
use crate::federation::collecting::{context_findings, shallower, ContextFindingsView};
use crate::federation::context::{
    all_items, memory_item, memory_items, repository_item, repository_items, shown, starting, touching,
};
use crate::federation::crossing::{both_known, links_in, Said};
use crate::federation::gathering::{gather, DomainPage};
use crate::federation::search::wanted;
use crate::federation::seeds::repository_seeds;
use crate::federation::state::{memory_reason, repository_error, stronger};
use crate::federation::{
    ContextDomain, FederatedContextItem, FederatedContextItemView, FederatedContextRequestView,
    FederatedSearchResult, FederatedSearchResultView, FederatedTargetView,
};
use crate::laws::lists::{deduplicated_holds, push_holds, sorted_holds, sum_holds};
use crate::query::{
    MemoryContextItemView, MemoryContextResponseView, MemoryQueryErrorView, MemoryTruncationReason,
};
use crate::repository::{
    ContextItemView, ContextResponseView, ContextSelectionKind, ContextSnippetView, QueryErrorCode, TruncationReason,
};
use crate::scope::ReadFailure;
use crate::sort::{deduplicated, distinct_keys, is_sorted, sorted, Identified, Sortable};

verus! {

/// Results stand in the order of their scores, the greatest first; of two with one score one of the
/// repository stands first.
pub proof fn results_stand_in_the_order_of_their_scores(
    results: Seq<FederatedSearchResultView>,
    i: int,
    j: int,
)
    requires
        is_sorted::<FederatedSearchResult>(results),
        0 <= i < j < results.len(),
    ensures
        ({
            let first = match results[i] {
                FederatedSearchResultView::Repository(hit) => hit.score.rank,
                FederatedSearchResultView::Memory(hit) => hit.score.rank,
            };
            let second = match results[j] {
                FederatedSearchResultView::Repository(hit) => hit.score.rank,
                FederatedSearchResultView::Memory(hit) => hit.score.rank,
            };
            &&& first >= second
            &&& first == second && results[i] is Memory ==> results[j] is Memory
        }),
{
}

/// Items stand with the seeds first, and among the seeds and the others with those of the repository
/// first.
pub proof fn seeds_stand_before_what_they_lead_to(items: Seq<FederatedContextItemView>, i: int, j: int)
    requires
        is_sorted::<FederatedContextItem>(items),
        0 <= i < j < items.len(),
    ensures
        is_a_seed(items[j]) ==> is_a_seed(items[i]),
        is_a_seed(items[j]) == is_a_seed(items[i]) && items[i] is Memory ==> items[j] is Memory,
{
    seeds_say_so(items[i]);
    seeds_say_so(items[j]);
}

/// Whether an item says that it is a seed.
pub open spec fn is_a_seed(item: FederatedContextItemView) -> bool {
    match item {
        FederatedContextItemView::Repository(item) => exists|i: int|
            0 <= i < item.selection_reasons.len() && (#[trigger] item.selection_reasons[i]).kind
                == ContextSelectionKind::ExactSeed,
        FederatedContextItemView::Memory(item) => exists|i: int|
            0 <= i < item.selection_reasons.len() && #[trigger] item.selection_reasons[i] == "context.seed"@,
    }
}

proof fn seeds_say_so(item: FederatedContextItemView)
    ensures
        crate::federation::state::is_seed(item) == is_a_seed(item),
{
}

proof fn memory_items_hold(
    answers: Seq<(MemoryContextResponseView, u32)>,
    links: Seq<MemoryRelationshipView>,
    item: FederatedContextItemView,
)
    ensures
        memory_items(answers, links).contains(item) == exists|a: int, i: int|
            0 <= a < answers.len() && 0 <= i < answers[a].0.items.len() && item == memory_item(
                #[trigger] answers[a].0.items[i],
                links,
            ),
    decreases answers.len(),
{
    if answers.len() > 0 {
        let rest = answers.drop_last();
        let last = answers.last().0.items;
        memory_items_hold(rest, links, item);
        let new = last.map_values(|item: MemoryContextItemView| memory_item(item, links));
        sum_holds(memory_items(rest, links), new, item);
        if memory_items(rest, links).contains(item) {
            let (a, i) = choose|a: int, i: int|
                0 <= a < rest.len() && 0 <= i < rest[a].0.items.len() && item == memory_item(
                    #[trigger] rest[a].0.items[i],
                    links,
                );
            assert(answers[a].0.items[i] == rest[a].0.items[i]);
        }
        if new.contains(item) {
            let i = choose|i: int| 0 <= i < new.len() && new[i] == item;
            assert(answers[answers.len() - 1].0.items[i] == last[i]);
        }
        if exists|a: int, i: int|
            0 <= a < answers.len() && 0 <= i < answers[a].0.items.len() && item == memory_item(
                #[trigger] answers[a].0.items[i],
                links,
            ) {
            let (a, i) = choose|a: int, i: int|
                0 <= a < answers.len() && 0 <= i < answers[a].0.items.len() && item == memory_item(
                    #[trigger] answers[a].0.items[i],
                    links,
                );
            if a < rest.len() {
                assert(rest[a].0.items[i] == answers[a].0.items[i]);
            } else {
                assert(new[i] == item);
            }
        }
    }
}

proof fn repository_items_hold(
    answers: Seq<(ContextResponseView, u32)>,
    links: Seq<MemoryRelationshipView>,
    item: FederatedContextItemView,
)
    ensures
        repository_items(answers, links).contains(item) == exists|a: int, i: int|
            0 <= a < answers.len() && 0 <= i < answers[a].0.items.len() && item == repository_item(
                #[trigger] answers[a].0.items[i],
                links,
            ),
    decreases answers.len(),
{
    if answers.len() > 0 {
        let rest = answers.drop_last();
        let last = answers.last().0.items;
        repository_items_hold(rest, links, item);
        let new = last.map_values(|item: ContextItemView| repository_item(item, links));
        sum_holds(repository_items(rest, links), new, item);
        if repository_items(rest, links).contains(item) {
            let (a, i) = choose|a: int, i: int|
                0 <= a < rest.len() && 0 <= i < rest[a].0.items.len() && item == repository_item(
                    #[trigger] rest[a].0.items[i],
                    links,
                );
            assert(answers[a].0.items[i] == rest[a].0.items[i]);
        }
        if new.contains(item) {
            let i = choose|i: int| 0 <= i < new.len() && new[i] == item;
            assert(answers[answers.len() - 1].0.items[i] == last[i]);
        }
        if exists|a: int, i: int|
            0 <= a < answers.len() && 0 <= i < answers[a].0.items.len() && item == repository_item(
                #[trigger] answers[a].0.items[i],
                links,
            ) {
            let (a, i) = choose|a: int, i: int|
                0 <= a < answers.len() && 0 <= i < answers[a].0.items.len() && item == repository_item(
                    #[trigger] answers[a].0.items[i],
                    links,
                );
            if a < rest.len() {
                assert(rest[a].0.items[i] == answers[a].0.items[i]);
            } else {
                assert(new[i] == item);
            }
        }
    }
}

proof fn all_items_hold(findings: ContextFindingsView, item: FederatedContextItemView)
    ensures
        all_items(findings).contains(item) ==> repository_items(findings.repository, findings.links).contains(item)
            || memory_items(findings.memory, findings.links).contains(item),
        repository_items(findings.repository, findings.links).contains(item) || memory_items(
            findings.memory,
            findings.links,
        ).contains(item) ==> exists|k: int|
            0 <= k < all_items(findings).len() && FederatedContextItem::identity(#[trigger] all_items(findings)[k])
                == FederatedContextItem::identity(item),
{
    let both = repository_items(findings.repository, findings.links) + memory_items(
        findings.memory,
        findings.links,
    );
    sum_holds(
        repository_items(findings.repository, findings.links),
        memory_items(findings.memory, findings.links),
        item,
    );
    sorted_holds::<FederatedContextItem>(both, item);
    let ordered = sorted::<FederatedContextItem>(both);
    deduplicated_holds::<FederatedContextItem>(ordered, item);
    if ordered.contains(item) {
        let kept = deduplicated::<FederatedContextItem>(ordered);
        let k = choose|k: int|
            0 <= k < kept.len() && FederatedContextItem::identity(#[trigger] kept[k]) == FederatedContextItem::identity(
                item,
            );
        assert(all_items(findings)[k] == kept[k]);
    }
}

proof fn keys_tell_domains_apart(left: FederatedContextItemView, right: FederatedContextItemView)
    requires
        FederatedContextItem::identity(left) == FederatedContextItem::identity(right),
    ensures
        left is Memory == right is Memory,
        left is Memory ==> left->Memory_0.entity.id == right->Memory_0.entity.id,
        left is Repository ==> left->Repository_0.node_id == right->Repository_0.node_id,
{
    reveal_strlit("repository:");
    reveal_strlit("memory:");
    let one = crate::federation::state::item_key(left);
    let other = crate::federation::state::item_key(right);
    assert(one[0] == other[0]);
    match left {
        FederatedContextItemView::Memory(item) => {
            assert(one[0] == 'm');
            assert(one.skip("memory:"@.len() as int) =~= item.entity.id);
            if let FederatedContextItemView::Memory(found) = right {
                assert(other.skip("memory:"@.len() as int) =~= found.entity.id);
            } else {
                assert(other[0] == 'r');
            }
        },
        FederatedContextItemView::Repository(item) => {
            assert(one[0] == 'r');
            assert(one.skip("repository:"@.len() as int) =~= item.node_id);
            if let FederatedContextItemView::Repository(found) = right {
                assert(other.skip("repository:"@.len() as int) =~= found.node_id);
            } else {
                assert(other[0] == 'm');
            }
        },
    }
}

/// Every entity and every node that a domain answers is among the items of the whole.
pub proof fn items_of_both_domains_are_kept(findings: ContextFindingsView, a: int, i: int)
    ensures
        0 <= a < findings.memory.len() && 0 <= i < findings.memory[a].0.items.len() ==> exists|k: int|
            0 <= k < all_items(findings).len() && (#[trigger] all_items(findings)[k]) is Memory && all_items(
                findings,
            )[k]->Memory_0.entity.id == findings.memory[a].0.items[i].entity.id,
        0 <= a < findings.repository.len() && 0 <= i < findings.repository[a].0.items.len() ==> exists|k: int|
            0 <= k < all_items(findings).len() && (#[trigger] all_items(findings)[k]) is Repository && all_items(
                findings,
            )[k]->Repository_0.node_id == findings.repository[a].0.items[i].node_id,
{
    if 0 <= a < findings.memory.len() && 0 <= i < findings.memory[a].0.items.len() {
        let item = memory_item(findings.memory[a].0.items[i], findings.links);
        memory_items_hold(findings.memory, findings.links, item);
        all_items_hold(findings, item);
        let k = choose|k: int|
            0 <= k < all_items(findings).len() && FederatedContextItem::identity(#[trigger] all_items(findings)[k])
                == FederatedContextItem::identity(item);
        keys_tell_domains_apart(all_items(findings)[k], item);
    }
    if 0 <= a < findings.repository.len() && 0 <= i < findings.repository[a].0.items.len() {
        let item = repository_item(findings.repository[a].0.items[i], findings.links);
        repository_items_hold(findings.repository, findings.links, item);
        all_items_hold(findings, item);
        let k = choose|k: int|
            0 <= k < all_items(findings).len() && FederatedContextItem::identity(#[trigger] all_items(findings)[k])
                == FederatedContextItem::identity(item);
        keys_tell_domains_apart(all_items(findings)[k], item);
    }
}

/// An item of the whole is one that a domain answered, unchanged but for its reasons: an entity at which
/// a crossed link starts says that it is linked to the repository, and a node, a path or a symbol at which
/// one ends says that a relationship leads to it; and what no crossed link joins says nothing more.
pub proof fn items_say_that_they_are_linked(findings: ContextFindingsView, k: int)
    requires
        0 <= k < all_items(findings).len(),
    ensures
        all_items(findings)[k] matches FederatedContextItemView::Memory(item) ==> {
            &&& exists|a: int, i: int|
                0 <= a < findings.memory.len() && 0 <= i < findings.memory[a].0.items.len() && (
                #[trigger] findings.memory[a].0.items[i]).entity == item.entity && findings.memory[a].0.items[i].snippet
                    == item.snippet && (forall|reason: Seq<char>|
                    findings.memory[a].0.items[i].selection_reasons.contains(reason)
                        ==> #[trigger] item.selection_reasons.contains(reason)) && ((forall|l: int|
                    0 <= l < findings.links.len() ==> (#[trigger] findings.links[l]).source != item.entity.id)
                    ==> item.selection_reasons == findings.memory[a].0.items[i].selection_reasons)
            &&& (exists|l: int|
                0 <= l < findings.links.len() && (#[trigger] findings.links[l]).source == item.entity.id)
                ==> item.selection_reasons.contains("context.repositorylink"@)
        },
        all_items(findings)[k] matches FederatedContextItemView::Repository(item) ==> {
            &&& exists|a: int, i: int|
                0 <= a < findings.repository.len() && 0 <= i < findings.repository[a].0.items.len() && (
                #[trigger] findings.repository[a].0.items[i]).node_id == item.node_id
                    && findings.repository[a].0.items[i].path == item.path
                    && findings.repository[a].0.items[i].semantic_key == item.semantic_key
            &&& (exists|l: int|
                0 <= l < findings.links.len() && crate::federation::seeds::item_meets_target(
                    item,
                    (#[trigger] findings.links[l]).target,
                )) ==> exists|r: int|
                0 <= r < item.selection_reasons.len() && (#[trigger] item.selection_reasons[r]).kind
                    == ContextSelectionKind::Relationship
        },
{
    let found = all_items(findings)[k];
    assert(all_items(findings).contains(found));
    all_items_hold(findings, found);
    memory_items_hold(findings.memory, findings.links, found);
    repository_items_hold(findings.repository, findings.links, found);
    match found {
        FederatedContextItemView::Memory(item) => {
            let (a, i) = choose|a: int, i: int|
                0 <= a < findings.memory.len() && 0 <= i < findings.memory[a].0.items.len() && found == memory_item(
                    #[trigger] findings.memory[a].0.items[i],
                    findings.links,
                );
            let own = findings.memory[a].0.items[i];
            assert(own.entity == item.entity);
            if crate::federation::context::is_linked_from(findings.links, own.entity.id) {
                let reasons = own.selection_reasons.push("context.repositorylink"@);
                assert(item.selection_reasons == deduplicated::<MemoryDiagnosticCode>(
                    sorted::<MemoryDiagnosticCode>(reasons),
                ));
                assert forall|reason: Seq<char>| own.selection_reasons.contains(reason) || reason
                    == "context.repositorylink"@ implies #[trigger] item.selection_reasons.contains(reason) by {
                    push_holds(own.selection_reasons, "context.repositorylink"@, reason);
                    reasons_are_kept(reasons, reason);
                }
                assert(item.selection_reasons.contains("context.repositorylink"@));
            }
        },
        FederatedContextItemView::Repository(item) => {
            let (a, i) = choose|a: int, i: int|
                0 <= a < findings.repository.len() && 0 <= i < findings.repository[a].0.items.len() && found
                    == repository_item(#[trigger] findings.repository[a].0.items[i], findings.links);
            let own = findings.repository[a].0.items[i];
            assert(own.node_id == item.node_id);
            if crate::federation::context::is_linked_to(findings.links, own) {
                let last = item.selection_reasons.len() - 1;
                assert(item.selection_reasons[last].kind == ContextSelectionKind::Relationship);
            } else {
                assert(item == own);
            }
        },
    }
}

proof fn reasons_are_kept(reasons: Seq<Seq<char>>, reason: Seq<char>)
    requires
        reasons.contains(reason),
    ensures
        deduplicated::<MemoryDiagnosticCode>(sorted::<MemoryDiagnosticCode>(reasons)).contains(reason),
{
    sorted_holds::<MemoryDiagnosticCode>(reasons, reason);
    let ordered = sorted::<MemoryDiagnosticCode>(reasons);
    deduplicated_holds::<MemoryDiagnosticCode>(ordered, reason);
    let kept = deduplicated::<MemoryDiagnosticCode>(ordered);
    let i = choose|i: int|
        0 <= i < kept.len() && MemoryDiagnosticCode::identity(#[trigger] kept[i]) == MemoryDiagnosticCode::identity(
            reason,
        );
    assert(kept[i] == reason);
}

/// Whether some items return an entity of the memory.
pub open spec fn holds_entity(items: Seq<FederatedContextItemView>, id: Seq<char>) -> bool {
    exists|i: int|
        0 <= i < items.len() && (#[trigger] items[i] matches FederatedContextItemView::Memory(item) && item.entity.id
            == id)
}

proof fn entities_are_held(items: Seq<FederatedContextItemView>, id: Seq<char>)
    ensures
        crate::federation::context::returns_entity(items, id) == holds_entity(items, id),
{
    if crate::federation::context::returns_entity(items, id) {
        let i = choose|i: int|
            0 <= i < items.len() && (#[trigger] items[i]) is Memory && items[i]->Memory_0.entity.id == id;
        assert(items[i] matches FederatedContextItemView::Memory(item) && item.entity.id == id);
    }
    if holds_entity(items, id) {
        let i = choose|i: int|
            0 <= i < items.len() && (#[trigger] items[i] matches FederatedContextItemView::Memory(item)
                && item.entity.id == id);
        assert(items[i] is Memory && items[i]->Memory_0.entity.id == id);
    }
}

/// A relationship of the memory stands beside the items exactly where one of its ends is among them, and a
/// crossed link exactly where the entity at which it starts is.
pub proof fn relationships_stand_beside_their_ends(
    relationships: Seq<MemoryRelationshipView>,
    items: Seq<FederatedContextItemView>,
    relationship: MemoryRelationshipView,
)
    ensures
        touching(relationships, items).contains(relationship) == (relationships.contains(relationship) && (
        holds_entity(items, relationship.source) || (
        relationship.target matches MemoryRelationshipTargetView::MemoryEntity { entity_id } && holds_entity(
            items,
            entity_id,
        )))),
        starting(relationships, items).contains(relationship) == (relationships.contains(relationship)
            && holds_entity(items, relationship.source)),
    decreases relationships.len(),
{
    if relationships.len() > 0 {
        let rest = relationships.drop_last();
        let last = relationships.last();
        relationships_stand_beside_their_ends(rest, items, relationship);
        assert(relationships =~= rest.push(last));
        push_holds(rest, last, relationship);
        push_holds(touching(rest, items), last, relationship);
        push_holds(starting(rest, items), last, relationship);
        entities_are_held(items, last.source);
        if let MemoryRelationshipTargetView::MemoryEntity { entity_id } = last.target {
            entities_are_held(items, entity_id);
        }
    }
}

/// A snippet stands beside the items exactly where an item of its file is among them.
pub proof fn snippets_stand_beside_their_file(
    snippets: Seq<ContextSnippetView>,
    items: Seq<FederatedContextItemView>,
    snippet: ContextSnippetView,
)
    ensures
        shown(snippets, items).contains(snippet) == (snippets.contains(snippet) && exists|i: int|
            0 <= i < items.len() && (#[trigger] items[i]) is Repository && items[i]->Repository_0.path
                == snippet.path),
    decreases snippets.len(),
{
    if snippets.len() > 0 {
        let rest = snippets.drop_last();
        let last = snippets.last();
        snippets_stand_beside_their_file(rest, items, snippet);
        assert(snippets =~= rest.push(last));
        push_holds(rest, last, snippet);
        push_holds(shown(rest, items), last, snippet);
    }
}

/// Without a step to go, the repository answers with the nodes that its seeds are and with what stands in
/// their files, and the memory with the entities that its seeds are, and with no relationship.
pub proof fn without_a_step_only_seeds_are_answered(
    repository: ContextResponseView,
    memory: MemoryContextResponseView,
    node: ContextItemView,
    entity: MemoryContextItemView,
)
    ensures
        repository_seeds_only(repository).items.contains(node) == (repository.items.contains(node) && exists|i: int|
            0 <= i < node.selection_reasons.len() && (#[trigger] node.selection_reasons[i]).kind
                == ContextSelectionKind::ExactSeed),
        memory_seeds_only(memory).items.contains(entity) == (memory.items.contains(entity)
            && entity.selection_reasons.contains("context.seed"@)),
        memory_seeds_only(memory).relationships.len() == 0,
        memory_seeds_only(memory).page.truncation matches Some(truncation) ==> truncation.explored_depth == 0,
        repository_seeds_only(repository).page.truncation matches Some(truncation) ==> truncation.explored_depth == 0,
{
    exact_items_hold(repository.items, node);
    seed_items_hold(memory.items, entity);
}

proof fn exact_items_hold(items: Seq<ContextItemView>, item: ContextItemView)
    ensures
        exact_items(items).contains(item) == (items.contains(item) && exists|i: int|
            0 <= i < item.selection_reasons.len() && (#[trigger] item.selection_reasons[i]).kind
                == ContextSelectionKind::ExactSeed),
    decreases items.len(),
{
    if items.len() > 0 {
        let rest = items.drop_last();
        exact_items_hold(rest, item);
        assert(items =~= rest.push(items.last()));
        push_holds(rest, items.last(), item);
        push_holds(exact_items(rest), items.last(), item);
    }
}

proof fn seed_items_hold(items: Seq<MemoryContextItemView>, item: MemoryContextItemView)
    ensures
        seed_items(items).contains(item) == (items.contains(item) && item.selection_reasons.contains(
            "context.seed"@,
        )),
    decreases items.len(),
{
    if items.len() > 0 {
        let rest = items.drop_last();
        seed_items_hold(rest, item);
        assert(items =~= rest.push(items.last()));
        push_holds(rest, items.last(), item);
        push_holds(seed_items(rest), items.last(), item);
    }
}

/// Pages are gathered one after the other, up to the one that has no more, that is empty, or with which
/// there are enough; whether there is more is what the last page says.
pub proof fn pages_are_gathered_in_order<T>(
    pages: Seq<Result<DomainPage<T>, MemoryQueryErrorView>>,
    from: int,
    first: bool,
    items: Seq<T>,
    more: bool,
    desired: int,
    answers: Seq<u64>,
    at: int,
)
    ensures
        gather(pages, from, first, items, more, desired, answers, at) matches Ok(found) ==> {
            &&& items.is_prefix_of(found.items)
            &&& from <= found.pages
            &&& first ==> from < found.pages
            &&& found.pages > from ==> (pages[from] matches Ok(page) && (items + page.items).is_prefix_of(
                found.items,
            )) && (pages[found.pages - 1] matches Ok(last) && found.more == last.more)
            &&& found.pages == from + 1 ==> (pages[from] matches Ok(page) && found.items == items + page.items)
            &&& found.pages == from ==> found.items == items && found.more == more
        },
        first && answers[at] == 0 ==> gather(pages, from, first, items, more, desired, answers, at)
            == Err::<crate::federation::gathering::Gathered<T>, MemoryQueryErrorView>(
            MemoryQueryErrorView::BudgetExceeded(MemoryTruncationReason::Duration),
        ),
        answers[at] > 0 && pages[from] is Err ==> gather(pages, from, first, items, more, desired, answers, at) is Err
            && gather(pages, from, first, items, more, desired, answers, at)->Err_0 == pages[from]->Err_0,
        answers[at] > 0 && (pages[from] matches Ok(page) && (!page.more || items.len() + page.items.len() >= desired))
            ==> gather(pages, from, first, items, more, desired, answers, at) is Ok && gather(
            pages,
            from,
            first,
            items,
            more,
            desired,
            answers,
            at,
        )->Ok_0.items == items + pages[from]->Ok_0.items,
    decreases desired - items.len(),
{
    if answers[at] > 0 {
        if let Ok(page) = pages[from] {
            let all = items + page.items;
            assert(items.is_prefix_of(all));
            if !(all.len() >= desired || !page.more || page.items.len() == 0) && answers[at + 1] > 0 {
                pages_are_gathered_in_order(pages, from + 1, false, all, page.more, desired, answers, at + 2);
                if let Ok(found) = gather(pages, from + 1, false, all, page.more, desired, answers, at + 2) {
                    assert(items.is_prefix_of(found.items)) by {
                        assert(found.items.take(all.len() as int) =~= all);
                        assert(found.items.take(items.len() as int) =~= items);
                    }
                }
            }
        }
    }
}

/// As many results are asked for as are wanted up to the end of the page and one more, but no more than
/// can be kept.
pub proof fn one_result_more_is_asked_for(offset: u64, max_results: u32)
    ensures
        offset + max_results < 4095 ==> wanted(offset, max_results) == offset + max_results + 1,
        offset + max_results >= 4095 ==> wanted(offset, max_results) == 4096,
{
}

/// Behind a link there is one step less to go.
pub proof fn links_take_a_step(depth: u32)
    ensures
        depth > 0 ==> shallower(depth) == depth - 1,
        depth == 0 ==> shallower(depth) == 0,
{
}

/// Of several reasons why an answer ends, the time comes first, then the bytes, then the results, then the
/// depth, then what cannot be done.
pub proof fn reasons_have_their_order(reason: MemoryTruncationReason)
    ensures
        stronger(Some(MemoryTruncationReason::Duration), Some(reason)) == Some(MemoryTruncationReason::Duration),
        reason != MemoryTruncationReason::Duration ==> stronger(Some(MemoryTruncationReason::Bytes), Some(reason))
            == Some(MemoryTruncationReason::Bytes),
        reason != MemoryTruncationReason::Duration && reason != MemoryTruncationReason::Bytes ==> stronger(
            Some(MemoryTruncationReason::Results),
            Some(reason),
        ) == Some(MemoryTruncationReason::Results),
        reason == MemoryTruncationReason::Depth || reason == MemoryTruncationReason::Capability ==> stronger(
            Some(MemoryTruncationReason::Depth),
            Some(reason),
        ) == Some(MemoryTruncationReason::Depth),
        stronger(None, Some(reason)) == Some(reason),
        stronger(Some(reason), None) == Some(reason),
{
}

/// What ends an answer of the repository is what ends it for the memory under the same name.
pub proof fn reasons_keep_their_name(reason: TruncationReason)
    ensures
        (memory_reason(reason) == MemoryTruncationReason::Results) == (reason == TruncationReason::Results),
        (memory_reason(reason) == MemoryTruncationReason::Bytes) == (reason == TruncationReason::Bytes),
        (memory_reason(reason) == MemoryTruncationReason::Depth) == (reason == TruncationReason::Depth),
        (memory_reason(reason) == MemoryTruncationReason::Duration) == (reason == TruncationReason::Duration),
        (memory_reason(reason) == MemoryTruncationReason::Capability) == (reason == TruncationReason::Capability),
{
}

/// A repository that has nothing built is unavailable; a snapshot that it lacks is a revision that is not
/// found; its stale cursor, its exceeded budget and its changed content are what they are for the memory;
/// and anything else is an error of the repository.
pub proof fn errors_of_the_repository_are_told(code: QueryErrorCode)
    ensures
        (repository_error(code) == MemoryQueryErrorView::Unavailable) == (code == QueryErrorCode::NotBuilt || code
            == QueryErrorCode::IndexBuilding || code == QueryErrorCode::IndexFailed),
        (repository_error(code) == MemoryQueryErrorView::RevisionNotFound) == (code
            == QueryErrorCode::SnapshotNotFound),
        (repository_error(code) == MemoryQueryErrorView::StaleCursor) == (code == QueryErrorCode::StaleCursor),
        (repository_error(code) == MemoryQueryErrorView::BudgetExceeded(MemoryTruncationReason::Duration)) == (code
            == QueryErrorCode::BudgetExceeded),
        (repository_error(code) == MemoryQueryErrorView::ContentChanged) == (code == QueryErrorCode::ContentChanged),
        repository_error(code) is Backend ==> repository_error(code) == MemoryQueryErrorView::Backend(
            "federation.repositoryquery"@,
        ),
{
}

/// Where no links were made for a snapshot, there are none and a warning says so; where they cannot be
/// read, that is an error; else they are what was read.
pub proof fn links_are_those_that_were_made(
    revision_id: Seq<char>,
    build_id: Seq<char>,
    max_diagnostics: u32,
    set: Result<Option<MemoryRepositoryLinkSetView>, ReadFailure>,
    links: Result<crate::ports::BoundedRepositoryLinksView, ReadFailure>,
)
    ensures
        ({
            let found = links_found(revision_id, Some(build_id), max_diagnostics, set, links);
            &&& set is Err || (set->Ok_0 is Some && links is Err) ==> found is Err && found->Err_0
                == MemoryQueryErrorView::Backend("federation.linksunavailable"@)
            &&& set is Ok && set->Ok_0 is None ==> found is Ok && found->Ok_0.relationships.len() == 0
                && found->Ok_0.diagnostics.len() == 1 && found->Ok_0.diagnostics[0].code
                == "federation.linksunavailable"@ && found->Ok_0.diagnostics[0].revision_id == revision_id
                && found->Ok_0.diagnostics[0].build_id == build_id && !found->Ok_0.truncated && !found->Ok_0.late
            &&& set is Ok && set->Ok_0 is Some && links is Ok ==> found is Ok && found->Ok_0.relationships
                == links->Ok_0.relationships && found->Ok_0.truncated == links->Ok_0.truncated && found->Ok_0.late
                == links->Ok_0.duration_exceeded && found->Ok_0.diagnostics.len() <= max_diagnostics
                && found->Ok_0.diagnostics.is_prefix_of(links->Ok_0.diagnostics)
        }),
{
    if let Ok(bounded) = links {
        if bounded.diagnostics.len() > max_diagnostics {
            assert(bounded.diagnostics.take(max_diagnostics as int).is_prefix_of(bounded.diagnostics));
        }
    }
}

proof fn distinct_holds(records: Seq<MemoryRelationshipView>, record: MemoryRelationshipView)
    requires
        records.contains(record),
    ensures
        exists|i: int|
            0 <= i < distinct_keys::<MemoryRelationship>(records).len() && (
            #[trigger] distinct_keys::<MemoryRelationship>(records)[i]).id == record.id,
    decreases records.len(),
{
    let rest = records.drop_last();
    let last = records.last();
    let before = distinct_keys::<MemoryRelationship>(rest);
    let all = distinct_keys::<MemoryRelationship>(records);
    assert(records =~= rest.push(last));
    push_holds(rest, last, record);
    if rest.contains(record) {
        distinct_holds(rest, record);
        let i = choose|i: int| 0 <= i < before.len() && (#[trigger] before[i]).id == record.id;
        assert(all[i] == before[i]);
    } else {
        assert(all[all.len() - 1].id == record.id);
    }
}

/// In a question to both domains, every link that is crossed in from a seed of the repository is among the
/// crossed links of what is found, whatever else is.
pub proof fn crossed_links_are_among_the_findings(
    request: FederatedContextRequestView,
    budget: EffectiveBudget,
    desired: int,
    all: Said,
    from: Said,
    answers: Seq<u64>,
    at: int,
    link: MemoryRelationshipView,
)
    requires
        request.scope.target is All,
        context_findings(request, budget, desired, all, from, answers, at) is Ok,
        ({
            let known = both_known(budget, all, from, answers, at);
            known is Ok && links_in(
                repository_seeds(request.seeds),
                known->Ok_0.links.relationships,
                request.memory_policy,
                known->Ok_0.repository.snapshot_id,
            ).contains(link)
        }),
    ensures
        exists|i: int|
            0 <= i < context_findings(request, budget, desired, all, from, answers, at)->Ok_0.0.links.len() && (
            #[trigger] context_findings(request, budget, desired, all, from, answers, at)->Ok_0.0.links[i]).id
                == link.id,
{
    reveal(crate::federation::collecting::both_domains);
    let known = both_known(budget, all, from, answers, at)->Ok_0;
    let links = known.links.relationships;
    let snapshot_id = known.repository.snapshot_id;
    let crossed = links_in(repository_seeds(request.seeds), links, request.memory_policy, snapshot_id);
    let memory = crate::federation::collecting::memory_says_twice(
        all.memory_contexts,
        from.memory_contexts.len() as int,
        crate::federation::seeds::memory_seeds(request.seeds),
        crate::federation::crossing::sources_of(crossed),
        budget.max_depth,
        desired,
        answers,
        known.at,
    )->Ok_0;
    let out = crate::federation::crossing::links_of(
        crate::federation::crossing::ways_out(memory.answers, links, request.memory_policy, snapshot_id),
    );
    sum_holds(crossed, out, link);
    sorted_holds::<MemoryRelationship>(crossed + out, link);
    distinct_holds(sorted::<MemoryRelationship>(crossed + out), link);
    assert(context_findings(request, budget, desired, all, from, answers, at)->Ok_0.0.links == distinct_keys::<
        MemoryRelationship,
    >(sorted::<MemoryRelationship>(crossed + out)));
}

/// A question is put to the domain that its target is.
pub proof fn targets_are_domains(target: FederatedTargetView)
    ensures
        (target.domain() == ContextDomain::Repository) == target is Repository,
        (target.domain() == ContextDomain::Memory) == target is Memory,
        (target.domain() == ContextDomain::All) == target is All,
{
}

}
