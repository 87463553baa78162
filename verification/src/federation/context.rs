//! The context around some seeds, over the domains.
use vstd::prelude::*;
use crate::budget::{backend, backend_error, effective, saturated, saturating_sum, EffectiveBudget};
use crate::cursor::{
    decode_federation_cursor, federated_page, federated_page_model, federation_cursor, is_continued,
    validate_cursor_revision, FederationCursorPayload, FederationCursorPayloadView,
};
use crate::deadline::{begins, is_up, keeps_time, Deadline};
use crate::diagnostics::{diagnostic_code, MemoryDiagnosticCode};
use crate::domain::{
    MemoryEntityId, MemoryRelationship, MemoryRelationshipTarget, MemoryRelationshipTargetView,
    MemoryRelationshipView, MAX_ID_BYTES,
};
use crate::federation::asking::at_most;
use crate::federation::bounds::{kept, kept_snippets, retain_bounded, retain_snippets_bounded};
use crate::federation::collecting::{
    asked_for_context, collect, context_findings, ContextFindings, ContextFindingsView,
    RepositoryAnswers,
};
use crate::federation::crossing::{said, said_first, MemoryAnswers, Said};
use crate::federation::gathering::extend;
use crate::federation::fitting::{first, too_large, too_late};
use crate::federation::search::{
    desired_results, from, own_cursor_is_taken, pending, pending_offset, revisions_agree,
    validate_federation_version, wanted,
};
use crate::federation::seeds::{item_meets_target, repository_item_matches};
use crate::federation::state::{
    candidate_cap_truncated, context_identity, federated_context_fingerprint, memory_reason,
    repository_truncation_reason, revision_key, revisions_key, stronger, stronger_truncation,
    MAX_FEDERATION_CANDIDATES,
};
use crate::federation::{
    FederatedContextItem, FederatedContextItemView, FederatedContextRequest,
    FederatedContextRequestView, FederatedContextResponse, FederatedContextResponseView,
};
use crate::json::{byte_len, serialized_len, ToJson};
use crate::ports::{GraphQuery, MemoryLinkStore, MemoryQuery};
use crate::query::{
    MemoryContextItem, MemoryContextItemView, MemoryContextResponseView, MemoryFreshnessComparison,
    MemoryQueryError, MemoryQueryErrorView, MemoryTruncationReason,
};
use crate::record::{outcome, Record};
use crate::repository::{
    ContextItem, ContextItemView, ContextResponseView, ContextSelectionKind,
    ContextSelectionReason, ContextSelectionReasonView, ContextSnippet, ContextSnippetView,
    QueryLimitsConfig, QueryLimitsConfigView,
};
use crate::search::MAX_FILTERS;
use crate::sort::{
    dedup, dedup_keys, deduplicated, distinct_keys, sort, sorted,
};
use crate::value::is_bounded_text;
use crate::FEDERATION_WIRE_VERSION;

verus! {

/// Whether one of the links leads to a repository item.
pub open spec fn is_linked_to(links: Seq<MemoryRelationshipView>, item: ContextItemView) -> bool {
    exists|i: int| 0 <= i < links.len() && item_meets_target(item, (#[trigger] links[i]).target)
}

/// Whether one of the links starts at an entity.
pub open spec fn is_linked_from(links: Seq<MemoryRelationshipView>, id: Seq<char>) -> bool {
    exists|i: int| 0 <= i < links.len() && (#[trigger] links[i]).source == id
}

/// A repository item that says whether a link leads to it.
pub open spec fn repository_item(
    item: ContextItemView,
    links: Seq<MemoryRelationshipView>,
) -> FederatedContextItemView {
    FederatedContextItemView::Repository(
        if is_linked_to(links, item) {
            ContextItemView {
                selection_reasons: item.selection_reasons.push(
                    ContextSelectionReasonView {
                        kind: ContextSelectionKind::Relationship,
                        via_node: None,
                        via_edge: None,
                    },
                ),
                ..item
            }
        } else {
            item
        },
    )
}

/// A memory item that says whether a link starts at it.
pub open spec fn memory_item(
    item: MemoryContextItemView,
    links: Seq<MemoryRelationshipView>,
) -> FederatedContextItemView {
    FederatedContextItemView::Memory(
        if is_linked_from(links, item.entity.id) {
            MemoryContextItemView {
                selection_reasons: deduplicated::<MemoryDiagnosticCode>(
                    sorted::<MemoryDiagnosticCode>(
                        item.selection_reasons.push("context.repositorylink"@),
                    ),
                ),
                ..item
            }
        } else {
            item
        },
    )
}

fn link_leads_to(links: &Vec<MemoryRelationship>, item: &ContextItem) -> (found: bool)
    ensures
        found == is_linked_to(links.deep_view(), item.deep_view()),
{
    let ghost models = links.deep_view();
    let mut at: usize = 0;
    while at < links.len()
        invariant
            at <= links.len(),
            models == links.deep_view(),
            forall|i: int| 0 <= i < at ==> !item_meets_target(item.deep_view(), (#[trigger] models[i]).target),
        decreases links.len() - at,
    {
        assert(models[at as int] == links@[at as int].deep_view());
        if repository_item_matches(item, &links[at].target) {
            return true;
        }
        at += 1;
    }
    false
}

fn link_starts_at(links: &Vec<MemoryRelationship>, id: &MemoryEntityId) -> (found: bool)
    ensures
        found == is_linked_from(links.deep_view(), id.deep_view()),
{
    let ghost models = links.deep_view();
    let mut at: usize = 0;
    while at < links.len()
        invariant
            at <= links.len(),
            models == links.deep_view(),
            forall|i: int| 0 <= i < at ==> (#[trigger] models[i]).source != id.deep_view(),
        decreases links.len() - at,
    {
        assert(models[at as int] == links@[at as int].deep_view());
        if links[at].source.same(id) {
            return true;
        }
        at += 1;
    }
    false
}

fn as_repository_item(
    item: &ContextItem,
    links: &Vec<MemoryRelationship>,
) -> (result: FederatedContextItem)
    ensures
        result.deep_view() == repository_item(item.deep_view(), links.deep_view()),
{
    let mut copy = item.copied();
    if link_leads_to(links, item) {
        let ghost before = copy.selection_reasons.deep_view();
        let reason = ContextSelectionReason {
            kind: ContextSelectionKind::Relationship,
            via_node: None,
            via_edge: None,
        };
        copy.selection_reasons.push(reason);
        assert(copy.selection_reasons.deep_view() =~= before.push(reason.deep_view()));
    }
    FederatedContextItem::Repository(copy)
}

fn as_memory_item(
    item: &MemoryContextItem,
    links: &Vec<MemoryRelationship>,
) -> (result: FederatedContextItem)
    ensures
        result.deep_view() == memory_item(item.deep_view(), links.deep_view()),
{
    let mut copy = item.copied();
    if link_starts_at(links, &item.entity.id) {
        let mut reasons = item.selection_reasons.copied();
        proof {
            reveal_strlit("context.repositorylink");
        }
        let ghost before = reasons.deep_view();
        reasons.push(diagnostic_code("context.repositorylink"));
        assert(reasons.deep_view() =~= before.push("context.repositorylink"@));
        let ordered = sort(reasons);
        copy.selection_reasons = dedup(&ordered);
    }
    FederatedContextItem::Memory(copy)
}

/// The items of some repository answers.
pub open spec fn repository_items(
    answers: Seq<(ContextResponseView, u32)>,
    links: Seq<MemoryRelationshipView>,
) -> Seq<FederatedContextItemView>
    decreases answers.len(),
{
    if answers.len() == 0 {
        Seq::empty()
    } else {
        repository_items(answers.drop_last(), links) + answers.last().0.items.map_values(
            |item: ContextItemView| repository_item(item, links),
        )
    }
}

/// The items of some memory answers.
pub open spec fn memory_items(
    answers: Seq<(MemoryContextResponseView, u32)>,
    links: Seq<MemoryRelationshipView>,
) -> Seq<FederatedContextItemView>
    decreases answers.len(),
{
    if answers.len() == 0 {
        Seq::empty()
    } else {
        memory_items(answers.drop_last(), links) + answers.last().0.items.map_values(
            |item: MemoryContextItemView| memory_item(item, links),
        )
    }
}

fn add_repository_items(
    items: &mut Vec<FederatedContextItem>,
    answers: &RepositoryAnswers,
    links: &Vec<MemoryRelationship>,
)
    ensures
        final(items).deep_view() == old(items).deep_view() + repository_items(
            answers.deep_view(),
            links.deep_view(),
        ),
{
    let ghost start = items.deep_view();
    let mut next: usize = 0;
    assert(items.deep_view() =~= start + repository_items(answers.deep_view().take(0), links.deep_view()));
    while next < answers.len()
        invariant
            next <= answers.len(),
            items.deep_view() == start + repository_items(
                answers.deep_view().take(next as int),
                links.deep_view(),
            ),
        decreases answers.len() - next,
    {
        let found = &answers[next].0.items;
        let ghost before = items.deep_view();
        let ghost added = found.deep_view().map_values(
            |item: ContextItemView| repository_item(item, links.deep_view()),
        );
        proof {
            let taken = answers.deep_view().take(next + 1);
            assert(taken.drop_last() =~= answers.deep_view().take(next as int));
            assert(taken.last() == answers@[next as int].deep_view());
        }
        let mut at: usize = 0;
        assert(items.deep_view() =~= before + added.take(0));
        while at < found.len()
            invariant
                at <= found.len(),
                added == found.deep_view().map_values(
                    |item: ContextItemView| repository_item(item, links.deep_view()),
                ),
                items.deep_view() == before + added.take(at as int),
            decreases found.len() - at,
        {
            let ghost held = items.deep_view();
            items.push(as_repository_item(&found[at], links));
            assert(items.deep_view() =~= held.push(added[at as int]));
            assert(held.push(added[at as int]) =~= before + added.take(at + 1));
            at += 1;
        }
        assert(added.take(at as int) =~= added);
        assert(items.deep_view() =~= start + repository_items(
            answers.deep_view().take(next + 1),
            links.deep_view(),
        ));
        next += 1;
    }
    assert(answers.deep_view().take(next as int) =~= answers.deep_view());
}

fn add_memory_items(
    items: &mut Vec<FederatedContextItem>,
    answers: &MemoryAnswers,
    links: &Vec<MemoryRelationship>,
)
    ensures
        final(items).deep_view() == old(items).deep_view() + memory_items(
            answers.deep_view(),
            links.deep_view(),
        ),
{
    let ghost start = items.deep_view();
    let mut next: usize = 0;
    assert(items.deep_view() =~= start + memory_items(answers.deep_view().take(0), links.deep_view()));
    while next < answers.len()
        invariant
            next <= answers.len(),
            items.deep_view() == start + memory_items(
                answers.deep_view().take(next as int),
                links.deep_view(),
            ),
        decreases answers.len() - next,
    {
        let found = &answers[next].0.items;
        let ghost before = items.deep_view();
        let ghost added = found.deep_view().map_values(
            |item: MemoryContextItemView| memory_item(item, links.deep_view()),
        );
        proof {
            let taken = answers.deep_view().take(next + 1);
            assert(taken.drop_last() =~= answers.deep_view().take(next as int));
            assert(taken.last() == answers@[next as int].deep_view());
        }
        let mut at: usize = 0;
        assert(items.deep_view() =~= before + added.take(0));
        while at < found.len()
            invariant
                at <= found.len(),
                added == found.deep_view().map_values(
                    |item: MemoryContextItemView| memory_item(item, links.deep_view()),
                ),
                items.deep_view() == before + added.take(at as int),
            decreases found.len() - at,
        {
            let ghost held = items.deep_view();
            items.push(as_memory_item(&found[at], links));
            assert(items.deep_view() =~= held.push(added[at as int]));
            assert(held.push(added[at as int]) =~= before + added.take(at + 1));
            at += 1;
        }
        assert(added.take(at as int) =~= added);
        assert(items.deep_view() =~= start + memory_items(
            answers.deep_view().take(next + 1),
            links.deep_view(),
        ));
        next += 1;
    }
    assert(answers.deep_view().take(next as int) =~= answers.deep_view());
}

/// All the items of a context, in their order and once each.
pub open spec fn all_items(findings: ContextFindingsView) -> Seq<FederatedContextItemView> {
    deduplicated::<FederatedContextItem>(
        sorted::<FederatedContextItem>(
            repository_items(findings.repository, findings.links) + memory_items(
                findings.memory,
                findings.links,
            ),
        ),
    )
}

fn items_of(findings: &ContextFindings) -> (items: Vec<FederatedContextItem>)
    ensures
        items.deep_view() == all_items(findings.deep_view()),
{
    let mut items: Vec<FederatedContextItem> = Vec::new();
    assert(items.deep_view() =~= Seq::<FederatedContextItemView>::empty());
    add_repository_items(&mut items, &findings.repository, &findings.links);
    assert(items.deep_view() =~= repository_items(
        findings.deep_view().repository,
        findings.deep_view().links,
    ));
    add_memory_items(&mut items, &findings.memory, &findings.links);
    let ordered = sort(items);
    dedup(&ordered)
}

/// Whether a domain has more to say.
pub open spec fn has_more_to_say(findings: ContextFindingsView) -> bool {
    ||| exists|i: int|
        0 <= i < findings.repository.len() && (#[trigger] findings.repository[i]).0.page.next_cursor is Some
    ||| exists|i: int|
        0 <= i < findings.memory.len() && (#[trigger] findings.memory[i]).0.page.next_cursor is Some
}

fn more_to_say(findings: &ContextFindings) -> (more: bool)
    ensures
        more == has_more_to_say(findings.deep_view()),
{
    let ghost repository = findings.deep_view().repository;
    let ghost memory = findings.deep_view().memory;
    let mut at: usize = 0;
    while at < findings.repository.len()
        invariant
            at <= findings.repository.len(),
            repository == findings.deep_view().repository,
            forall|i: int| 0 <= i < at ==> (#[trigger] repository[i]).0.page.next_cursor is None,
        decreases findings.repository.len() - at,
    {
        assert(repository[at as int] == findings.repository@[at as int].deep_view());
        if findings.repository[at].0.page.next_cursor.is_some() {
            return true;
        }
        at += 1;
    }
    let mut at: usize = 0;
    while at < findings.memory.len()
        invariant
            at <= findings.memory.len(),
            memory == findings.deep_view().memory,
            forall|i: int| 0 <= i < at ==> (#[trigger] memory[i]).0.page.next_cursor is None,
        decreases findings.memory.len() - at,
    {
        assert(memory[at as int] == findings.memory@[at as int].deep_view());
        if findings.memory[at].0.page.next_cursor.is_some() {
            return true;
        }
        at += 1;
    }
    false
}

/// The weightiest reason why a repository answer is not complete.
pub open spec fn repository_reason(answers: Seq<(ContextResponseView, u32)>) -> Option<
    MemoryTruncationReason,
>
    decreases answers.len(),
{
    if answers.len() == 0 {
        None
    } else {
        stronger(
            repository_reason(answers.drop_last()),
            match answers.last().0.page.truncation {
                Some(truncation) => Some(memory_reason(truncation.reason)),
                None => None,
            },
        )
    }
}

/// The weightiest of a reason and those why a memory answer is not complete.
pub open spec fn with_memory_reason(
    reason: Option<MemoryTruncationReason>,
    answers: Seq<(MemoryContextResponseView, u32)>,
) -> Option<MemoryTruncationReason>
    decreases answers.len(),
{
    if answers.len() == 0 {
        reason
    } else {
        stronger(
            with_memory_reason(reason, answers.drop_last()),
            match answers.last().0.page.truncation {
                Some(truncation) => Some(truncation.reason),
                None => None,
            },
        )
    }
}

/// How deep the answers of the domains went: the deepest counts, each with the links that were crossed
/// to get it.
pub open spec fn deepest(findings: ContextFindingsView) -> u32 {
    memory_depth(repository_depth(findings.repository), findings.memory)
}

/// The sum of two depths, or the greatest depth where the sum is greater.
pub open spec fn depth_sum(left: u32, right: u32) -> u32 {
    if left + right > u32::MAX {
        u32::MAX
    } else {
        (left + right) as u32
    }
}

/// The greater of two depths.
pub open spec fn deeper(left: u32, right: u32) -> u32 {
    if left < right {
        right
    } else {
        left
    }
}

/// How deep some repository answers went.
pub open spec fn repository_depth(answers: Seq<(ContextResponseView, u32)>) -> u32
    decreases answers.len(),
{
    if answers.len() == 0 {
        0
    } else {
        deeper(
            repository_depth(answers.drop_last()),
            depth_sum(
                answers.last().1,
                match answers.last().0.page.truncation {
                    Some(truncation) => truncation.explored_depth,
                    None => 0,
                },
            ),
        )
    }
}

/// How deep some memory answers went, or the repository.
pub open spec fn memory_depth(depth: u32, answers: Seq<(MemoryContextResponseView, u32)>) -> u32
    decreases answers.len(),
{
    if answers.len() == 0 {
        depth
    } else {
        deeper(
            memory_depth(depth, answers.drop_last()),
            depth_sum(
                answers.last().1,
                match answers.last().0.page.truncation {
                    Some(truncation) => truncation.explored_depth,
                    None => 0,
                },
            ),
        )
    }
}

fn add_depths(left: u32, right: u32) -> (sum: u32)
    ensures
        sum == depth_sum(left, right),
{
    if left > u32::MAX - right {
        u32::MAX
    } else {
        left + right
    }
}

fn reason_and_depth(findings: &ContextFindings) -> (result: (Option<MemoryTruncationReason>, u32))
    ensures
        result.0 == with_memory_reason(
            repository_reason(findings.deep_view().repository),
            findings.deep_view().memory,
        ),
        result.1 == deepest(findings.deep_view()),
{
    let ghost repository = findings.deep_view().repository;
    let ghost memory = findings.deep_view().memory;
    let mut reason: Option<MemoryTruncationReason> = None;
    let mut depth: u32 = 0;
    let mut at: usize = 0;
    while at < findings.repository.len()
        invariant
            at <= findings.repository.len(),
            repository == findings.deep_view().repository,
            reason == repository_reason(repository.take(at as int)),
            depth == repository_depth(repository.take(at as int)),
        decreases findings.repository.len() - at,
    {
        let answer = &findings.repository[at];
        proof {
            let taken = repository.take(at + 1);
            assert(taken.drop_last() =~= repository.take(at as int));
            assert(taken.last() == answer.deep_view());
        }
        let mut explored: u32 = 0;
        if let Some(truncation) = &answer.0.page.truncation {
            explored = truncation.explored_depth;
            reason = stronger_truncation(reason, Some(repository_truncation_reason(truncation.reason)));
        }
        let reached = add_depths(answer.1, explored);
        if depth < reached {
            depth = reached;
        }
        at += 1;
    }
    assert(repository.take(at as int) =~= repository);
    let ghost repository_why = reason;
    let ghost repository_deep = depth;
    let mut at: usize = 0;
    while at < findings.memory.len()
        invariant
            at <= findings.memory.len(),
            memory == findings.deep_view().memory,
            reason == with_memory_reason(repository_why, memory.take(at as int)),
            depth == memory_depth(repository_deep, memory.take(at as int)),
        decreases findings.memory.len() - at,
    {
        let answer = &findings.memory[at];
        proof {
            let taken = memory.take(at + 1);
            assert(taken.drop_last() =~= memory.take(at as int));
            assert(taken.last() == answer.deep_view());
        }
        let mut explored: u32 = 0;
        if let Some(truncation) = &answer.0.page.truncation {
            explored = truncation.explored_depth;
            reason = stronger_truncation(reason, Some(truncation.reason));
        }
        let reached = add_depths(answer.1, explored);
        if depth < reached {
            depth = reached;
        }
        at += 1;
    }
    assert(memory.take(at as int) =~= memory);
    (reason, depth)
}

/// What a page takes of the items: how many, their size, why it ends, and how many answers of the
/// deadline are known then.
pub struct ItemsPage {
    pub count: int,
    pub bytes: u64,
    pub reason: Option<MemoryTruncationReason>,
    pub at: int,
}

/// The page of the items, from one on behind those that it already holds: as many as fit in the
/// number, the time and the size of the budget. There is none where the first does not fit alone.
#[verifier::opaque]
pub open spec fn items_page(
    items: Seq<FederatedContextItemView>,
    count: int,
    bytes: u64,
    reason: Option<MemoryTruncationReason>,
    budget: EffectiveBudget,
    answers: Seq<u64>,
    at: int,
) -> Option<ItemsPage>
    decreases items.len() - count,
{
    if count >= items.len() {
        Some(ItemsPage { count, bytes, reason, at })
    } else if count >= budget.max_results {
        Some(ItemsPage { count, bytes, reason: Some(MemoryTruncationReason::Results), at })
    } else if is_up(answers[at]) {
        Some(ItemsPage { count, bytes, reason: Some(MemoryTruncationReason::Duration), at: at + 1 })
    } else {
        let size = item_size(items[count]);
        if saturated(bytes, size) > budget.max_bytes {
            if count == 0 {
                None
            } else {
                Some(
                    ItemsPage { count, bytes, reason: Some(MemoryTruncationReason::Bytes), at: at + 1 },
                )
            }
        } else {
            items_page(items, count + 1, saturated(bytes, size), reason, budget, answers, at + 1)
        }
    }
}

/// The size of an item.
#[verifier::opaque]
pub open spec fn item_size(item: FederatedContextItemView) -> u64 {
    byte_len(<FederatedContextItem as ToJson>::json(item)) as u64
}

fn item_len(item: &FederatedContextItem) -> (size: u64)
    ensures
        size == item_size(item.deep_view()),
{
    proof {
        reveal(item_size);
    }
    serialized_len(item)
}

fn take_items<D: Deadline>(
    items: &Vec<FederatedContextItem>,
    reason: Option<MemoryTruncationReason>,
    budget: EffectiveBudget,
    deadline: &mut D,
) -> (result: Result<(usize, u64, Option<MemoryTruncationReason>), MemoryQueryError>)
    ensures
        begins(old(deadline).answers(), final(deadline).answers()),
        keeps_time(*old(deadline), *final(deadline)),
        result matches Ok((count, bytes, _)) ==> count <= items.len() && bytes <= budget.max_bytes,
        result matches Err(error) ==> error.deep_view() == too_large(),
        forall|all: Seq<u64>|
            begins(final(deadline).answers(), all) ==> #[trigger] items_page(
                items.deep_view(),
                0,
                0,
                reason,
                budget,
                all,
                old(deadline).answers().len() as int,
            ) == match result {
                Ok((count, bytes, reason_found)) => Some(
                    ItemsPage {
                        count: count as int,
                        bytes,
                        reason: reason_found,
                        at: final(deadline).answers().len() as int,
                    },
                ),
                Err(_) => None,
            },
{
    let ghost models = items.deep_view();
    let ghost start = deadline.answers().len() as int;
    let mut count: usize = 0;
    let mut bytes: u64 = 0;
    while count < items.len()
        invariant
            count <= items.len(),
            bytes <= budget.max_bytes,
            models == items.deep_view(),
            start == old(deadline).answers().len(),
            begins(old(deadline).answers(), deadline.answers()),
            keeps_time(*old(deadline), *deadline),
            forall|all: Seq<u64>|
                begins(deadline.answers(), all) ==> #[trigger] items_page(
                    models,
                    0,
                    0,
                    reason,
                    budget,
                    all,
                    start,
                ) == items_page(
                    models,
                    count as int,
                    bytes,
                    reason,
                    budget,
                    all,
                    deadline.answers().len() as int,
                ),
        decreases items.len() - count,
    {
        proof {
            reveal(items_page);
            assert(begins(deadline.answers(), deadline.answers()));
        }
        if count as u64 >= budget.max_results as u64 {
            return Ok((count, bytes, Some(MemoryTruncationReason::Results)));
        }
        let ghost before = deadline.answers();
        let late = deadline.expired();
        proof {
            assert forall|all: Seq<u64>| begins(deadline.answers(), all) implies begins(before, all) && is_up(all[
                before.len() as int
            ]) == late by {
                assert(all[before.len() as int] == deadline.answers()[before.len() as int]);
            }
            assert(begins(deadline.answers(), deadline.answers()));
        }
        if late {
            return Ok((count, bytes, Some(MemoryTruncationReason::Duration)));
        }
        assert(models[count as int] == items@[count as int].deep_view());
        let total = saturating_sum(bytes, item_len(&items[count]));
        if total > budget.max_bytes {
            if count == 0 {
                return Err(MemoryQueryError::BudgetExceeded(MemoryTruncationReason::Bytes));
            }
            return Ok((count, bytes, Some(MemoryTruncationReason::Bytes)));
        }
        bytes = total;
        count += 1;
    }
    proof {
        reveal(items_page);
        assert(begins(deadline.answers(), deadline.answers()));
    }
    Ok((count, bytes, reason))
}

/// Whether an entity is among the returned items.
pub open spec fn returns_entity(items: Seq<FederatedContextItemView>, id: Seq<char>) -> bool {
    exists|i: int|
        0 <= i < items.len() && (#[trigger] items[i]) is Memory && items[i]->Memory_0.entity.id == id
}

/// Whether a path is among those of the returned items.
pub open spec fn returns_path(items: Seq<FederatedContextItemView>, path: Seq<char>) -> bool {
    exists|i: int|
        0 <= i < items.len() && (#[trigger] items[i]) is Repository && items[i]->Repository_0.path == path
}

fn is_returned(items: &Vec<FederatedContextItem>, id: &MemoryEntityId) -> (found: bool)
    ensures
        found == returns_entity(items.deep_view(), id.deep_view()),
{
    let ghost models = items.deep_view();
    let mut at: usize = 0;
    while at < items.len()
        invariant
            at <= items.len(),
            models == items.deep_view(),
            forall|i: int|
                0 <= i < at ==> !((#[trigger] models[i]) is Memory && models[i]->Memory_0.entity.id
                    == id.deep_view()),
        decreases items.len() - at,
    {
        assert(models[at as int] == items@[at as int].deep_view());
        if let FederatedContextItem::Memory(item) = &items[at] {
            if item.entity.id.same(id) {
                return true;
            }
        }
        at += 1;
    }
    false
}

fn is_path_returned(items: &Vec<FederatedContextItem>, snippet: &ContextSnippet) -> (found: bool)
    ensures
        found == returns_path(items.deep_view(), snippet.deep_view().path),
{
    let ghost models = items.deep_view();
    let mut at: usize = 0;
    while at < items.len()
        invariant
            at <= items.len(),
            models == items.deep_view(),
            forall|i: int|
                0 <= i < at ==> !((#[trigger] models[i]) is Repository && models[i]->Repository_0.path
                    == snippet.deep_view().path),
        decreases items.len() - at,
    {
        assert(models[at as int] == items@[at as int].deep_view());
        if let FederatedContextItem::Repository(item) = &items[at] {
            if item.path.same(&snippet.path) {
                return true;
            }
        }
        at += 1;
    }
    false
}

/// Whether a relationship touches a returned entity.
pub open spec fn touches(
    items: Seq<FederatedContextItemView>,
    relationship: MemoryRelationshipView,
) -> bool {
    returns_entity(items, relationship.source) || match relationship.target {
        MemoryRelationshipTargetView::MemoryEntity { entity_id } => {
            returns_entity(items, entity_id)
        },
        _ => false,
    }
}

/// The relationships that touch a returned entity.
pub open spec fn touching(
    relationships: Seq<MemoryRelationshipView>,
    items: Seq<FederatedContextItemView>,
) -> Seq<MemoryRelationshipView>
    decreases relationships.len(),
{
    if relationships.len() == 0 {
        relationships
    } else {
        let rest = touching(relationships.drop_last(), items);
        if touches(items, relationships.last()) {
            rest.push(relationships.last())
        } else {
            rest
        }
    }
}

/// The links that start at a returned entity.
pub open spec fn starting(
    links: Seq<MemoryRelationshipView>,
    items: Seq<FederatedContextItemView>,
) -> Seq<MemoryRelationshipView>
    decreases links.len(),
{
    if links.len() == 0 {
        links
    } else {
        let rest = starting(links.drop_last(), items);
        if returns_entity(items, links.last().source) {
            rest.push(links.last())
        } else {
            rest
        }
    }
}

/// The snippets at a returned path.
pub open spec fn shown(
    snippets: Seq<ContextSnippetView>,
    items: Seq<FederatedContextItemView>,
) -> Seq<ContextSnippetView>
    decreases snippets.len(),
{
    if snippets.len() == 0 {
        snippets
    } else {
        let rest = shown(snippets.drop_last(), items);
        if returns_path(items, snippets.last().path) {
            rest.push(snippets.last())
        } else {
            rest
        }
    }
}

/// The relationships of all the memory answers.
pub open spec fn answered_relationships(answers: Seq<(MemoryContextResponseView, u32)>) -> Seq<
    MemoryRelationshipView,
>
    decreases answers.len(),
{
    if answers.len() == 0 {
        Seq::empty()
    } else {
        answered_relationships(answers.drop_last()) + answers.last().0.relationships
    }
}

/// The snippets of all the repository answers.
pub open spec fn answered_snippets(
    answers: Seq<(ContextResponseView, u32)>,
) -> Seq<ContextSnippetView>
    decreases answers.len(),
{
    if answers.len() == 0 {
        Seq::empty()
    } else {
        answered_snippets(answers.drop_last()) + answers.last().0.snippets
    }
}

fn keep_touching(
    relationships: &Vec<MemoryRelationship>,
    items: &Vec<FederatedContextItem>,
) -> (kept: Vec<MemoryRelationship>)
    ensures
        kept.deep_view() == touching(relationships.deep_view(), items.deep_view()),
{
    let mut kept: Vec<MemoryRelationship> = Vec::new();
    let mut at: usize = 0;
    assert(kept.deep_view() =~= touching(relationships.deep_view().take(0), items.deep_view()));
    while at < relationships.len()
        invariant
            at <= relationships.len(),
            kept.deep_view() == touching(relationships.deep_view().take(at as int), items.deep_view()),
        decreases relationships.len() - at,
    {
        let relationship = &relationships[at];
        proof {
            let taken = relationships.deep_view().take(at + 1);
            assert(taken.drop_last() =~= relationships.deep_view().take(at as int));
            assert(taken.last() == relationship.deep_view());
        }
        let touched = is_returned(items, &relationship.source) || match &relationship.target {
            MemoryRelationshipTarget::MemoryEntity { entity_id } => is_returned(items, entity_id),
            _ => false,
        };
        if touched {
            let ghost before = kept.deep_view();
            kept.push(relationship.copied());
            assert(kept.deep_view() =~= before.push(relationship.deep_view()));
        }
        at += 1;
    }
    assert(relationships.deep_view().take(at as int) =~= relationships.deep_view());
    kept
}

fn keep_starting(
    links: &Vec<MemoryRelationship>,
    items: &Vec<FederatedContextItem>,
) -> (kept: Vec<MemoryRelationship>)
    ensures
        kept.deep_view() == starting(links.deep_view(), items.deep_view()),
{
    let mut kept: Vec<MemoryRelationship> = Vec::new();
    let mut at: usize = 0;
    assert(kept.deep_view() =~= starting(links.deep_view().take(0), items.deep_view()));
    while at < links.len()
        invariant
            at <= links.len(),
            kept.deep_view() == starting(links.deep_view().take(at as int), items.deep_view()),
        decreases links.len() - at,
    {
        let link = &links[at];
        proof {
            let taken = links.deep_view().take(at + 1);
            assert(taken.drop_last() =~= links.deep_view().take(at as int));
            assert(taken.last() == link.deep_view());
        }
        if is_returned(items, &link.source) {
            let ghost before = kept.deep_view();
            kept.push(link.copied());
            assert(kept.deep_view() =~= before.push(link.deep_view()));
        }
        at += 1;
    }
    assert(links.deep_view().take(at as int) =~= links.deep_view());
    kept
}

fn keep_shown(
    snippets: &Vec<ContextSnippet>,
    items: &Vec<FederatedContextItem>,
) -> (kept: Vec<ContextSnippet>)
    ensures
        kept.deep_view() == shown(snippets.deep_view(), items.deep_view()),
{
    let mut kept: Vec<ContextSnippet> = Vec::new();
    let mut at: usize = 0;
    assert(kept.deep_view() =~= shown(snippets.deep_view().take(0), items.deep_view()));
    while at < snippets.len()
        invariant
            at <= snippets.len(),
            kept.deep_view() == shown(snippets.deep_view().take(at as int), items.deep_view()),
        decreases snippets.len() - at,
    {
        let snippet = &snippets[at];
        proof {
            let taken = snippets.deep_view().take(at + 1);
            assert(taken.drop_last() =~= snippets.deep_view().take(at as int));
            assert(taken.last() == snippet.deep_view());
        }
        if is_path_returned(items, snippet) {
            let ghost before = kept.deep_view();
            kept.push(snippet.copied());
            assert(kept.deep_view() =~= before.push(snippet.deep_view()));
        }
        at += 1;
    }
    assert(snippets.deep_view().take(at as int) =~= snippets.deep_view());
    kept
}

fn relationships_of(answers: &MemoryAnswers) -> (relationships: Vec<MemoryRelationship>)
    ensures
        relationships.deep_view() == answered_relationships(answers.deep_view()),
{
    let mut relationships: Vec<MemoryRelationship> = Vec::new();
    let mut at: usize = 0;
    assert(relationships.deep_view() =~= answered_relationships(answers.deep_view().take(0)));
    while at < answers.len()
        invariant
            at <= answers.len(),
            relationships.deep_view() == answered_relationships(answers.deep_view().take(at as int)),
        decreases answers.len() - at,
    {
        proof {
            let taken = answers.deep_view().take(at + 1);
            assert(taken.drop_last() =~= answers.deep_view().take(at as int));
            assert(taken.last() == answers@[at as int].deep_view());
        }
        extend(&mut relationships, &answers[at].0.relationships);
        at += 1;
    }
    assert(answers.deep_view().take(at as int) =~= answers.deep_view());
    relationships
}

fn snippets_of(answers: &RepositoryAnswers) -> (snippets: Vec<ContextSnippet>)
    ensures
        snippets.deep_view() == answered_snippets(answers.deep_view()),
{
    let mut snippets: Vec<ContextSnippet> = Vec::new();
    let mut at: usize = 0;
    assert(snippets.deep_view() =~= answered_snippets(answers.deep_view().take(0)));
    while at < answers.len()
        invariant
            at <= answers.len(),
            snippets.deep_view() == answered_snippets(answers.deep_view().take(at as int)),
        decreases answers.len() - at,
    {
        proof {
            let taken = answers.deep_view().take(at + 1);
            assert(taken.drop_last() =~= answers.deep_view().take(at as int));
            assert(taken.last() == answers@[at as int].deep_view());
        }
        extend(&mut snippets, &answers[at].0.snippets);
        at += 1;
    }
    assert(answers.deep_view().take(at as int) =~= answers.deep_view());
    snippets
}

/// What stands beside the items of an answer: relationships, links and snippets, as much as there is
/// room for, how much room is left, and whether something is missing.
pub struct SupplementsView {
    pub relationships: Seq<MemoryRelationshipView>,
    pub links: Seq<MemoryRelationshipView>,
    pub snippets: Seq<ContextSnippetView>,
    pub remaining: u64,
    pub truncated: bool,
}

/// What stands beside the items of an answer: the relationships and the links of the returned
/// entities and the snippets of the returned paths, in their order and once each, as much as there is
/// room for.
#[verifier::opaque]
pub open spec fn supplements(
    findings: ContextFindingsView,
    items: Seq<FederatedContextItemView>,
    budget: EffectiveBudget,
    room: u64,
) -> SupplementsView {
    let relationships = distinct_keys::<MemoryRelationship>(
        sorted::<MemoryRelationship>(touching(answered_relationships(findings.memory), items)),
    );
    let links = starting(findings.links, items);
    let snippets = distinct_keys::<ContextSnippet>(
        sorted::<ContextSnippet>(shown(answered_snippets(findings.repository), items)),
    );
    let (first, after_first) = kept::<MemoryRelationship>(
        relationships,
        0,
        budget.max_results as int,
        room,
    );
    let (second, after_second) = kept::<MemoryRelationship>(
        links,
        0,
        budget.max_results as int,
        after_first,
    );
    let (third, remaining) = kept_snippets(snippets, 0, 0, budget.max_snippet_bytes, after_second);
    SupplementsView {
        relationships: relationships.take(first),
        links: links.take(second),
        snippets: snippets.take(third),
        remaining,
        truncated: first < relationships.len() || second < links.len() || third < snippets.len(),
    }
}

/// What stands beside the items of an answer.
struct Supplements {
    relationships: Vec<MemoryRelationship>,
    links: Vec<MemoryRelationship>,
    snippets: Vec<ContextSnippet>,
    remaining: u64,
    truncated: bool,
}

impl DeepView for Supplements {
    type V = SupplementsView;

    closed spec fn deep_view(&self) -> SupplementsView {
        SupplementsView {
            relationships: self.relationships.deep_view(),
            links: self.links.deep_view(),
            snippets: self.snippets.deep_view(),
            remaining: self.remaining,
            truncated: self.truncated,
        }
    }
}

fn supplement(
    findings: &ContextFindings,
    items: &Vec<FederatedContextItem>,
    budget: EffectiveBudget,
    room: u64,
) -> (result: Supplements)
    ensures
        result.deep_view() == supplements(findings.deep_view(), items.deep_view(), budget, room),
        result.remaining <= room,
{
    proof {
        reveal(supplements);
    }
    let all_relationships = relationships_of(&findings.memory);
    let ordered = sort(keep_touching(&all_relationships, items));
    let relationships = dedup_keys(&ordered);
    let links = keep_starting(&findings.links, items);
    let all_snippets = snippets_of(&findings.repository);
    let ordered = sort(keep_shown(&all_snippets, items));
    let snippets = dedup_keys(&ordered);
    let (relationships, remaining, first_cut) = retain_bounded(
        relationships,
        budget.max_results as usize,
        room,
    );
    let (links, remaining, second_cut) = retain_bounded(links, budget.max_results as usize, remaining);
    let (snippets, remaining, third_cut) = retain_snippets_bounded(
        snippets,
        budget.max_snippet_bytes,
        remaining,
    );
    Supplements {
        relationships,
        links,
        snippets,
        remaining,
        truncated: first_cut || second_cut || third_cut,
    }
}

/// Why an answer is not complete before its page is filled: links are missing because the time was
/// over or there are too many, results may be missing because as many as can be looked at were wanted,
/// or a domain's own answer is not complete.
pub open spec fn reason_before(findings: ContextFindingsView, desired: int) -> Option<
    MemoryTruncationReason,
> {
    if findings.links_late {
        Some(MemoryTruncationReason::Duration)
    } else if findings.links_truncated || (desired == MAX_FEDERATION_CANDIDATES && has_more_to_say(findings)) {
        Some(MemoryTruncationReason::Results)
    } else {
        with_memory_reason(repository_reason(findings.repository), findings.memory)
    }
}

/// The answer made of what the domains said.
#[verifier::opaque]
pub open spec fn context_found(
    request: FederatedContextRequestView,
    budget: EffectiveBudget,
    findings: ContextFindingsView,
    payload: Option<FederationCursorPayloadView>,
    fingerprint: Seq<char>,
    answers: Seq<u64>,
    at: int,
) -> Result<FederatedContextResponseView, MemoryQueryErrorView> {
    let offset = pending_offset(payload);
    let key = revisions_key(findings.repository_state, findings.memory_state);
    let items = all_items(findings);
    if !revisions_agree(payload, key) || offset > items.len() {
        Err(MemoryQueryErrorView::StaleCursor)
    } else {
        let rest = items.skip(offset as int);
        match items_page(
            rest,
            0,
            0,
            reason_before(findings, wanted(offset, budget.max_results)),
            budget,
            answers,
            at,
        ) {
            None => Err(too_large()),
            Some(page) => {
                let returned = rest.take(page.count);
                let beside = supplements(
                    findings,
                    returned,
                    budget,
                    (budget.max_bytes - page.bytes) as u64,
                );
                let reason = if beside.truncated {
                    Some(MemoryTruncationReason::Bytes)
                } else {
                    page.reason
                };
                let has_more = page.count < rest.len();
                let cursor = federation_cursor(
                    "context"@,
                    fingerprint,
                    key,
                    (offset + page.count) as u64,
                );
                if is_continued(reason, page.count as nat, has_more) && !is_bounded_text(
                    cursor,
                    MAX_ID_BYTES as nat,
                    false,
                ) {
                    Err(backend("federation.cursor"@))
                } else if is_up(answers[page.at]) {
                    Err(too_late())
                } else {
                    Ok(
                        FederatedContextResponseView {
                            wire_version: FEDERATION_WIRE_VERSION,
                            project: request.scope.project,
                            requested_domain: request.scope.target.domain(),
                            repository: findings.repository_state,
                            memory: findings.memory_state,
                            federation_diagnostics: at_most(
                                findings.diagnostics,
                                budget.max_diagnostics,
                            ),
                            page: federated_page_model(
                                reason,
                                page.count as nat,
                                (budget.max_bytes - beside.remaining) as u64,
                                deepest(findings),
                                has_more,
                                cursor,
                            ),
                            items: returned,
                            memory_relationships: beside.relationships,
                            cross_domain_links: beside.links,
                            repository_snippets: beside.snippets,
                        },
                    )
                }
            },
        }
    }
}

fn answer_context<D: Deadline>(
    request: &FederatedContextRequest,
    budget: EffectiveBudget,
    findings: ContextFindings,
    payload: &Option<FederationCursorPayload>,
    offset: usize,
    desired: usize,
    fingerprint: &str,
    deadline: &mut D,
) -> (result: Result<FederatedContextResponse, MemoryQueryError>)
    requires
        offset == pending_offset(payload.deep_view()),
        desired == wanted(offset as u64, budget.max_results),
    ensures
        begins(old(deadline).answers(), final(deadline).answers()),
        keeps_time(*old(deadline), *final(deadline)),
        outcome(result) == context_found(
            request.deep_view(),
            budget,
            findings.deep_view(),
            payload.deep_view(),
            fingerprint@,
            final(deadline).answers(),
            old(deadline).answers().len() as int,
        ),
{
    proof {
        reveal(context_found);
    }
    let key = revision_key(&findings.repository_state, &findings.memory_state);
    match validate_cursor_revision(payload.as_ref(), key.as_str()) {
        Ok(()) => {},
        Err(error) => {
            return Err(error);
        },
    }
    let items = items_of(&findings);
    if offset > items.len() {
        return Err(MemoryQueryError::StaleCursor);
    }
    let rest = from(&items, offset);
    let (domain_reason, explored_depth) = reason_and_depth(&findings);
    let reason = if findings.links_late {
        Some(MemoryTruncationReason::Duration)
    } else if findings.links_truncated || candidate_cap_truncated(desired, more_to_say(&findings)) {
        Some(MemoryTruncationReason::Results)
    } else {
        domain_reason
    };
    let (count, bytes, page_reason) = match take_items(&rest, reason, budget, deadline) {
        Ok(page) => page,
        Err(error) => {
            return Err(error);
        },
    };
    let returned = first(&rest, count);
    let beside = supplement(&findings, &returned, budget, budget.max_bytes - bytes);
    let reason = if beside.truncated {
        Some(MemoryTruncationReason::Bytes)
    } else {
        page_reason
    };
    let page = match federated_page(
        reason,
        count,
        budget.max_bytes - beside.remaining,
        explored_depth,
        count < rest.len(),
        "context",
        fingerprint,
        key.as_str(),
        (offset + count) as u64,
    ) {
        Ok(page) => page,
        Err(error) => {
            return Err(error);
        },
    };
    let ghost paged = deadline.answers();
    if deadline.expired() {
        return Err(MemoryQueryError::BudgetExceeded(MemoryTruncationReason::Duration));
    }
    let diagnostics = if findings.diagnostics.len() > budget.max_diagnostics as usize {
        first(&findings.diagnostics, budget.max_diagnostics as usize)
    } else {
        findings.diagnostics
    };
    Ok(
        FederatedContextResponse {
            wire_version: FEDERATION_WIRE_VERSION,
            project: request.scope.project.copied(),
            requested_domain: request.scope.target.domain(),
            repository: findings.repository_state,
            memory: findings.memory_state,
            federation_diagnostics: diagnostics,
            page,
            items: returned,
            memory_relationships: beside.relationships,
            cross_domain_links: beside.links,
            repository_snippets: beside.snippets,
        },
    )
}

/// The answer to a question for federated context, given what the domains said.
pub open spec fn federated_context_answer(
    request: FederatedContextRequestView,
    limits: QueryLimitsConfigView,
    all: Said,
    from: Said,
    answers: Seq<u64>,
    at: int,
) -> Result<FederatedContextResponseView, MemoryQueryErrorView> {
    let budget = effective(request.scope.budget, limits);
    let fingerprint = context_identity(request);
    if request.scope.wire_version != FEDERATION_WIRE_VERSION {
        Err(backend("federation.wireversion"@))
    } else if request.seeds.len() == 0 || request.seeds.len() > MAX_FILTERS {
        Err(backend("context.seeds"@))
    } else {
        match pending(request.cursor, "context"@, fingerprint) {
            Err(error) => Err(error),
            Ok(payload) => if pending_offset(payload) > usize::MAX {
                Err(MemoryQueryErrorView::StaleCursor)
            } else {
                match context_findings(
                    request,
                    budget,
                    wanted(pending_offset(payload), budget.max_results),
                    all,
                    from,
                    answers,
                    at,
                ) {
                    Err(error) => Err(error),
                    Ok((findings, collected_at)) => context_found(
                        request,
                        budget,
                        findings,
                        payload,
                        fingerprint,
                        answers,
                        collected_at,
                    ),
                }
            },
        }
    }
}

/// How many items a request has to know of to be answered.
pub open spec fn items_wanted(
    request: FederatedContextRequestView,
    limits: QueryLimitsConfigView,
) -> int {
    match pending(request.cursor, "context"@, context_identity(request)) {
        Ok(payload) => wanted(
            pending_offset(payload),
            effective(request.scope.budget, limits).max_results,
        ),
        Err(_) => 0,
    }
}

/// Answers a question for context over the domains that it names. Seeds of one domain lead into the
/// other only over resolved links.
pub fn federated_context<R: GraphQuery, M: MemoryQuery, L: MemoryLinkStore, D: Deadline>(
    repository: &mut R,
    memory: &mut M,
    links: &mut L,
    limits: &QueryLimitsConfig,
    freshness: &Option<MemoryFreshnessComparison>,
    request: &FederatedContextRequest,
    deadline: &mut D,
) -> (result: Result<FederatedContextResponse, MemoryQueryError>)
    ensures
        request.deep_view().scope.wire_version == FEDERATION_WIRE_VERSION && 0
            < request.deep_view().seeds.len() <= MAX_FILTERS ==> own_cursor_is_taken(
            request.deep_view().cursor,
            "context"@,
            context_identity(request.deep_view()),
        ),
        begins(old(deadline).answers(), final(deadline).answers()),
        keeps_time(*old(deadline), *final(deadline)),
        said_first(
            said(*old(repository), *old(memory), *old(links)),
            said(*final(repository), *final(memory), *final(links)),
        ),
        final(repository).searches() == old(repository).searches(),
        final(memory).searches() == old(memory).searches(),
        said(*final(repository), *final(memory), *final(links)) == said(
            *old(repository),
            *old(memory),
            *old(links),
        ) || asked_for_context(
            request.deep_view(),
            effective(request.deep_view().scope.budget, limits.deep_view()),
            freshness.deep_view(),
            items_wanted(request.deep_view(), limits.deep_view()),
            said(*final(repository), *final(memory), *final(links)),
            said(*old(repository), *old(memory), *old(links)),
            final(deadline).answers(),
            old(deadline).answers().len() as int,
        ),
        outcome(result) == federated_context_answer(
            request.deep_view(),
            limits.deep_view(),
            said(*final(repository), *final(memory), *final(links)),
            said(*old(repository), *old(memory), *old(links)),
            final(deadline).answers(),
            old(deadline).answers().len() as int,
        ),
{
    match validate_federation_version(request.scope.wire_version) {
        Ok(()) => {},
        Err(error) => {
            return Err(error);
        },
    }
    if request.seeds.len() == 0 || request.seeds.len() > MAX_FILTERS {
        proof {
            reveal_strlit("context.seeds");
        }
        return Err(backend_error("context.seeds"));
    }
    let budget = EffectiveBudget::new(&request.scope.budget, limits);
    let fingerprint = federated_context_fingerprint(request);
    let payload = match decode_federation_cursor(
        request.cursor.as_ref(),
        "context",
        fingerprint.as_str(),
    ) {
        Ok(payload) => payload,
        Err(error) => {
            return Err(error);
        },
    };
    let offset: u64 = match &payload {
        Some(payload) => payload.offset,
        None => 0,
    };
    if offset > usize::MAX as u64 {
        return Err(MemoryQueryError::StaleCursor);
    }
    let desired = desired_results(offset, budget.max_results);
    let found = collect(repository, memory, links, request, budget, freshness, desired, deadline);
    assert(begins(deadline.answers(), deadline.answers()));
    match found {
        Ok(findings) => answer_context(
            request,
            budget,
            findings,
            &payload,
            offset as usize,
            desired,
            fingerprint.as_str(),
            deadline,
        ),
        Err(error) => Err(error),
    }
}

}
