//! What is cut from a context answer that is too large.
use vstd::prelude::*;
use crate::deadline::is_up;
use crate::budget::{effective, saturated, EffectiveBudget};
use crate::domain::{MemoryRelationship, MemoryRelationshipView};
use crate::federation::bounds::kept;
use crate::federation::collecting::{context_findings, ContextFindingsView};
use crate::federation::context::{
    all_items, context_found, federated_context_answer, item_size, items_page, reason_before,
    starting, supplements,
};
use crate::federation::crossing::Said;
use crate::federation::search::wanted;
use crate::federation::state::context_identity;
use crate::federation::{
    FederatedContextItemView, FederatedContextRequestView, FederatedContextResponseView,
    FederatedScopeView,
};
use crate::json::{byte_len, json_object};
use crate::query::{MemoryQueryErrorView, MemoryTruncationReason};
use crate::repository::QueryLimitsConfigView;

verus! {

/// The size of some items together.
pub open spec fn items_size(items: Seq<FederatedContextItemView>) -> int
    decreases items.len(),
{
    if items.len() == 0 {
        0
    } else {
        item_size(items[0]) + items_size(items.drop_first())
    }
}

/// Whether the time is not up at any question from one on up to another.
pub open spec fn in_time(answers: Seq<u64>, from: int, to: int) -> bool {
    forall|i: int| from <= i < to ==> !is_up(#[trigger] answers[i])
}

/// A page of items that says nothing of an early end holds all of them.
proof fn whole_page_holds_all(
    items: Seq<FederatedContextItemView>,
    count: int,
    bytes: u64,
    reason: Option<MemoryTruncationReason>,
    budget: EffectiveBudget,
    answers: Seq<u64>,
    at: int,
)
    requires
        0 <= count <= items.len(),
        bytes <= budget.max_bytes,
        bytes + items_size(items.skip(count)) <= u64::MAX,
    ensures
        items_page(items, count, bytes, reason, budget, answers, at) matches Some(page)
            ==> page.reason is None ==> {
            &&& reason is None
            &&& page.count == items.len()
            &&& page.bytes == bytes + items_size(items.skip(count))
            &&& page.bytes <= budget.max_bytes
            &&& count == items.len() || items.len() <= budget.max_results
        },
    decreases items.len() - count,
{
    reveal(items_page);
    let rest = items.skip(count);
    sizes_are_positive(rest);
    if count < items.len() && count < budget.max_results && !is_up(answers[at]) {
        let size = item_size(items[count]);
        assert(rest[0] == items[count]);
        assert(rest.drop_first() =~= items.skip(count + 1));
        sizes_are_positive(items.skip(count + 1));
        if saturated(bytes, size) <= budget.max_bytes {
            whole_page_holds_all(
                items,
                count + 1,
                saturated(bytes, size),
                reason,
                budget,
                answers,
                at + 1,
            );
        }
    }
}

/// Items that fit exactly are all taken, where there is time.
proof fn exact_page_holds_all(
    items: Seq<FederatedContextItemView>,
    count: int,
    bytes: u64,
    budget: EffectiveBudget,
    answers: Seq<u64>,
    at: int,
)
    requires
        0 <= count <= items.len(),
        count == items.len() || items.len() <= budget.max_results,
        bytes + items_size(items.skip(count)) == budget.max_bytes,
        in_time(answers, at, at + items.len() - count),
    ensures
        items_page(items, count, bytes, None, budget, answers, at) matches Some(page) && page.count
            == items.len() && page.bytes == budget.max_bytes && page.reason is None && page.at == at
            + items.len() - count,
    decreases items.len() - count,
{
    reveal(items_page);
    let rest = items.skip(count);
    if count < items.len() {
        let size = item_size(items[count]);
        assert(!is_up(answers[at]));
        assert(rest[0] == items[count]);
        assert(rest.drop_first() =~= items.skip(count + 1));
        sizes_are_positive(items.skip(count + 1));
        assert(saturated(bytes, size) == bytes + size);
        exact_page_holds_all(items, count + 1, (bytes + size) as u64, budget, answers, at + 1);
    }
}

proof fn sizes_are_positive(items: Seq<FederatedContextItemView>)
    ensures
        items_size(items) >= 0,
    decreases items.len(),
{
    if items.len() > 0 {
        sizes_are_positive(items.drop_first());
    }
}

/// No JSON object is empty.
proof fn objects_have_bytes(members: Seq<(Seq<char>, Seq<char>)>)
    ensures
        byte_len(json_object(members)) > 0,
{
    reveal_strlit("{");
    let text = json_object(members);
    assert(text[0] == '{');
    vstd::utf8::encode_utf8_decode_utf8(text);
    if byte_len(text) == 0 {
        assert(vstd::utf8::encode_utf8(text) =~= Seq::<u8>::empty());
        assert(vstd::utf8::decode_utf8(Seq::<u8>::empty()).len() == 0);
    }
}

/// Where no byte is left, no record is kept.
proof fn nothing_is_kept(records: Seq<MemoryRelationshipView>, max_items: int)
    ensures
        kept::<MemoryRelationship>(records, 0, max_items, 0) == (0int, 0u64),
{
    if records.len() > 0 {
        objects_have_bytes(records[0].members());
    }
}

proof fn links_are_cut(
    findings: ContextFindingsView,
    items: Seq<FederatedContextItemView>,
    budget: EffectiveBudget,
)
    requires
        starting(findings.links, items).len() > 0,
    ensures
        supplements(findings, items, budget, 0).truncated,
        supplements(findings, items, budget, 0).links.len() == 0,
        supplements(findings, items, budget, 0).relationships.len() == 0,
{
    reveal(supplements);
    let relationships = crate::sort::distinct_keys::<MemoryRelationship>(
        crate::sort::sorted::<MemoryRelationship>(
            crate::federation::context::touching(
                crate::federation::context::answered_relationships(findings.memory),
                items,
            ),
        ),
    );
    nothing_is_kept(relationships, budget.max_results as int);
    nothing_is_kept(starting(findings.links, items), budget.max_results as int);
}

/// The same findings, once with room for everything, and once with room for the items alone.
proof fn found_with_less_room(
    first: FederatedContextRequestView,
    second: FederatedContextRequestView,
    budget: EffectiveBudget,
    findings: ContextFindingsView,
    fingerprint: Seq<char>,
    second_fingerprint: Seq<char>,
    answers: Seq<u64>,
    at: int,
    second_answers: Seq<u64>,
    second_at: int,
    complete: FederatedContextResponseView,
)
    requires
        context_found(first, budget, findings, None, fingerprint, answers, at) == Ok::<
            _,
            MemoryQueryErrorView,
        >(complete),
        complete.page.truncation is None,
        complete.cross_domain_links.len() > 0,
        items_size(all_items(findings)) <= u64::MAX,
        in_time(second_answers, second_at, second_at + all_items(findings).len() + 1),
    ensures
        context_found(
            second,
            EffectiveBudget { max_bytes: items_size(complete.items) as u64, ..budget },
            findings,
            None,
            second_fingerprint,
            second_answers,
            second_at,
        ) matches Ok(response) && {
            &&& response.items == complete.items
            &&& response.cross_domain_links.len() == 0
            &&& response.page.truncation is Some
            &&& response.page.truncation->0.reason == MemoryTruncationReason::Bytes
            &&& response.page.next_cursor is None
        },
{
    reveal(context_found);
    let items = all_items(findings);
    let rest = items.skip(0);
    assert(rest =~= items);
    let reason = reason_before(findings, wanted(0, budget.max_results));
    let smaller = EffectiveBudget { max_bytes: items_size(complete.items) as u64, ..budget };
    whole_page_holds_all(rest, 0, 0, reason, budget, answers, at);
    let page = items_page(rest, 0, 0, reason, budget, answers, at)->0;
    assert(page.reason is None);
    assert(rest.take(page.count) =~= items);
    assert(complete.items == items);
    exact_page_holds_all(rest, 0, 0, smaller, second_answers, second_at);
    let shorter = items_page(rest, 0, 0, reason, smaller, second_answers, second_at)->0;
    assert(rest.take(shorter.count) =~= items);
    assert(starting(findings.links, items).len() > 0) by {
        reveal(supplements);
    }
    links_are_cut(findings, items, smaller);
}

/// A context answer that is too large loses its links and snippets before its items: with room for
/// exactly the items of an answer that was not cut short, the same findings give all of these items, no
/// link, and no cursor, because no item is left; and the answer says that it was cut short for its size.
pub proof fn items_outlast_links(
    first: FederatedContextRequestView,
    second: FederatedContextRequestView,
    limits: QueryLimitsConfigView,
    all: Said,
    from: Said,
    answers: Seq<u64>,
    at: int,
    second_all: Said,
    second_from: Said,
    second_answers: Seq<u64>,
    second_at: int,
    complete: FederatedContextResponseView,
    findings: ContextFindingsView,
    collected_at: int,
    second_collected_at: int,
)
    requires
        federated_context_answer(first, limits, all, from, answers, at) == Ok::<
            _,
            MemoryQueryErrorView,
        >(complete),
        complete.page.truncation is None,
        complete.cross_domain_links.len() > 0,
        first.cursor is None,
        second == (FederatedContextRequestView {
            scope: FederatedScopeView { budget: second.scope.budget, ..first.scope },
            ..first
        }),
        effective(second.scope.budget, limits) == (EffectiveBudget {
            max_bytes: items_size(complete.items) as u64,
            ..effective(first.scope.budget, limits)
        }),
        context_findings(
            first,
            effective(first.scope.budget, limits),
            wanted(0, effective(first.scope.budget, limits).max_results),
            all,
            from,
            answers,
            at,
        ) == Ok::<_, MemoryQueryErrorView>((findings, collected_at)),
        context_findings(
            second,
            effective(second.scope.budget, limits),
            wanted(0, effective(second.scope.budget, limits).max_results),
            second_all,
            second_from,
            second_answers,
            second_at,
        ) == Ok::<_, MemoryQueryErrorView>((findings, second_collected_at)),
        items_size(all_items(findings)) <= u64::MAX,
        in_time(
            second_answers,
            second_collected_at,
            second_collected_at + all_items(findings).len() + 1,
        ),
    ensures
        federated_context_answer(
            second,
            limits,
            second_all,
            second_from,
            second_answers,
            second_at,
        ) matches Ok(response) && {
            &&& response.items == complete.items
            &&& response.cross_domain_links.len() == 0
            &&& response.page.truncation is Some
            &&& response.page.truncation->0.reason == MemoryTruncationReason::Bytes
            &&& response.page.next_cursor is None
        },
{
    found_with_less_room(
        first,
        second,
        effective(first.scope.budget, limits),
        findings,
        context_identity(first),
        context_identity(second),
        answers,
        collected_at,
        second_answers,
        second_collected_at,
        complete,
    );
}

}
