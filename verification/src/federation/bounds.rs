//! Keeping as many records as there is room for.
use vstd::prelude::*;
use crate::budget::{saturated, saturating_sum};
use crate::federation::fitting::first;
use crate::json::{byte_len, serialized_len, ToJson};
use crate::record::Record;
use crate::repository::{ContextSnippet, ContextSnippetView};

verus! {

/// How many of the records are kept, from one on, and how many bytes are left then: the first ones,
/// as long as there are not too many and they fit.
pub open spec fn kept<T: Record + ToJson>(
    records: Seq<T::V>,
    count: int,
    max_items: int,
    remaining: u64,
) -> (int, u64)
    decreases records.len() - count,
{
    if count >= records.len() || count >= max_items || byte_len(T::json(records[count])) > remaining {
        (count, remaining)
    } else {
        kept::<T>(
            records,
            count + 1,
            max_items,
            (remaining - byte_len(T::json(records[count]))) as u64,
        )
    }
}

/// Keeps the first records, as long as there are not too many and they fit: what is kept, how many
/// bytes are left, and whether records are missing.
pub fn retain_bounded<T: Record + ToJson>(
    records: Vec<T>,
    max_items: usize,
    remaining_bytes: u64,
) -> (result: (Vec<T>, u64, bool))
    ensures
        kept::<T>(records.deep_view(), 0, max_items as int, remaining_bytes) == (
            result.0.len() as int,
            result.1,
        ),
        result.0.deep_view() == records.deep_view().take(result.0.len() as int),
        result.2 == (result.0.len() < records.len()),
        result.0.len() <= records.len(),
        result.1 <= remaining_bytes,
{
    let ghost models = records.deep_view();
    let mut remaining = remaining_bytes;
    let mut count: usize = 0;
    while count < records.len()
        invariant
            count <= records.len(),
            models == records.deep_view(),
            remaining <= remaining_bytes,
            kept::<T>(models, 0, max_items as int, remaining_bytes) == kept::<T>(
                models,
                count as int,
                max_items as int,
                remaining,
            ),
        decreases records.len() - count,
    {
        if count >= max_items {
            return (first(&records, count), remaining, true);
        }
        let bytes = serialized_len(&records[count]);
        assert(models[count as int] == records@[count as int].deep_view());
        if bytes > remaining {
            return (first(&records, count), remaining, true);
        }
        remaining = remaining - bytes;
        count += 1;
    }
    assert(models.take(count as int) =~= models);
    (records, remaining, false)
}

/// How many of the snippets are kept, from one on, and how many bytes are left then: the first ones,
/// as long as their texts and they themselves fit.
pub open spec fn kept_snippets(
    snippets: Seq<ContextSnippetView>,
    count: int,
    text_bytes: u64,
    max_snippet_bytes: u64,
    remaining: u64,
) -> (int, u64)
    decreases snippets.len() - count,
{
    if count >= snippets.len() {
        (count, remaining)
    } else {
        let text = saturated(text_bytes, byte_len(snippets[count].text) as u64);
        let size = byte_len(<ContextSnippet as ToJson>::json(snippets[count]));
        if text > max_snippet_bytes || size > remaining {
            (count, remaining)
        } else {
            kept_snippets(
                snippets,
                count + 1,
                text,
                max_snippet_bytes,
                (remaining - size) as u64,
            )
        }
    }
}

/// Keeps the first snippets, as long as their texts and they themselves fit: what is kept, how many
/// bytes are left, and whether snippets are missing.
pub fn retain_snippets_bounded(
    snippets: Vec<ContextSnippet>,
    max_snippet_bytes: u64,
    remaining_bytes: u64,
) -> (result: (Vec<ContextSnippet>, u64, bool))
    ensures
        kept_snippets(snippets.deep_view(), 0, 0, max_snippet_bytes, remaining_bytes) == (
            result.0.len() as int,
            result.1,
        ),
        result.0.deep_view() == snippets.deep_view().take(result.0.len() as int),
        result.2 == (result.0.len() < snippets.len()),
        result.0.len() <= snippets.len(),
        result.1 <= remaining_bytes,
{
    let ghost models = snippets.deep_view();
    let mut remaining = remaining_bytes;
    let mut text_bytes: u64 = 0;
    let mut count: usize = 0;
    while count < snippets.len()
        invariant
            count <= snippets.len(),
            models == snippets.deep_view(),
            remaining <= remaining_bytes,
            kept_snippets(models, 0, 0, max_snippet_bytes, remaining_bytes) == kept_snippets(
                models,
                count as int,
                text_bytes,
                max_snippet_bytes,
                remaining,
            ),
        decreases snippets.len() - count,
    {
        let snippet = &snippets[count];
        assert(models[count as int] == snippet.deep_view());
        let text = saturating_sum(text_bytes, snippet.text.as_str().as_bytes().len() as u64);
        let bytes = serialized_len(snippet);
        if text > max_snippet_bytes || bytes > remaining {
            return (first(&snippets, count), remaining, true);
        }
        text_bytes = text;
        remaining = remaining - bytes;
        count += 1;
    }
    assert(models.take(count as int) =~= models);
    (snippets, remaining, false)
}

/// What is kept takes exactly the bytes that are no longer left.
pub proof fn kept_records_fit<T: Record + ToJson>(
    records: Seq<T::V>,
    count: int,
    max_items: int,
    remaining: u64,
)
    requires
        0 <= count <= records.len(),
    ensures
        ({
            let (end, left) = kept::<T>(records, count, max_items, remaining);
            &&& count <= end <= records.len()
            &&& left <= remaining
            &&& total_size::<T>(records.subrange(count, end)) == remaining - left
        }),
    decreases records.len() - count,
{
    if count >= records.len() || count >= max_items || byte_len(T::json(records[count])) > remaining {
        assert(records.subrange(count, count).len() == 0);
    } else {
        let rest = (remaining - byte_len(T::json(records[count]))) as u64;
        kept_records_fit::<T>(records, count + 1, max_items, rest);
        let (end, left) = kept::<T>(records, count + 1, max_items, rest);
        let part = records.subrange(count, end);
        assert(part[0] == records[count]);
        assert(part.skip(1) =~= records.subrange(count + 1, end));
    }
}

/// The size of some records.
pub open spec fn total_size<T: Record + ToJson>(records: Seq<T::V>) -> int
    decreases records.len(),
{
    if records.len() == 0 {
        0
    } else {
        byte_len(T::json(records[0])) + total_size::<T>(records.skip(1))
    }
}

}
