//! Stable sorting by keys, and leaving out what follows its equal.
use vstd::prelude::*;
use vstd::relations::{sorted_by, total_ordering};
use crate::order::{
    text_before, text_lt, text_order_is_strict, text_order_is_total, text_order_is_transitive,
};
use crate::record::Record;

verus! {

/// What records are ordered by: two numbers, a text, and two more numbers.
#[verifier::ext_equal]
pub struct SortKey {
    pub first: int,
    pub second: int,
    pub text: Seq<char>,
    pub third: int,
    pub fourth: int,
}

/// The key that is a text alone.
pub open spec fn text_key(text: Seq<char>) -> SortKey {
    SortKey { first: 0, second: 0, text, third: 0, fourth: 0 }
}

/// Whether one key comes before the other.
pub open spec fn key_lt(left: SortKey, right: SortKey) -> bool {
    if left.first != right.first {
        left.first < right.first
    } else if left.second != right.second {
        left.second < right.second
    } else if left.text != right.text {
        text_lt(left.text, right.text)
    } else if left.third != right.third {
        left.third < right.third
    } else {
        left.fourth < right.fourth
    }
}

/// Two different keys are ordered one way, and no two keys both ways.
pub proof fn key_order_is_total(left: SortKey, right: SortKey)
    ensures
        left == right || key_lt(left, right) || key_lt(right, left),
        !(key_lt(left, right) && key_lt(right, left)),
        !key_lt(left, left),
{
    text_order_is_total(left.text, right.text);
    text_order_is_strict(left.text, right.text);
}

/// The order of keys is transitive.
pub proof fn key_order_is_transitive(first: SortKey, second: SortKey, third: SortKey)
    requires
        !key_lt(second, first),
        !key_lt(third, second),
    ensures
        !key_lt(third, first),
{
    text_order_is_total(first.text, second.text);
    text_order_is_total(second.text, third.text);
    text_order_is_total(first.text, third.text);
    text_order_is_strict(first.text, second.text);
    text_order_is_strict(second.text, third.text);
    text_order_is_strict(first.text, third.text);
    if text_lt(first.text, second.text) && text_lt(second.text, third.text) {
        text_order_is_transitive(first.text, second.text, third.text);
    }
}

/// A record with a place in an order.
pub trait Sortable: Record {
    /// What the record is ordered by.
    spec fn key(model: Self::V) -> SortKey;

    /// Whether the record comes before the other.
    fn before(&self, other: &Self) -> (before: bool)
        ensures
            before == key_lt(Self::key(self.deep_view()), Self::key(other.deep_view())),
    ;
}

impl Sortable for String {
    open spec fn key(model: Seq<char>) -> SortKey {
        text_key(model)
    }

    fn before(&self, other: &Self) -> (before: bool) {
        proof {
            text_order_is_strict(self@, other@);
            assert(self.deep_view() == self@);
            assert(other.deep_view() == other@);
            assert(Self::key(self.deep_view()) == text_key(self@));
            assert(Self::key(other.deep_view()) == text_key(other@));
        }
        text_before(self.as_str(), other.as_str())
    }
}

/// The sequence with one more record, behind all that do not come after it.
pub open spec fn with_sorted<T: Sortable>(models: Seq<T::V>, model: T::V) -> Seq<T::V>
    decreases models.len(),
{
    if models.len() > 0 && key_lt(T::key(model), T::key(models.last())) {
        with_sorted::<T>(models.drop_last(), model).push(models.last())
    } else {
        models.push(model)
    }
}

/// The records in the order of their keys; those with equal keys keep their order.
pub open spec fn sorted<T: Sortable>(models: Seq<T::V>) -> Seq<T::V>
    decreases models.len(),
{
    if models.len() == 0 {
        models
    } else {
        with_sorted::<T>(sorted::<T>(models.drop_last()), models.last())
    }
}

/// Whether no record stands behind one that it comes before.
pub open spec fn is_sorted<T: Sortable>(models: Seq<T::V>) -> bool {
    forall|i: int, j: int|
        0 <= i < j < models.len() ==> !key_lt(T::key(#[trigger] models[j]), T::key(#[trigger] models[i]))
}

proof fn with_sorted_is_sorted<T: Sortable>(models: Seq<T::V>, model: T::V)
    requires
        is_sorted::<T>(models),
    ensures
        is_sorted::<T>(with_sorted::<T>(models, model)),
        with_sorted::<T>(models, model).to_multiset() == models.to_multiset().insert(model),
        with_sorted::<T>(models, model).len() == models.len() + 1,
    decreases models.len(),
{
    broadcast use vstd::seq_lib::group_to_multiset_ensures;

    let result = with_sorted::<T>(models, model);
    if models.len() > 0 && key_lt(T::key(model), T::key(models.last())) {
        let rest = models.drop_last();
        let inner = with_sorted::<T>(rest, model);
        with_sorted_is_sorted::<T>(rest, model);
        assert(models =~= rest.push(models.last()));
        assert(models.to_multiset() =~= rest.to_multiset().insert(models.last()));
        assert(result.to_multiset() =~= models.to_multiset().insert(model));
        assert forall|i: int|
            0 <= i < inner.len() implies !key_lt(T::key(models.last()), T::key(#[trigger] inner[i])) by {
            assert(inner.to_multiset().contains(inner[i]));
            if inner[i] == model {
                key_order_is_total(T::key(model), T::key(models.last()));
            } else {
                assert(rest.to_multiset().contains(inner[i]));
                let j = choose|j: int| 0 <= j < rest.len() && rest[j] == inner[i];
                assert(!key_lt(T::key(models[models.len() - 1]), T::key(models[j])));
            }
        }
    } else {
        if models.len() > 0 {
            assert forall|i: int|
                0 <= i < models.len() implies !key_lt(T::key(model), T::key(#[trigger] models[i])) by {
                if i < models.len() - 1 {
                    key_order_is_transitive(T::key(models[i]), T::key(models.last()), T::key(model));
                }
            }
        }
        assert(result.to_multiset() =~= models.to_multiset().insert(model));
    }
}

/// Sorting orders the records and neither loses nor adds one.
pub proof fn sorting_orders_and_keeps<T: Sortable>(models: Seq<T::V>)
    ensures
        is_sorted::<T>(sorted::<T>(models)),
        sorted::<T>(models).to_multiset() == models.to_multiset(),
        sorted::<T>(models).len() == models.len(),
    decreases models.len(),
{
    broadcast use vstd::seq_lib::group_to_multiset_ensures;

    if models.len() > 0 {
        let rest = models.drop_last();
        sorting_orders_and_keeps::<T>(rest);
        with_sorted_is_sorted::<T>(sorted::<T>(rest), models.last());
        assert(models =~= rest.push(models.last()));
        assert(models.to_multiset() =~= rest.to_multiset().insert(models.last()));
    }
}

/// The order of texts in which a text also comes before itself.
pub open spec fn text_le() -> spec_fn(Seq<char>, Seq<char>) -> bool {
    |left: Seq<char>, right: Seq<char>| !text_lt(right, left)
}

/// That order is a total one.
pub proof fn text_le_is_total()
    ensures
        total_ordering(text_le()),
{
    let le = text_le();
    assert forall|a: Seq<char>| #[trigger] le(a, a) by {
        text_order_is_strict(a, a);
    }
    assert forall|a: Seq<char>, b: Seq<char>|
        #[trigger] le(a, b) && #[trigger] le(b, a) implies a == b by {
        text_order_is_total(a, b);
    }
    assert forall|a: Seq<char>, b: Seq<char>, c: Seq<char>|
        #[trigger] le(a, b) && #[trigger] le(b, c) implies le(a, c) by {
        key_order_is_transitive(text_key(a), text_key(b), text_key(c));
        text_order_is_strict(a, a);
        text_order_is_strict(b, a);
        text_order_is_strict(c, b);
        text_order_is_strict(c, a);
    }
    assert forall|a: Seq<char>, b: Seq<char>| #[trigger] le(a, b) || #[trigger] le(b, a) by {
        text_order_is_strict(a, b);
    }
}

/// Sorting texts does not depend on the order in which they came.
pub proof fn sorting_texts_ignores_their_order(left: Seq<Seq<char>>, right: Seq<Seq<char>>)
    requires
        left.to_multiset() == right.to_multiset(),
    ensures
        sorted::<String>(left) == sorted::<String>(right),
{
    sorting_orders_and_keeps::<String>(left);
    sorting_orders_and_keeps::<String>(right);
    text_le_is_total();
    texts_are_sorted_by(sorted::<String>(left));
    texts_are_sorted_by(sorted::<String>(right));
    vstd::seq_lib::lemma_sorted_unique(sorted::<String>(left), sorted::<String>(right), text_le());
}

proof fn texts_are_sorted_by(texts: Seq<Seq<char>>)
    requires
        is_sorted::<String>(texts),
    ensures
        sorted_by(texts, text_le()),
{
    assert forall|i: int, j: int|
        0 <= i < j < texts.len() implies #[trigger] text_le()(texts[i], texts[j]) by {
        assert(!key_lt(<String as Sortable>::key(texts[j]), <String as Sortable>::key(texts[i])));
        text_order_is_strict(texts[j], texts[i]);
    }
}

/// The records in the order of their keys; those with equal keys keep their order.
pub fn sort<T: Sortable>(records: Vec<T>) -> (result: Vec<T>)
    ensures
        result.deep_view() == sorted::<T>(records.deep_view()),
{
    let ghost models = records.deep_view();
    let mut left = records;
    let mut result: Vec<T> = Vec::new();
    assert(result.deep_view() =~= sorted::<T>(models.take(0)));
    assert(left.deep_view() =~= models.skip(0));
    // The records are taken from the front, one by one.
    let mut queue: Vec<T> = Vec::new();
    while left.len() > 0
        invariant
            left.len() + queue.len() == models.len(),
            left.deep_view() =~= models.take(left.len() as int),
            forall|i: int| 0 <= i < queue.len() ==> (#[trigger] queue[i]).deep_view() == models[models.len() - 1 - i],
        decreases left.len(),
    {
        let ghost before = left@;
        match left.pop() {
            Some(record) => {
                assert(before.last() == record);
                assert(record.deep_view() == models[left.len() as int]) by {
                    assert(models.take(before.len() as int)[before.len() - 1] == models[before.len() - 1]);
                }
                queue.push(record);
                assert(left.deep_view() =~= models.take(left.len() as int));
            },
            None => {},
        }
    }
    while queue.len() > 0
        invariant
            result.len() + queue.len() == models.len(),
            result.deep_view() == sorted::<T>(models.take(result.len() as int)),
            forall|i: int| 0 <= i < queue.len() ==> (#[trigger] queue[i]).deep_view() == models[models.len() - 1 - i],
        decreases queue.len(),
    {
        let ghost taken = models.take(result.len() as int);
        let ghost next = models.take(result.len() + 1);
        let ghost before = queue@;
        match queue.pop() {
            Some(record) => {
                assert(before.last() == record);
                assert(record.deep_view() == models[result.len() as int]);
                assert(next.drop_last() =~= taken);
                proof {
                    sorting_orders_and_keeps::<T>(taken);
                    with_sorted_is_sorted::<T>(sorted::<T>(taken), record.deep_view());
                }
                insert_sorted(&mut result, record);
            },
            None => {},
        }
    }
    assert(models.take(result.len() as int) =~= models);
    result
}

fn insert_sorted<T: Sortable>(records: &mut Vec<T>, record: T)
    ensures
        final(records).deep_view() == with_sorted::<T>(old(records).deep_view(), record.deep_view()),
        final(records).len() == old(records).len() + 1,
{
    let ghost models = records.deep_view();
    let ghost model = record.deep_view();
    let mut at: usize = records.len();
    assert(models.take(at as int) =~= models);
    assert(models.skip(at as int) =~= Seq::empty());
    assert(with_sorted::<T>(models, model) =~= with_sorted::<T>(models.take(at as int), model)
        + models.skip(at as int));
    while at > 0 && record.before(&records[at - 1])
        invariant
            at <= records.len(),
            records.deep_view() == models,
            record.deep_view() == model,
            with_sorted::<T>(models, model) =~= with_sorted::<T>(models.take(at as int), model)
                + models.skip(at as int),
        decreases at,
    {
        let ghost upper = models.take(at as int);
        assert(upper.last() == records@[at - 1].deep_view());
        assert(upper.drop_last() =~= models.take(at - 1));
        assert(with_sorted::<T>(upper, model) =~= with_sorted::<T>(models.take(at - 1), model).push(
            models[at - 1],
        ));
        assert(models.skip(at - 1) =~= seq![models[at - 1]] + models.skip(at as int));
        at -= 1;
    }
    proof {
        let upper = models.take(at as int);
        if at > 0 {
            assert(upper.last() == records@[at - 1].deep_view());
        }
        assert(with_sorted::<T>(upper, model) =~= upper.push(model));
    }
    records.insert(at, record);
    assert(records.deep_view() =~= models.insert(at as int, model));
    assert(models.insert(at as int, model) =~= models.take(at as int).push(model) + models.skip(
        at as int,
    ));
}

/// The sequence with one more record in its place; a record with the same key gives way to it.
pub open spec fn with_keyed<T: Sortable>(models: Seq<T::V>, model: T::V) -> Seq<T::V>
    decreases models.len(),
{
    if models.len() == 0 {
        models.push(model)
    } else if T::key(model) == T::key(models.last()) {
        models.drop_last().push(model)
    } else if key_lt(T::key(model), T::key(models.last())) {
        with_keyed::<T>(models.drop_last(), model).push(models.last())
    } else {
        models.push(model)
    }
}

/// Whether every record has a greater key than the one before it.
pub open spec fn is_keyed<T: Sortable>(models: Seq<T::V>) -> bool {
    forall|i: int, j: int|
        0 <= i < j < models.len() ==> key_lt(T::key(#[trigger] models[i]), T::key(#[trigger] models[j]))
}

/// Putting a record in its place keeps the keys growing, and changes nothing but the record with
/// that key.
pub proof fn keyed_stays_keyed<T: Sortable>(models: Seq<T::V>, model: T::V)
    requires
        is_keyed::<T>(models),
    ensures
        is_keyed::<T>(with_keyed::<T>(models, model)),
        with_keyed::<T>(models, model).contains(model),
        forall|other: T::V| #[trigger]
            with_keyed::<T>(models, model).contains(other) ==> other == model || models.contains(other),
        forall|other: T::V| #[trigger]
            models.contains(other) && T::key(other) != T::key(model) ==> with_keyed::<T>(
                models,
                model,
            ).contains(other),
    decreases models.len(),
{
    let result = with_keyed::<T>(models, model);
    if models.len() == 0 {
        assert(result[0] == model);
    } else {
        let rest = models.drop_last();
        let last = models.last();
        key_order_is_total(T::key(model), T::key(last));
        assert(is_keyed::<T>(rest));
        if T::key(model) == T::key(last) {
            assert(result[models.len() - 1] == model);
            assert forall|other: T::V| #[trigger] result.contains(other) implies other == model
                || models.contains(other) by {
                let i = choose|i: int| 0 <= i < result.len() && result[i] == other;
                if i < rest.len() {
                    assert(models[i] == other);
                }
            }
            assert forall|other: T::V| #[trigger]
                models.contains(other) && T::key(other) != T::key(model) implies result.contains(other) by {
                let i = choose|i: int| 0 <= i < models.len() && models[i] == other;
                assert(result[i] == other);
            }
        } else if key_lt(T::key(model), T::key(last)) {
            keyed_stays_keyed::<T>(rest, model);
            let inner = with_keyed::<T>(rest, model);
            assert forall|i: int| 0 <= i < inner.len() implies key_lt(
                T::key(#[trigger] inner[i]),
                T::key(last),
            ) by {
                assert(inner.contains(inner[i]));
                if inner[i] != model {
                    let j = choose|j: int| 0 <= j < rest.len() && rest[j] == inner[i];
                    assert(models[j] == inner[i]);
                    assert(models[models.len() - 1] == last);
                }
            }
            let at = choose|at: int| 0 <= at < inner.len() && inner[at] == model;
            assert(result[at] == model);
            assert forall|other: T::V| #[trigger] result.contains(other) implies other == model
                || models.contains(other) by {
                let i = choose|i: int| 0 <= i < result.len() && result[i] == other;
                if i < inner.len() {
                    assert(inner.contains(inner[i]));
                    if other != model {
                        let j = choose|j: int| 0 <= j < rest.len() && rest[j] == other;
                        assert(models[j] == other);
                    }
                } else {
                    assert(models[models.len() - 1] == other);
                }
            }
            assert forall|other: T::V| #[trigger]
                models.contains(other) && T::key(other) != T::key(model) implies result.contains(other) by {
                let i = choose|i: int| 0 <= i < models.len() && models[i] == other;
                if i < rest.len() {
                    assert(rest[i] == other);
                    assert(rest.contains(other));
                    assert(inner.contains(other));
                    let j = choose|j: int| 0 <= j < inner.len() && inner[j] == other;
                    assert(result[j] == other);
                } else {
                    assert(result[result.len() - 1] == other);
                }
            }
        } else {
            assert forall|i: int| 0 <= i < models.len() implies key_lt(
                T::key(#[trigger] models[i]),
                T::key(model),
            ) by {
                key_order_is_total(T::key(models[i]), T::key(model));
                if i < models.len() - 1 {
                    assert(key_lt(T::key(models[i]), T::key(models[models.len() - 1])));
                    key_order_is_total(T::key(models[i]), T::key(last));
                    key_order_is_transitive(T::key(models[i]), T::key(last), T::key(model));
                    if T::key(models[i]) == T::key(model) {
                        assert(false);
                    }
                }
            }
            assert(result[models.len() as int] == model);
            assert forall|other: T::V| #[trigger] result.contains(other) implies other == model
                || models.contains(other) by {
                let i = choose|i: int| 0 <= i < result.len() && result[i] == other;
                if i < models.len() {
                    assert(models[i] == other);
                }
            }
            assert forall|other: T::V| #[trigger]
                models.contains(other) && T::key(other) != T::key(model) implies result.contains(other) by {
                let i = choose|i: int| 0 <= i < models.len() && models[i] == other;
                assert(result[i] == other);
            }
        }
    }
}

/// Puts a record in its place; a record with the same key gives way to it.
pub fn insert_keyed<T: Sortable>(records: &mut Vec<T>, record: T)
    ensures
        final(records).deep_view() == with_keyed::<T>(old(records).deep_view(), record.deep_view()),
{
    let ghost models = records.deep_view();
    let ghost model = record.deep_view();
    let mut place: usize = records.len();
    assert(models.take(place as int) + models.skip(place as int) =~= models);
    assert(with_keyed::<T>(models.take(place as int), model) + models.skip(place as int) =~= with_keyed::<T>(
        models,
        model,
    ));
    while place > 0 && record.before(&records[place - 1])
        invariant
            place <= records.len(),
            records.deep_view() == models,
            record.deep_view() == model,
            with_keyed::<T>(models.take(place as int), model) + models.skip(place as int) == with_keyed::<T>(
                models,
                model,
            ),
        decreases place,
    {
        proof {
            let whole = models.take(place as int);
            assert(whole.last() == records@[place - 1].deep_view());
            key_order_is_total(T::key(model), T::key(whole.last()));
            assert(whole.drop_last() =~= models.take(place - 1));
            assert(with_keyed::<T>(models.take(place - 1), model) + models.skip(place - 1) =~= with_keyed::<T>(
                whole,
                model,
            ) + models.skip(place as int));
        }
        place -= 1;
    }
    let ghost whole = models.take(place as int);
    if place > 0 && !records[place - 1].before(&record) {
        proof {
            assert(whole.last() == records@[place - 1].deep_view());
            key_order_is_total(T::key(model), T::key(whole.last()));
            assert(with_keyed::<T>(whole, model) + models.skip(place as int) =~= models.update(place - 1, model));
        }
        records.set(place - 1, record);
        assert(records.deep_view() =~= models.update(place - 1, model));
    } else {
        proof {
            if place > 0 {
                assert(whole.last() == records@[place - 1].deep_view());
                key_order_is_total(T::key(model), T::key(whole.last()));
            }
            assert(with_keyed::<T>(whole, model) + models.skip(place as int) =~= models.insert(
                place as int,
                model,
            ));
        }
        records.insert(place, record);
        assert(records.deep_view() =~= models.insert(place as int, model));
    }
}

/// A record that can be told to stand for the same thing as another.
pub trait Identified: Record {
    /// What the record stands for.
    spec fn identity(model: Self::V) -> Seq<char>;

    /// Whether both records stand for the same thing.
    fn same_identity(&self, other: &Self) -> (same: bool)
        ensures
            same == (Self::identity(self.deep_view()) == Self::identity(other.deep_view())),
    ;
}

/// The records without those that follow one with the same identity.
pub open spec fn deduplicated<T: Identified>(models: Seq<T::V>) -> Seq<T::V>
    decreases models.len(),
{
    if models.len() == 0 {
        models
    } else {
        let rest = deduplicated::<T>(models.drop_last());
        if rest.len() > 0 && T::identity(rest.last()) == T::identity(models.last()) {
            rest
        } else {
            rest.push(models.last())
        }
    }
}

/// The records without those that follow one with the same identity.
pub fn dedup<T: Identified>(records: &Vec<T>) -> (result: Vec<T>)
    ensures
        result.deep_view() == deduplicated::<T>(records.deep_view()),
{
    let mut result: Vec<T> = Vec::new();
    let mut at: usize = 0;
    assert(result.deep_view() =~= deduplicated::<T>(records.deep_view().take(0)));
    while at < records.len()
        invariant
            at <= records.len(),
            result.deep_view() == deduplicated::<T>(records.deep_view().take(at as int)),
        decreases records.len() - at,
    {
        let ghost next = records.deep_view().take(at + 1);
        assert(next.drop_last() =~= records.deep_view().take(at as int));
        assert(next.last() == records@[at as int].deep_view());
        let ghost before = result.deep_view();
        let repeated = result.len() > 0 && result[result.len() - 1].same_identity(&records[at]);
        assert(result.len() > 0 ==> before.last() == result@.last().deep_view());
        if !repeated {
            result.push(records[at].copied());
            assert(result.deep_view() =~= before.push(next.last()));
        }
        at += 1;
    }
    assert(records.deep_view().take(at as int) =~= records.deep_view());
    result
}

/// The records without those that follow one with the same key.
pub open spec fn distinct_keys<T: Sortable>(models: Seq<T::V>) -> Seq<T::V>
    decreases models.len(),
{
    if models.len() == 0 {
        models
    } else {
        let rest = distinct_keys::<T>(models.drop_last());
        if rest.len() > 0 && T::key(rest.last()) == T::key(models.last()) {
            rest
        } else {
            rest.push(models.last())
        }
    }
}

/// The records without those that follow one with the same key.
pub fn dedup_keys<T: Sortable>(records: &Vec<T>) -> (result: Vec<T>)
    ensures
        result.deep_view() == distinct_keys::<T>(records.deep_view()),
{
    let mut result: Vec<T> = Vec::new();
    let mut at: usize = 0;
    assert(result.deep_view() =~= distinct_keys::<T>(records.deep_view().take(0)));
    while at < records.len()
        invariant
            at <= records.len(),
            result.deep_view() == distinct_keys::<T>(records.deep_view().take(at as int)),
        decreases records.len() - at,
    {
        let ghost next = records.deep_view().take(at + 1);
        assert(next.drop_last() =~= records.deep_view().take(at as int));
        assert(next.last() == records@[at as int].deep_view());
        let ghost before = result.deep_view();
        let repeated = result.len() > 0 && !result[result.len() - 1].before(&records[at])
            && !records[at].before(&result[result.len() - 1]);
        proof {
            if result.len() > 0 {
                assert(before.last() == result@.last().deep_view());
                key_order_is_total(T::key(before.last()), T::key(next.last()));
            }
        }
        if !repeated {
            result.push(records[at].copied());
            assert(result.deep_view() =~= before.push(next.last()));
        }
        at += 1;
    }
    assert(records.deep_view().take(at as int) =~= records.deep_view());
    result
}

}
