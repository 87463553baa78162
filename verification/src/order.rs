//! The order of texts, and maps whose keys are texts in that order.
use vstd::prelude::*;
use crate::record::Record;

verus! {

/// Whether `left` comes before `right`, character by character from the front.
pub open spec fn text_lt(left: Seq<char>, right: Seq<char>) -> bool
    decreases left.len(),
{
    if right.len() == 0 {
        false
    } else if left.len() == 0 {
        true
    } else if left[0] == right[0] {
        text_lt(left.drop_first(), right.drop_first())
    } else {
        left[0] < right[0]
    }
}

/// Two different texts are ordered one way.
pub proof fn text_order_is_total(left: Seq<char>, right: Seq<char>)
    ensures
        left == right || text_lt(left, right) || text_lt(right, left),
    decreases left.len(),
{
    if left.len() > 0 && right.len() > 0 && left[0] == right[0] {
        text_order_is_total(left.drop_first(), right.drop_first());
        if left.drop_first() == right.drop_first() {
            assert(left =~= seq![left[0]] + left.drop_first());
            assert(right =~= seq![right[0]] + right.drop_first());
        }
    } else if left.len() == 0 && right.len() == 0 {
        assert(left =~= right);
    }
}

/// No text comes before itself, and no two texts come before each other.
pub proof fn text_order_is_strict(left: Seq<char>, right: Seq<char>)
    ensures
        !(text_lt(left, right) && text_lt(right, left)),
        text_lt(left, right) ==> left != right,
    decreases left.len(),
{
    if left.len() > 0 && right.len() > 0 && left[0] == right[0] {
        text_order_is_strict(left.drop_first(), right.drop_first());
    }
    if left == right && left.len() > 0 {
        text_order_is_strict(left.drop_first(), left.drop_first());
    }
}

/// The order of texts is transitive.
pub proof fn text_order_is_transitive(first: Seq<char>, second: Seq<char>, third: Seq<char>)
    requires
        text_lt(first, second),
        text_lt(second, third),
    ensures
        text_lt(first, third),
    decreases first.len(),
{
    if first.len() > 0 && first[0] == second[0] && second[0] == third[0] {
        text_order_is_transitive(first.drop_first(), second.drop_first(), third.drop_first());
    }
}

/// Whether `left` comes before `right`.
pub fn text_before(left: &str, right: &str) -> (before: bool)
    ensures
        before == text_lt(left@, right@),
{
    let left_chars = crate::text::chars_of(left);
    let right_chars = crate::text::chars_of(right);
    let mut at: usize = 0;
    assert(left@.skip(0) =~= left@);
    assert(right@.skip(0) =~= right@);
    while at < left_chars.len() && at < right_chars.len()
        invariant
            left_chars@ == left@,
            right_chars@ == right@,
            at <= left@.len(),
            at <= right@.len(),
            text_lt(left@, right@) == text_lt(left@.skip(at as int), right@.skip(at as int)),
        decreases left_chars.len() - at,
    {
        if left_chars[at] != right_chars[at] {
            return left_chars[at] < right_chars[at];
        }
        assert(left@.skip(at as int).drop_first() =~= left@.skip(at + 1));
        assert(right@.skip(at as int).drop_first() =~= right@.skip(at + 1));
        at += 1;
    }
    at < right_chars.len()
}

/// Whether every text comes before the next one.
pub open spec fn increasing(keys: Seq<Seq<char>>) -> bool {
    forall|i: int, j: int| 0 <= i < j < keys.len() ==> text_lt(#[trigger] keys[i], #[trigger] keys[j])
}

/// The texts of a set, each once, in their order.
pub open spec fn in_order(keys: Set<Seq<char>>) -> Seq<Seq<char>> {
    choose|ordered: Seq<Seq<char>>| increasing(ordered) && ordered.to_set() == keys
}

/// There is one increasing sequence of a set's texts.
pub proof fn increasing_is_unique(left: Seq<Seq<char>>, right: Seq<Seq<char>>)
    requires
        increasing(left),
        increasing(right),
        left.to_set() == right.to_set(),
    ensures
        left == right,
    decreases left.len(),
{
    broadcast use vstd::seq_lib::group_to_multiset_ensures;

    if left.len() == 0 || right.len() == 0 {
        if left.len() > 0 {
            assert(left.to_set().contains(left[0]));
        }
        if right.len() > 0 {
            assert(right.to_set().contains(right[0]));
        }
        assert(left =~= right);
    } else {
        let last = left.last();
        assert(left.to_set().contains(last));
        let at = choose|i: int| 0 <= i < right.len() && right[i] == last;
        assert(right.to_set().contains(right.last()));
        let there = choose|i: int| 0 <= i < left.len() && left[i] == right.last();
        if at < right.len() - 1 {
            assert(text_lt(right[at], right.last()));
            if there < left.len() - 1 {
                assert(text_lt(left[there], left.last()));
                text_order_is_strict(last, right.last());
            }
            text_order_is_strict(last, right.last());
        }
        assert(left.last() == right.last());
        let left_rest = left.drop_last();
        let right_rest = right.drop_last();
        assert(left_rest.to_set() =~= right_rest.to_set()) by {
            assert forall|key: Seq<char>|
                left_rest.to_set().contains(key) implies right_rest.to_set().contains(key) by {
                let i = choose|i: int| 0 <= i < left_rest.len() && left_rest[i] == key;
                assert(left[i] == key);
                assert(left.to_set().contains(key));
                let j = choose|j: int| 0 <= j < right.len() && right[j] == key;
                text_order_is_strict(left[i], last);
                assert(j < right.len() - 1);
                assert(right_rest[j] == key);
            }
            assert forall|key: Seq<char>|
                right_rest.to_set().contains(key) implies left_rest.to_set().contains(key) by {
                let i = choose|i: int| 0 <= i < right_rest.len() && right_rest[i] == key;
                assert(right[i] == key);
                assert(right.to_set().contains(key));
                let j = choose|j: int| 0 <= j < left.len() && left[j] == key;
                text_order_is_strict(right[i], last);
                assert(j < left.len() - 1);
                assert(left_rest[j] == key);
            }
        }
        increasing_is_unique(left_rest, right_rest);
        assert(left =~= left_rest.push(last));
        assert(right =~= right_rest.push(last));
    }
}

/// An increasing sequence is the ordered form of its set.
pub proof fn increasing_is_in_order(keys: Seq<Seq<char>>)
    requires
        increasing(keys),
    ensures
        in_order(keys.to_set()) == keys,
{
    increasing_is_unique(in_order(keys.to_set()), keys);
}

/// The ordered form of a sequence's texts holds those texts, each once.
pub proof fn in_order_holds(keys: Seq<Seq<char>>)
    ensures
        increasing(in_order(keys.to_set())),
        in_order(keys.to_set()).to_set() == keys.to_set(),
    decreases keys.len(),
{
    sorted_sequence_exists(keys);
}

proof fn sorted_sequence_exists(keys: Seq<Seq<char>>)
    ensures
        exists|ordered: Seq<Seq<char>>| increasing(ordered) && ordered.to_set() == keys.to_set(),
    decreases keys.len(),
{
    if keys.len() == 0 {
        let ordered = Seq::<Seq<char>>::empty();
        assert(increasing(ordered) && ordered.to_set() =~= keys.to_set());
    } else {
        let rest = keys.drop_last();
        let last = keys.last();
        sorted_sequence_exists(rest);
        let ordered = choose|ordered: Seq<Seq<char>>| increasing(ordered) && ordered.to_set() == rest.to_set();
        assert(keys.to_set() =~= rest.to_set().insert(last)) by {
            assert forall|key: Seq<char>| keys.to_set().contains(key) == rest.to_set().insert(last).contains(key) by {
                if keys.contains(key) {
                    let i = choose|i: int| 0 <= i < keys.len() && keys[i] == key;
                    if i < rest.len() {
                        assert(rest[i] == key);
                    }
                }
                if rest.contains(key) {
                    let i = choose|i: int| 0 <= i < rest.len() && rest[i] == key;
                    assert(keys[i] == key);
                }
                assert(keys[keys.len() - 1] == last);
            }
        }
        if rest.to_set().contains(last) {
            assert(keys.to_set() =~= rest.to_set());
            assert(increasing(ordered) && ordered.to_set() == keys.to_set());
        } else {
            let placed = with_key(ordered, last);
            key_can_be_placed(ordered, last);
            assert(increasing(placed) && placed.to_set() == keys.to_set());
        }
    }
}

spec fn with_key(ordered: Seq<Seq<char>>, key: Seq<char>) -> Seq<Seq<char>>
    decreases ordered.len(),
{
    if ordered.len() > 0 && text_lt(key, ordered.last()) {
        with_key(ordered.drop_last(), key).push(ordered.last())
    } else {
        ordered.push(key)
    }
}

proof fn key_can_be_placed(ordered: Seq<Seq<char>>, key: Seq<char>)
    requires
        increasing(ordered),
        !ordered.to_set().contains(key),
    ensures
        increasing(with_key(ordered, key)),
        with_key(ordered, key).to_set() == ordered.to_set().insert(key),
    decreases ordered.len(),
{
    let placed = with_key(ordered, key);
    if ordered.len() > 0 && text_lt(key, ordered.last()) {
        let rest = ordered.drop_last();
        let last = ordered.last();
        assert forall|other: Seq<char>| rest.contains(other) implies ordered.contains(other) by {
            let i = choose|i: int| 0 <= i < rest.len() && rest[i] == other;
            assert(ordered[i] == other);
        }
        key_can_be_placed(rest, key);
        let inner = with_key(rest, key);
        assert forall|i: int| 0 <= i < inner.len() implies text_lt(#[trigger] inner[i], last) by {
            assert(inner.to_set().contains(inner[i]));
            if inner[i] != key {
                assert(rest.to_set().contains(inner[i]));
                let j = choose|j: int| 0 <= j < rest.len() && rest[j] == inner[i];
                assert(text_lt(ordered[j], ordered[ordered.len() - 1]));
            }
        }
        assert forall|other: Seq<char>| placed.to_set().contains(other) == ordered.to_set().insert(key).contains(other) by {
            if placed.contains(other) {
                let i = choose|i: int| 0 <= i < placed.len() && placed[i] == other;
                if i < inner.len() {
                    assert(inner.to_set().contains(inner[i]));
                    if inner[i] != key {
                        assert(rest.contains(other));
                    }
                } else {
                    assert(ordered[ordered.len() - 1] == other);
                }
            }
            if ordered.contains(other) || other == key {
                if other == key {
                    assert(inner.to_set().contains(key));
                } else {
                    let i = choose|i: int| 0 <= i < ordered.len() && ordered[i] == other;
                    if i < rest.len() {
                        assert(rest[i] == other);
                        assert(inner.to_set().contains(other));
                    }
                }
                if inner.contains(other) {
                    let i = choose|i: int| 0 <= i < inner.len() && inner[i] == other;
                    assert(placed[i] == other);
                } else {
                    assert(placed[placed.len() - 1] == other);
                }
            }
        }
        assert(placed.to_set() =~= ordered.to_set().insert(key));
    } else {
        assert forall|i: int|
            0 <= i < ordered.len() implies text_lt(#[trigger] ordered[i], key) by {
            assert(ordered.contains(ordered[ordered.len() - 1]));
            text_order_is_total(key, ordered.last());
            if i < ordered.len() - 1 {
                text_order_is_transitive(ordered[i], ordered.last(), key);
            }
        }
        assert forall|other: Seq<char>| placed.to_set().contains(other) == ordered.to_set().insert(key).contains(other) by {
            if placed.contains(other) {
                let i = choose|i: int| 0 <= i < placed.len() && placed[i] == other;
                if i < ordered.len() {
                    assert(ordered[i] == other);
                }
            }
            if ordered.contains(other) {
                let i = choose|i: int| 0 <= i < ordered.len() && ordered[i] == other;
                assert(placed[i] == other);
            }
            assert(placed[ordered.len() as int] == key);
        }
        assert(placed.to_set() =~= ordered.to_set().insert(key));
    }
}

/// The values of a map, in the order of their keys.
pub open spec fn values_in_order<V>(map: Map<Seq<char>, V>) -> Seq<V> {
    in_order(map.dom()).map_values(|key: Seq<char>| map[key])
}

/// The values in the order of their keys are the values of the map, each under one key.
pub proof fn values_stand_under_keys<V>(map: Map<Seq<char>, V>)
    requires
        map.dom().finite(),
    ensures
        values_in_order(map).len() == in_order(map.dom()).len(),
        increasing(in_order(map.dom())),
        forall|i: int|
            0 <= i < values_in_order(map).len() ==> map.contains_key(in_order(map.dom())[i])
                && #[trigger] values_in_order(map)[i] == map[in_order(map.dom())[i]],
        forall|key: Seq<char>| #[trigger]
            map.contains_key(key) ==> values_in_order(map).contains(map[key]),
{
    let keys = in_order(map.dom());
    map.dom().lemma_to_seq_to_set_id();
    in_order_holds(map.dom().to_seq());
    assert(keys.to_set() == map.dom());
    assert forall|i: int| 0 <= i < values_in_order(map).len() implies map.contains_key(keys[i])
        && #[trigger] values_in_order(map)[i] == map[keys[i]] by {
        assert(keys.to_set().contains(keys[i]));
    }
    assert forall|key: Seq<char>| #[trigger] map.contains_key(key) implies values_in_order(map).contains(
        map[key],
    ) by {
        assert(keys.to_set().contains(key));
        let i = choose|i: int| 0 <= i < keys.len() && keys[i] == key;
        assert(values_in_order(map)[i] == map[key]);
    }
}

/// A map from texts to records that hands its values out in the order of their keys.
pub struct OrderedMap<V> {
    keys: Vec<String>,
    values: Vec<V>,
}

impl<V: Record> DeepView for OrderedMap<V> {
    type V = Map<Seq<char>, V::V>;

    closed spec fn deep_view(&self) -> Map<Seq<char>, V::V> {
        Map::new(
            |key: Seq<char>| self.keys.deep_view().contains(key),
            |key: Seq<char>| self.values.deep_view()[self.keys.deep_view().index_of(key)],
        )
    }
}

impl<V: Record> OrderedMap<V> {
    pub closed spec fn well_formed(self) -> bool {
        &&& self.keys.len() == self.values.len()
        &&& increasing(self.keys.deep_view())
    }

    /// A map holds finitely many entries.
    pub proof fn holds_finitely_many(self)
        ensures
            self.deep_view().dom().finite(),
    {
        assert(self.deep_view().dom() =~= self.keys.deep_view().to_set());
    }

    /// The map without entries.
    pub fn new() -> (map: Self)
        ensures
            map.well_formed(),
            map.deep_view() == Map::<Seq<char>, V::V>::empty(),
    {
        let map = OrderedMap { keys: Vec::new(), values: Vec::new() };
        assert(map.deep_view() =~= Map::<Seq<char>, V::V>::empty());
        map
    }

    proof fn entry_at(self, at: int)
        requires
            self.well_formed(),
            0 <= at < self.keys.len(),
        ensures
            self.deep_view().contains_key(self.keys@[at]@),
            self.deep_view()[self.keys@[at]@] == self.values@[at].deep_view(),
            self.keys.deep_view().index_of(self.keys@[at]@) == at,
    {
        let keys = self.keys.deep_view();
        assert(keys[at] == self.keys@[at]@);
        assert(keys.contains(keys[at]));
        let found = keys.index_of(keys[at]);
        assert(0 <= found < keys.len() && keys[found] == keys[at]);
        if found < at {
            text_order_is_strict(keys[found], keys[at]);
        } else if at < found {
            text_order_is_strict(keys[at], keys[found]);
        }
    }

    /// The first place whose key does not come before `key`.
    fn place(&self, key: &str) -> (place: usize)
        requires
            self.well_formed(),
        ensures
            place <= self.keys.len(),
            forall|i: int| 0 <= i < place ==> text_lt((#[trigger] self.keys@[i])@, key@),
            forall|i: int| place <= i < self.keys.len() ==> !text_lt((#[trigger] self.keys@[i])@, key@),
    {
        let mut low: usize = 0;
        let mut high: usize = self.keys.len();
        while low < high
            invariant
                self.well_formed(),
                low <= high <= self.keys.len(),
                forall|i: int| 0 <= i < low ==> text_lt((#[trigger] self.keys@[i])@, key@),
                forall|i: int| high <= i < self.keys.len() ==> !text_lt((#[trigger] self.keys@[i])@, key@),
            decreases high - low,
        {
            let middle: usize = low + (high - low) / 2;
            if text_before(self.keys[middle].as_str(), key) {
                assert forall|i: int|
                    0 <= i < middle + 1 implies text_lt((#[trigger] self.keys@[i])@, key@) by {
                    if i < middle {
                        assert(text_lt(self.keys.deep_view()[i], self.keys.deep_view()[middle as int]));
                        text_order_is_transitive(self.keys@[i]@, self.keys@[middle as int]@, key@);
                    }
                }
                low = middle + 1;
            } else {
                assert forall|i: int|
                    middle <= i < self.keys.len() implies !text_lt((#[trigger] self.keys@[i])@, key@) by {
                    if middle < i && text_lt(self.keys@[i]@, key@) {
                        assert(text_lt(self.keys.deep_view()[middle as int], self.keys.deep_view()[i]));
                        text_order_is_transitive(self.keys@[middle as int]@, self.keys@[i]@, key@);
                    }
                }
                high = middle;
            }
        }
        low
    }

    /// The place of `key`, where it is a key of the map.
    fn find(&self, key: &str) -> (found: Option<usize>)
        requires
            self.well_formed(),
        ensures
            match found {
                Some(at) => at < self.keys.len() && self.keys@[at as int]@ == key@
                    && self.deep_view().contains_key(key@) && self.deep_view()[key@]
                    == self.values@[at as int].deep_view(),
                None => !self.deep_view().contains_key(key@),
            },
    {
        let place = self.place(key);
        if place < self.keys.len() && !text_before(key, self.keys[place].as_str()) {
            proof {
                text_order_is_total(key@, self.keys@[place as int]@);
                self.entry_at(place as int);
            }
            Some(place)
        } else {
            proof {
                let keys = self.keys.deep_view();
                if keys.contains(key@) {
                    let at = choose|i: int| 0 <= i < keys.len() && keys[i] == key@;
                    text_order_is_strict(key@, key@);
                    assert(self.keys@[at]@ == key@);
                    assert(at >= place);
                    if at > place {
                        assert(text_lt(keys[place as int], keys[at]));
                    }
                }
            }
            None
        }
    }

    /// Whether `key` is a key of the map.
    pub fn contains(&self, key: &str) -> (found: bool)
        requires
            self.well_formed(),
        ensures
            found == self.deep_view().contains_key(key@),
    {
        self.find(key).is_some()
    }

    /// The value under `key`.
    pub fn get(&self, key: &str) -> (value: Option<&V>)
        requires
            self.well_formed(),
        ensures
            value is Some == self.deep_view().contains_key(key@),
            value matches Some(found) ==> found.deep_view() == self.deep_view()[key@],
    {
        match self.find(key) {
            Some(at) => Some(&self.values[at]),
            None => None,
        }
    }

    /// Puts `value` under `key` and hands back what was there before.
    pub fn insert(&mut self, key: String, value: V) -> (before: Option<V>)
        requires
            old(self).well_formed(),
        ensures
            final(self).well_formed(),
            final(self).deep_view() == old(self).deep_view().insert(key@, value.deep_view()),
            before is Some == old(self).deep_view().contains_key(key@),
            before matches Some(found) ==> found.deep_view() == old(self).deep_view()[key@],
    {
        let ghost start = *self;
        match self.find(key.as_str()) {
            Some(at) => {
                proof {
                    start.entry_at(at as int);
                }
                let mut value = value;
                let ghost stored = value.deep_view();
                std::mem::swap(&mut self.values[at], &mut value);
                assert(self.keys == start.keys);
                assert(self.values@ =~= start.values@.update(at as int, self.values@[at as int]));
                assert(self.values@[at as int].deep_view() == stored);
                proof {
                    assert(self.deep_view() =~= start.deep_view().insert(key@, stored)) by {
                        assert forall|other: Seq<char>| self.deep_view().contains_key(other) implies self.deep_view()[other]
                            == start.deep_view().insert(key@, stored)[other] by {
                            let keys = start.keys.deep_view();
                            let i = keys.index_of(other);
                            assert(0 <= i < keys.len() && keys[i] == other);
                            self.entry_at(i);
                            start.entry_at(i);
                        }
                    }
                }
                Some(value)
            },
            None => {
                self.insert_new(key, value);
                None
            },
        }
    }

    /// Puts `value` under the new key `key`.
    fn insert_new(&mut self, key: String, value: V)
        requires
            old(self).well_formed(),
            !old(self).deep_view().contains_key(key@),
        ensures
            final(self).well_formed(),
            final(self).deep_view() == old(self).deep_view().insert(key@, value.deep_view()),
    {
        let ghost start = *self;
        let ghost added = key@;
        let ghost stored = value.deep_view();
        let place = self.place(key.as_str());
        self.keys.insert(place, key);
        self.values.insert(place, value);
        proof {
            let before = start.keys.deep_view();
            let after = self.keys.deep_view();
            assert(after =~= before.insert(place as int, added));
            assert(self.values.deep_view() =~= start.values.deep_view().insert(place as int, stored));
            assert forall|i: int|
                place <= i < before.len() implies text_lt(added, #[trigger] before[i]) by {
                assert(before[i] == start.keys@[i]@);
                text_order_is_total(added, before[i]);
                if before[i] == added {
                    start.entry_at(i);
                }
            }
            assert forall|i: int| 0 <= i < place implies text_lt(#[trigger] before[i], added) by {
                assert(before[i] == start.keys@[i]@);
            }
            assert forall|i: int, j: int|
                0 <= i < j < after.len() implies text_lt(#[trigger] after[i], #[trigger] after[j]) by {
                let left = if i < place { i } else { i - 1 };
                let right = if j < place { j } else { j - 1 };
                if i != place && j != place {
                    assert(text_lt(before[left], before[right]));
                } else if i == place {
                    assert(after[j] == before[right]);
                } else {
                    assert(after[i] == before[left]);
                }
            }
            assert(self.well_formed());
            assert forall|other: Seq<char>|
                self.deep_view().contains_key(other) == start.deep_view().insert(
                    added,
                    stored,
                ).contains_key(other) by {
                if after.contains(other) {
                    let i = choose|i: int| 0 <= i < after.len() && after[i] == other;
                    let left = if i < place { i } else { i - 1 };
                    if i != place {
                        assert(before[left] == other);
                    }
                }
                if before.contains(other) {
                    let i = choose|i: int| 0 <= i < before.len() && before[i] == other;
                    assert(after[if i < place { i } else { i + 1 }] == other);
                }
                assert(after[place as int] == added);
            }
            assert(self.deep_view() =~= start.deep_view().insert(added, stored)) by {
                assert forall|other: Seq<char>| self.deep_view().contains_key(other) implies self.deep_view()[other]
                    == start.deep_view().insert(added, stored)[other] by {
                    let i = after.index_of(other);
                    assert(0 <= i < after.len() && after[i] == other);
                    self.entry_at(i);
                    assert(self.values@[i].deep_view() == self.values.deep_view()[i]);
                    if i < place {
                        start.entry_at(i);
                        assert(start.values@[i].deep_view() == start.values.deep_view()[i]);
                        text_order_is_strict(before[i], added);
                    } else if i > place {
                        start.entry_at(i - 1);
                        assert(start.values@[i - 1].deep_view() == start.values.deep_view()[i - 1]);
                        text_order_is_strict(added, before[i - 1]);
                    }
                }
            }
        }
    }

    /// Puts `value` under `key` where that key is new.
    pub fn or_insert(&mut self, key: String, value: V)
        requires
            old(self).well_formed(),
        ensures
            final(self).well_formed(),
            final(self).deep_view() == if old(self).deep_view().contains_key(key@) {
                old(self).deep_view()
            } else {
                old(self).deep_view().insert(key@, value.deep_view())
            },
    {
        if !self.contains(key.as_str()) {
            self.insert_new(key, value);
        }
    }

    /// How many entries the map has.
    pub fn len(&self) -> (len: usize)
        requires
            self.well_formed(),
        ensures
            len == self.deep_view().dom().len(),
            self.deep_view().dom().finite(),
    {
        proof {
            self.len_is_keys();
        }
        self.keys.len()
    }

    proof fn len_is_keys(self)
        requires
            self.well_formed(),
        ensures
            self.deep_view().dom().len() == self.keys.len(),
            self.deep_view().dom().finite(),
    {
        self.dom_is_keys();
        let keys = self.keys.deep_view();
        assert(keys.no_duplicates()) by {
            assert forall|i: int, j: int|
                0 <= i < keys.len() && 0 <= j < keys.len() && i != j implies keys[i] != keys[j] by {
                if i < j {
                    text_order_is_strict(keys[i], keys[j]);
                } else {
                    text_order_is_strict(keys[j], keys[i]);
                }
            }
        }
        keys.unique_seq_to_set();
        vstd::seq_lib::seq_to_set_is_finite(keys);
    }

    proof fn dom_is_keys(self)
        requires
            self.well_formed(),
        ensures
            self.deep_view().dom() == self.keys.deep_view().to_set(),
            in_order(self.deep_view().dom()) == self.keys.deep_view(),
    {
        assert(self.deep_view().dom() =~= self.keys.deep_view().to_set());
        increasing_is_in_order(self.keys.deep_view());
    }

    /// The keys, in order.
    pub fn keys(&self) -> (keys: &Vec<String>)
        requires
            self.well_formed(),
        ensures
            keys.deep_view() == in_order(self.deep_view().dom()),
            keys.deep_view().to_set() == self.deep_view().dom(),
    {
        proof {
            self.dom_is_keys();
        }
        &self.keys
    }

    /// The values, in the order of their keys.
    pub fn into_values(self) -> (values: Vec<V>)
        requires
            self.well_formed(),
        ensures
            values.deep_view() == values_in_order(self.deep_view()),
    {
        proof {
            self.dom_is_keys();
            let keys = self.keys.deep_view();
            assert forall|i: int|
                0 <= i < keys.len() implies self.values.deep_view()[i] == self.deep_view()[#[trigger] keys[i]] by {
                self.entry_at(i);
            }
            assert(self.values.deep_view() =~= values_in_order(self.deep_view()));
        }
        self.values
    }

    /// The values, in the order of their keys.
    pub fn values(&self) -> (values: &Vec<V>)
        requires
            self.well_formed(),
        ensures
            values.deep_view() == values_in_order(self.deep_view()),
    {
        proof {
            self.dom_is_keys();
            let keys = self.keys.deep_view();
            assert forall|i: int|
                0 <= i < keys.len() implies self.values.deep_view()[i] == self.deep_view()[#[trigger] keys[i]] by {
                self.entry_at(i);
            }
            assert(self.values.deep_view() =~= values_in_order(self.deep_view()));
        }
        &self.values
    }
}

/// The items under a key; none where the key is not there.
pub open spec fn listed<T>(map: Map<Seq<char>, Seq<T>>, key: Seq<char>) -> Seq<T> {
    if map.contains_key(key) {
        map[key]
    } else {
        Seq::empty()
    }
}

impl<T: Record> OrderedMap<Vec<T>> {
    /// Puts one more item behind those under `key`.
    pub fn push(&mut self, key: String, item: T)
        requires
            old(self).well_formed(),
        ensures
            final(self).well_formed(),
            final(self).deep_view() == old(self).deep_view().insert(
                key@,
                listed(old(self).deep_view(), key@).push(item.deep_view()),
            ),
    {
        let ghost start = self.deep_view();
        let none: Vec<T> = Vec::new();
        let found = self.insert(key.clone(), none);
        let mut items = match found {
            Some(items) => items,
            None => Vec::new(),
        };
        assert(items.deep_view() =~= listed(start, key@));
        let ghost before = items.deep_view();
        items.push(item);
        assert(items.deep_view() =~= before.push(item.deep_view()));
        self.insert(key, items);
        assert(self.deep_view() =~= start.insert(key@, before.push(item.deep_view())));
    }
}

/// The texts of `keys`, each once, in their order.
pub fn sorted_distinct(keys: &Vec<String>) -> (sorted: Vec<String>)
    ensures
        sorted.deep_view() == in_order(keys.deep_view().to_set()),
{
    let mut map: OrderedMap<String> = OrderedMap::new();
    let mut at: usize = 0;
    while at < keys.len()
        invariant
            map.well_formed(),
            at <= keys.len(),
            map.deep_view().dom() == keys.deep_view().take(at as int).to_set(),
            forall|key: Seq<char>| #[trigger] map.deep_view().contains_key(key) ==> map.deep_view()[key] == key,
        decreases keys.len() - at,
    {
        let ghost before = map.deep_view();
        map.or_insert(keys[at].clone(), keys[at].clone());
        proof {
            let taken = keys.deep_view().take(at as int);
            let next = keys.deep_view().take(at + 1);
            assert(next =~= taken.push(keys.deep_view()[at as int]));
            assert(next.to_set() =~= taken.to_set().insert(keys.deep_view()[at as int])) by {
                assert forall|key: Seq<char>|
                    next.to_set().contains(key) == taken.to_set().insert(
                        keys.deep_view()[at as int],
                    ).contains(key) by {
                    if taken.contains(key) {
                        let i = choose|i: int| 0 <= i < taken.len() && taken[i] == key;
                        assert(next[i] == key);
                    }
                    assert(next[at as int] == keys.deep_view()[at as int]);
                    if next.contains(key) {
                        let i = choose|i: int| 0 <= i < next.len() && next[i] == key;
                        if i < at {
                            assert(taken[i] == key);
                        }
                    }
                }
            }
            assert(map.deep_view().dom() =~= next.to_set());
        }
        at += 1;
    }
    assert(keys.deep_view().take(at as int) =~= keys.deep_view());
    proof {
        map.dom_is_keys();
        let ordered = in_order(map.deep_view().dom());
        assert forall|i: int|
            0 <= i < ordered.len() implies map.deep_view()[#[trigger] ordered[i]] == ordered[i] by {
            map.entry_at(i);
        }
        assert(values_in_order(map.deep_view()) =~= ordered);
    }
    map.into_values()
}

}
