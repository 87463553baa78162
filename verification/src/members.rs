//! Reading the members of a JSON object: each value is read by `serde_json`, and what stands between the
//! values is read here.
use vstd::prelude::*;
use vstd::slice::slice_subrange;
use vstd::utf8::encode_utf8;
use crate::json::{
    are_scalar_members, is_scalar, json_items, json_member, json_members, json_object, json_string,
};
use crate::text::decimal;

verus! {

/// The JSON text literal that some bytes begin with, as `serde_json` reads it: where it ends, and the text.
pub uninterp spec fn leading_text(bytes: Seq<u8>) -> Option<(int, Seq<char>)>;

/// A text that was found, and where it ends.
pub open spec fn found_text(read: Option<(usize, String)>) -> Option<(int, Seq<char>)> {
    match read {
        Some((end, text)) => Some((end as int, text@)),
        None => None,
    }
}

/// Where what was found ends.
pub open spec fn end_of(read: Option<(usize, String)>) -> int {
    match read {
        Some((end, _)) => end as int,
        None => 0,
    }
}

/// Whether this is a place in some bytes, behind the first.
pub open spec fn is_place(end: int, bytes: Seq<u8>) -> bool {
    0 < end <= bytes.len()
}

/// `serde_json::Deserializer::from_slice` and `into_iter` for texts, then `next` and `byte_offset`: the
/// text literal that the bytes begin with, behind white space. It depends on the bytes alone. Bytes that
/// begin with the literal of a text give this text and the place behind the literal. What other bytes give
/// is left unsaid, but that the place is one in them.
#[verifier::external_body]
fn read_leading_text(bytes: &[u8]) -> (read: Option<(usize, String)>)
    ensures
        found_text(read) == leading_text(bytes@),
        read is Some ==> is_place(end_of(read), bytes@),
        forall|text: Seq<char>, rest: Seq<u8>|
            bytes@ == #[trigger] (encode_utf8(json_string(text)) + rest) ==> found_text(read) == Some(
                (encode_utf8(json_string(text)).len() as int, text),
            ),
{
    let mut texts = serde_json::Deserializer::from_slice(bytes).into_iter::<String>();
    let text = texts.next()?.ok()?;
    Some((texts.byte_offset(), text))
}

/// Where the JSON value ends that some bytes begin with, as `serde_json` reads it.
pub uninterp spec fn leading_value(bytes: Seq<u8>) -> Option<int>;

/// `serde_json::Deserializer::from_slice` and `into_iter` for ignored values, then `next` and
/// `byte_offset`: the place behind the value that the bytes begin with, behind white space. It depends on
/// the bytes alone. A text literal ends with its quote, and a number before a comma or a brace. What other
/// bytes give is left unsaid, but that the place is one in them.
#[verifier::external_body]
fn read_leading_value(bytes: &[u8]) -> (end: Option<usize>)
    ensures
        match end {
            Some(end) => leading_value(bytes@) == Some(end as int) && 0 < end <= bytes.len(),
            None => leading_value(bytes@) is None,
        },
        forall|text: Seq<char>, rest: Seq<u8>|
            bytes@ == #[trigger] (encode_utf8(json_string(text)) + rest) ==> end is Some && end->0
                == encode_utf8(json_string(text)).len(),
        forall|number: u64, rest: Seq<u8>|
            bytes@ == #[trigger] (encode_utf8(decimal(number as nat)) + rest) && rest.len() > 0 && (rest[0]
                == 0x2c || rest[0] == 0x7d) ==> end is Some && end->0 == encode_utf8(
                decimal(number as nat),
            ).len(),
{
    let mut values = serde_json::Deserializer::from_slice(bytes).into_iter::<serde::de::IgnoredAny>();
    values.next()?.ok()?;
    Some(values.byte_offset())
}

/// The text or nothing that some bytes hold as JSON, as `serde_json` reads it.
pub uninterp spec fn optional_text(bytes: Seq<u8>) -> Option<Option<Seq<char>>>;

/// `serde_json::from_slice` into an optional text. It depends on the bytes alone. The literal of a text
/// gives this text. What other bytes give is left unsaid.
#[verifier::external_body]
fn read_optional_text(bytes: &[u8]) -> (text: Option<Option<String>>)
    ensures
        text.deep_view() == optional_text(bytes@),
        forall|written: Seq<char>|
            bytes@ == encode_utf8(#[trigger] json_string(written)) ==> text.deep_view() == Some(
                Some(written),
            ),
{
    serde_json::from_slice(bytes).ok()
}

/// The number that some bytes hold as JSON, as `serde_json` reads it.
pub uninterp spec fn whole_number(bytes: Seq<u8>) -> Option<u64>;

/// `serde_json::from_slice` into a number. It depends on the bytes alone. The decimal notation of a number
/// gives this number. What other bytes give is left unsaid.
#[verifier::external_body]
fn read_whole_number(bytes: &[u8]) -> (number: Option<u64>)
    ensures
        number == whole_number(bytes@),
        forall|written: u64|
            bytes@ == encode_utf8(#[trigger] decimal(written as nat)) ==> number == Some(written),
{
    serde_json::from_slice(bytes).ok()
}

/// Whether a byte is white space in JSON.
pub open spec fn is_json_space(byte: u8) -> bool {
    byte == 0x20 || byte == 0x0a || byte == 0x0d || byte == 0x09
}

/// The bytes behind leading white space.
pub open spec fn past_space(bytes: Seq<u8>) -> Seq<u8>
    decreases bytes.len(),
{
    if bytes.len() > 0 && is_json_space(bytes[0]) {
        past_space(bytes.skip(1))
    } else {
        bytes
    }
}

/// Whether some bytes begin with a byte.
pub open spec fn starts(bytes: Seq<u8>, byte: u8) -> bool {
    bytes.len() > 0 && bytes[0] == byte
}

/// The members of an object, from one of them on, behind those that are known: their names, and the
/// bytes of their values. Nothing where the bytes are not the rest of an object.
pub open spec fn members_from(bytes: Seq<u8>, known: Seq<(Seq<char>, Seq<u8>)>) -> Option<
    Seq<(Seq<char>, Seq<u8>)>,
>
    decreases bytes.len(),
{
    match leading_text(bytes) {
        Some((end, name)) => {
            let colon = past_space(bytes.skip(end));
            let inner = colon.skip(1);
            if 0 < end <= bytes.len() && starts(colon, 0x3a) {
                match leading_value(inner) {
                    Some(length) => {
                        let after = past_space(inner.skip(length));
                        let all = known.push((name, inner.take(length)));
                        if !(0 < length <= inner.len()) {
                            None
                        } else if starts(after, 0x2c) && after.len() < bytes.len() {
                            members_from(after.skip(1), all)
                        } else if starts(after, 0x7d) && past_space(after.skip(1)).len() == 0 {
                            Some(all)
                        } else {
                            None
                        }
                    },
                    None => None,
                }
            } else {
                None
            }
        },
        None => None,
    }
}

/// The members of the object that some bytes hold as JSON; nothing where they hold none.
pub open spec fn object_members(bytes: Seq<u8>) -> Option<Seq<(Seq<char>, Seq<u8>)>> {
    let object = past_space(bytes);
    let inner = object.skip(1);
    let first = past_space(inner);
    if !starts(object, 0x7b) {
        None
    } else if starts(first, 0x7d) {
        if past_space(first.skip(1)).len() == 0 {
            Some(Seq::empty())
        } else {
            None
        }
    } else {
        members_from(inner, Seq::empty())
    }
}

/// White space is not longer than what it stands in.
proof fn past_space_is_shorter(bytes: Seq<u8>)
    ensures
        past_space(bytes).len() <= bytes.len(),
        past_space(bytes) == bytes.skip(bytes.len() - past_space(bytes).len()),
    decreases bytes.len(),
{
    if bytes.len() > 0 && is_json_space(bytes[0]) {
        past_space_is_shorter(bytes.skip(1));
        let rest = past_space(bytes.skip(1));
        assert(bytes.skip(1).skip(bytes.len() - 1 - rest.len()) =~= bytes.skip(bytes.len() - rest.len()));
    } else {
        assert(bytes.skip(0) =~= bytes);
    }
}

fn skip_space(bytes: &[u8]) -> (rest: &[u8])
    ensures
        rest@ == past_space(bytes@),
        rest.len() <= bytes.len(),
{
    let mut at: usize = 0;
    assert(bytes@.skip(0) =~= bytes@);
    while at < bytes.len()
        invariant
            at <= bytes.len(),
            past_space(bytes@) == past_space(bytes@.skip(at as int)),
        decreases bytes.len() - at,
    {
        let byte = bytes[at];
        assert(bytes@.skip(at as int)[0] == byte);
        assert(bytes@.skip(at as int).skip(1) =~= bytes@.skip(at + 1));
        if byte != 0x20 && byte != 0x0a && byte != 0x0d && byte != 0x09 {
            return behind(bytes, at);
        }
        at += 1;
    }
    behind(bytes, at)
}

/// The bytes from a place on.
fn behind(bytes: &[u8], at: usize) -> (rest: &[u8])
    requires
        at <= bytes.len(),
    ensures
        rest@ == bytes@.skip(at as int),
        rest.len() == bytes.len() - at,
{
    let rest = slice_subrange(bytes, at, bytes.len());
    assert(rest@ =~= bytes@.skip(at as int));
    rest
}

/// The bytes behind the first one, where that is this byte.
fn behind_byte(bytes: &[u8], byte: u8) -> (rest: Option<&[u8]>)
    ensures
        match rest {
            Some(rest) => starts(bytes@, byte) && rest@ == bytes@.skip(1) && rest.len() == bytes.len() - 1,
            None => !starts(bytes@, byte),
        },
{
    if bytes.len() > 0 && bytes[0] == byte {
        Some(behind(bytes, 1))
    } else {
        None
    }
}

fn copied_bytes(bytes: &[u8], end: usize) -> (copy: Vec<u8>)
    requires
        end <= bytes.len(),
    ensures
        copy@ == bytes@.take(end as int),
        copy.deep_view() == bytes@.take(end as int),
{
    let mut copy: Vec<u8> = Vec::new();
    let mut at: usize = 0;
    while at < end
        invariant
            at <= end <= bytes.len(),
            copy@ == bytes@.take(at as int),
        decreases end - at,
    {
        copy.push(bytes[at]);
        assert(copy@ =~= bytes@.take(at + 1));
        at += 1;
    }
    assert(copy@ =~= bytes@.take(end as int));
    assert(copy.deep_view() =~= copy@);
    copy
}

/// A member of an object: its name, and the bytes of its value.
pub struct Member {
    pub name: String,
    pub value: Vec<u8>,
}

impl DeepView for Member {
    type V = (Seq<char>, Seq<u8>);

    open spec fn deep_view(&self) -> (Seq<char>, Seq<u8>) {
        (self.name@, self.value@)
    }
}

/// What follows in the text of an object from a member on.
spec fn object_rest(members: Seq<(Seq<char>, Seq<char>)>, at: int) -> Seq<char>
    decreases members.len() - at,
{
    json_string(members[at].0) + (":"@ + (members[at].1 + (if at + 1 < members.len() {
        ","@ + object_rest(members, at + 1)
    } else {
        "}"@
    })))
}

/// Encoding two texts one after the other.
proof fn encoding_adds(first: Seq<char>, second: Seq<char>)
    ensures
        encode_utf8(first + second) == encode_utf8(first) + encode_utf8(second),
    decreases first.len(),
{
    if first.len() == 0 {
        assert(first + second =~= second);
        assert(encode_utf8(first) + encode_utf8(second) =~= encode_utf8(second));
    } else {
        assert((first + second).drop_first() =~= first.drop_first() + second);
        encoding_adds(first.drop_first(), second);
        let head = vstd::utf8::encode_scalar(first[0] as u32);
        let rest = encode_utf8(first.drop_first());
        assert(head + (rest + encode_utf8(second)) =~= (head + rest) + encode_utf8(second));
    }
}

/// What follows in a list of items from one on, up to the closing brace.
spec fn items_rest(items: Seq<Seq<char>>, at: int) -> Seq<char>
    decreases items.len() - at,
{
    items[at] + (if at + 1 < items.len() {
        ","@ + items_rest(items, at + 1)
    } else {
        "}"@
    })
}

proof fn items_split(items: Seq<Seq<char>>, at: int)
    requires
        1 <= at < items.len(),
    ensures
        json_items(items) + "}"@ == json_items(items.take(at)) + (","@ + items_rest(items, at)),
    decreases items.len() - at,
{
    if at + 1 < items.len() {
        items_split(items, at + 1);
        assert(items.take(at + 1).drop_last() =~= items.take(at));
        assert(items.take(at + 1).last() == items[at]);
        let head = json_items(items.take(at));
        let tail = ","@ + items_rest(items, at + 1);
        assert(head + ","@ + items[at] + tail =~= head + (","@ + (items[at] + tail)));
    } else {
        assert(items.drop_last() =~= items.take(at));
        let head = json_items(items.take(at));
        assert(head + ","@ + items[at] + "}"@ =~= head + (","@ + (items[at] + "}"@)));
    }
}

proof fn rest_is_items_rest(members: Seq<(Seq<char>, Seq<char>)>, at: int)
    requires
        0 <= at < members.len(),
    ensures
        object_rest(members, at) == items_rest(json_members(members), at),
    decreases members.len() - at,
{
    let name = json_string(members[at].0);
    let value = members[at].1;
    assert(json_members(members)[at] == json_member(members[at]));
    if at + 1 < members.len() {
        rest_is_items_rest(members, at + 1);
        let tail = ","@ + object_rest(members, at + 1);
        assert(name + (":"@ + (value + tail)) =~= (name + ":"@ + value) + tail);
    } else {
        assert(name + (":"@ + (value + "}"@)) =~= (name + ":"@ + value) + "}"@);
    }
}

/// The text of an object is a brace and what follows from the first member on.
proof fn object_is_its_rest(members: Seq<(Seq<char>, Seq<char>)>)
    requires
        members.len() > 0,
    ensures
        json_object(members) == "{"@ + object_rest(members, 0),
{
    let items = json_members(members);
    rest_is_items_rest(members, 0);
    if items.len() > 1 {
        items_split(items, 1);
        assert(items.take(1).len() == 1);
        assert(json_items(items.take(1)) == items[0]);
    }
    assert("{"@ + json_items(items) + "}"@ =~= "{"@ + (json_items(items) + "}"@));
}

/// The bytes of the marks that stand between values.
proof fn marks_have_their_bytes()
    ensures
        encode_utf8("{"@) == seq![0x7bu8],
        encode_utf8("}"@) == seq![0x7du8],
        encode_utf8(":"@) == seq![0x3au8],
        encode_utf8(","@) == seq![0x2cu8],
{
    reveal_strlit("{");
    reveal_strlit("}");
    reveal_strlit(":");
    reveal_strlit(",");
    vstd::utf8::is_ascii_chars_encode_utf8("{"@);
    vstd::utf8::is_ascii_chars_encode_utf8("}"@);
    vstd::utf8::is_ascii_chars_encode_utf8(":"@);
    vstd::utf8::is_ascii_chars_encode_utf8(","@);
    assert("{"@[0] == '{' && "}"@[0] == '}' && ":"@[0] == ':' && ","@[0] == ',');
    assert(encode_utf8("{"@) =~= seq![0x7bu8]);
    assert(encode_utf8("}"@) =~= seq![0x7du8]);
    assert(encode_utf8(":"@) =~= seq![0x3au8]);
    assert(encode_utf8(","@) =~= seq![0x2cu8]);
}

/// The bytes that follow a member: a comma and the next ones, or the closing brace.
spec fn bytes_behind(members: Seq<(Seq<char>, Seq<char>)>, at: int) -> Seq<u8> {
    if at + 1 < members.len() {
        seq![0x2cu8] + encode_utf8(object_rest(members, at + 1))
    } else {
        seq![0x7du8]
    }
}

/// The bytes of an object from a member on.
proof fn rest_has_its_bytes(members: Seq<(Seq<char>, Seq<char>)>, at: int)
    requires
        0 <= at < members.len(),
    ensures
        encode_utf8(object_rest(members, at)) == encode_utf8(json_string(members[at].0)) + (seq![0x3au8] + (
        encode_utf8(members[at].1) + bytes_behind(members, at))),
{
    marks_have_their_bytes();
    let behind = if at + 1 < members.len() {
        ","@ + object_rest(members, at + 1)
    } else {
        "}"@
    };
    if at + 1 < members.len() {
        encoding_adds(","@, object_rest(members, at + 1));
    }
    encoding_adds(members[at].1, behind);
    encoding_adds(":"@, members[at].1 + behind);
    encoding_adds(json_string(members[at].0), ":"@ + (members[at].1 + behind));
}

/// The members of an object, as they are read again.
pub open spec fn read_again(members: Seq<(Seq<char>, Seq<char>)>) -> Seq<(Seq<char>, Seq<u8>)> {
    members.map_values(|member: (Seq<char>, Seq<char>)| (member.0, encode_utf8(member.1)))
}

/// Whether some bytes are an object of texts and numbers.
pub open spec fn holds_members(bytes: Seq<u8>, members: Seq<(Seq<char>, Seq<char>)>) -> bool {
    &&& members.len() > 0
    &&& are_scalar_members(members)
    &&& bytes == encode_utf8(json_object(members))
}

/// Whether so many members of an object are known, and these bytes are left.
spec fn has_come(
    members: Seq<(Seq<char>, Seq<char>)>,
    known: Seq<(Seq<char>, Seq<u8>)>,
    rest: Seq<u8>,
) -> bool {
    &&& known.len() < members.len()
    &&& known == read_again(members).take(known.len() as int)
    &&& rest == encode_utf8(object_rest(members, known.len() as int))
}

/// Reads the members of an object; nothing where the bytes hold none. An object of texts and numbers gives
/// the members that were written.
pub(crate) fn read_members(bytes: &[u8]) -> (result: Option<Vec<Member>>)
    ensures
        result.deep_view() == object_members(bytes@),
        forall|members: Seq<(Seq<char>, Seq<char>)>| #[trigger]
            holds_members(bytes@, members) ==> object_members(bytes@) == Some(read_again(members)),
{
    proof {
        marks_have_their_bytes();
        assert forall|members: Seq<(Seq<char>, Seq<char>)>| #[trigger]
            holds_members(bytes@, members) implies bytes@ == seq![0x7bu8] + encode_utf8(
            object_rest(members, 0),
        ) && past_space(bytes@) == bytes@ && past_space(bytes@.skip(1)) == bytes@.skip(1) && !starts(
            bytes@.skip(1),
            0x7d,
        ) by {
            object_is_its_rest(members);
            encoding_adds("{"@, object_rest(members, 0));
            let inner = bytes@.skip(1);
            assert(inner =~= encode_utf8(object_rest(members, 0)));
            rest_has_its_bytes(members, 0);
            quote_comes_first(members[0].0);
            assert(inner[0] == 0x22);
        }
    }
    let object = skip_space(bytes);
    let inner = match behind_byte(object, 0x7b) {
        Some(inner) => inner,
        None => {
            return None;
        },
    };
    let first = skip_space(inner);
    if let Some(after) = behind_byte(first, 0x7d) {
        if skip_space(after).len() > 0 {
            return None;
        }
        let none: Vec<Member> = Vec::new();
        assert(none.deep_view() =~= Seq::empty());
        return Some(none);
    }
    let mut known: Vec<Member> = Vec::new();
    let mut rest = inner;
    assert(known.deep_view() =~= Seq::empty());
    proof {
        assert forall|members: Seq<(Seq<char>, Seq<char>)>| #[trigger]
            holds_members(bytes@, members) implies has_come(members, known.deep_view(), rest@) by {
            assert(rest@ =~= encode_utf8(object_rest(members, 0)));
            assert(read_again(members).take(0) =~= Seq::empty());
        }
    }
    loop
        invariant
            object_members(bytes@) == members_from(rest@, known.deep_view()),
            forall|members: Seq<(Seq<char>, Seq<char>)>| #[trigger]
                holds_members(bytes@, members) ==> has_come(members, known.deep_view(), rest@),
        decreases rest.len(),
    {
        let ghost before = known.deep_view();
        let ghost here = rest@;
        let (end, name) = match read_leading_text(rest) {
            Some(read) => read,
            None => {
                proof {
                    assert forall|members: Seq<(Seq<char>, Seq<char>)>| #[trigger]
                        holds_members(bytes@, members) implies false by {
                        assert(has_come(members, before, here));
                        rest_has_its_bytes(members, before.len() as int);
                    }
                }
                return None;
            },
        };
        let ghost named = name@;
        let colon = skip_space(behind(rest, end));
        proof {
            past_space_is_shorter(here.skip(end as int));
            assert forall|members: Seq<(Seq<char>, Seq<char>)>| #[trigger]
                holds_members(bytes@, members) implies named == members[before.len() as int].0 && colon@
                == seq![0x3au8] + (encode_utf8(members[before.len() as int].1) + bytes_behind(
                members,
                before.len() as int,
            )) by {
                let at = before.len() as int;
                assert(has_come(members, before, here));
                rest_has_its_bytes(members, at);
                let tail = seq![0x3au8] + (encode_utf8(members[at].1) + bytes_behind(members, at));
                assert(here == encode_utf8(json_string(members[at].0)) + tail);
                assert(here.skip(end as int) =~= tail);
                assert(tail[0] == 0x3a);
            }
        }
        let inner = match behind_byte(colon, 0x3a) {
            Some(inner) => inner,
            None => {
                proof {
                    assert forall|members: Seq<(Seq<char>, Seq<char>)>| #[trigger]
                        holds_members(bytes@, members) implies false by {
                        assert(colon@[0] == 0x3a);
                    }
                }
                return None;
            },
        };
        let found = read_leading_value(inner);
        proof {
            assert forall|members: Seq<(Seq<char>, Seq<char>)>| #[trigger]
                holds_members(bytes@, members) implies found is Some && found->0 == encode_utf8(
                members[before.len() as int].1,
            ).len() && inner@ == encode_utf8(members[before.len() as int].1) + bytes_behind(
                members,
                before.len() as int,
            ) by {
                let at = before.len() as int;
                assert(has_come(members, before, here));
                let value = members[at].1;
                let tail = bytes_behind(members, at);
                assert(inner@ =~= encode_utf8(value) + tail);
                assert(is_scalar(members[at].1));
                if exists|text: Seq<char>| value == json_string(text) {
                    let text = choose|text: Seq<char>| value == json_string(text);
                    assert(inner@ == encode_utf8(json_string(text)) + tail);
                } else {
                    let number = choose|number: u64| value == decimal(number as nat);
                    assert(inner@ == encode_utf8(decimal(number as nat)) + tail);
                    assert(tail.len() > 0 && (tail[0] == 0x2c || tail[0] == 0x7d));
                }
            }
        }
        let length = match found {
            Some(length) => length,
            None => {
                return None;
            },
        };
        let value = copied_bytes(inner, length);
        let after = skip_space(behind(inner, length));
        proof {
            past_space_is_shorter(inner@.skip(length as int));
        }
        let member = Member { name, value };
        known.push(member);
        assert(known.deep_view() =~= before.push((named, inner@.take(length as int))));
        proof {
            assert forall|members: Seq<(Seq<char>, Seq<char>)>| #[trigger]
                holds_members(bytes@, members) implies after@ == bytes_behind(
                members,
                before.len() as int,
            ) && known.deep_view() == read_again(members).take(before.len() as int + 1) by {
                let at = before.len() as int;
                assert(has_come(members, before, here));
                let tail = bytes_behind(members, at);
                assert(inner@.skip(length as int) =~= tail);
                assert(tail.len() > 0 && (tail[0] == 0x2c || tail[0] == 0x7d));
                assert(inner@.take(length as int) =~= encode_utf8(members[at].1));
                assert(read_again(members).take(at + 1) =~= read_again(members).take(at).push(
                    read_again(members)[at],
                ));
            }
        }
        if let Some(next) = behind_byte(after, 0x2c) {
            proof {
                assert forall|members: Seq<(Seq<char>, Seq<char>)>| #[trigger]
                    holds_members(bytes@, members) implies has_come(members, known.deep_view(), next@) by {
                    let at = before.len() as int;
                    assert(after@ == bytes_behind(members, at));
                    assert(at + 1 < members.len());
                    assert(next@ =~= encode_utf8(object_rest(members, at + 1)));
                }
            }
            rest = next;
            continue;
        }
        if let Some(last) = behind_byte(after, 0x7d) {
            let end = skip_space(last);
            proof {
                assert forall|members: Seq<(Seq<char>, Seq<char>)>| #[trigger]
                    holds_members(bytes@, members) implies end.len() == 0 && known.deep_view()
                    == read_again(members) by {
                    let at = before.len() as int;
                    assert(after@ == bytes_behind(members, at));
                    assert(at + 1 == members.len());
                    assert(last@ =~= Seq::empty());
                    assert(read_again(members).take(at + 1) =~= read_again(members));
                }
            }
            if end.len() == 0 {
                return Some(known);
            }
            return None;
        }
        proof {
            assert forall|members: Seq<(Seq<char>, Seq<char>)>| #[trigger]
                holds_members(bytes@, members) implies false by {
                assert(after@ == bytes_behind(members, before.len() as int));
            }
        }
        return None;
    }
}

/// The literal of a text begins with a quote.
proof fn quote_comes_first(text: Seq<char>)
    ensures
        encode_utf8(json_string(text)).len() > 0,
        encode_utf8(json_string(text))[0] == 0x22,
{
    reveal(json_string);
    let quote = seq!['"'];
    let rest = text.map_values(|c: char| crate::json::json_char(c)).flatten() + seq!['"'];
    assert(json_string(text) =~= quote + rest);
    encoding_adds(quote, rest);
    vstd::utf8::is_ascii_chars_encode_utf8(quote);
    assert(encode_utf8(quote)[0] == 0x22);
}

/// The values under a name.
pub open spec fn values_named(members: Seq<(Seq<char>, Seq<u8>)>, name: Seq<char>) -> Seq<Seq<u8>>
    decreases members.len(),
{
    if members.len() == 0 {
        Seq::empty()
    } else {
        let rest = values_named(members.drop_last(), name);
        if members.last().0 == name {
            rest.push(members.last().1)
        } else {
            rest
        }
    }
}

/// The value under a name that stands once.
pub open spec fn only_value(members: Seq<(Seq<char>, Seq<u8>)>, name: Seq<char>) -> Option<Seq<u8>> {
    if values_named(members, name).len() == 1 {
        Some(values_named(members, name)[0])
    } else {
        None
    }
}

/// The value under a name that stands once.
fn find_only<'a>(members: &'a Vec<Member>, name: &str) -> (value: Option<&'a Vec<u8>>)
    ensures
        match value {
            Some(value) => only_value(members.deep_view(), name@) == Some(value@),
            None => only_value(members.deep_view(), name@) is None,
        },
{
    let ghost models = members.deep_view();
    let mut found: Option<&'a Vec<u8>> = None;
    let mut at: usize = 0;
    assert(models.take(0) =~= Seq::empty());
    while at < members.len()
        invariant
            at <= members.len(),
            models == members.deep_view(),
            match found {
                Some(value) => values_named(models.take(at as int), name@) == seq![value@],
                None => values_named(models.take(at as int), name@) == Seq::<Seq<u8>>::empty(),
            },
        decreases members.len() - at,
    {
        assert(models[at as int] == members@[at as int].deep_view());
        assert(models.take(at + 1).drop_last() =~= models.take(at as int));
        assert(models.take(at + 1).last() == models[at as int]);
        if members[at].name == name.to_owned() {
            if found.is_some() {
                proof {
                    more_values(models, at + 1, name@);
                }
                return None;
            }
            found = Some(&members[at].value);
            assert(values_named(models.take(at + 1), name@) =~= seq![members@[at as int].value@]);
        }
        at += 1;
    }
    assert(models.take(at as int) =~= models);
    found
}

/// More members have no fewer values under a name.
proof fn more_values(members: Seq<(Seq<char>, Seq<u8>)>, at: int, name: Seq<char>)
    requires
        0 <= at <= members.len(),
    ensures
        values_named(members.take(at), name).len() <= values_named(members, name).len(),
    decreases members.len(),
{
    if at == members.len() {
        assert(members.take(at) =~= members);
    } else {
        assert(members.drop_last().take(at) =~= members.take(at));
        more_values(members.drop_last(), at, name);
    }
}

/// What stands under a name of its own is found again.
pub(crate) proof fn written_value_is_found(members: Seq<(Seq<char>, Seq<char>)>, at: int)
    requires
        are_scalar_members(members),
        0 <= at < members.len(),
    ensures
        only_value(read_again(members), members[at].0) == Some(encode_utf8(members[at].1)),
{
    own_values(members, members.len() as int, at);
    assert(read_again(members).take(members.len() as int) =~= read_again(members));
}

proof fn own_values(members: Seq<(Seq<char>, Seq<char>)>, count: int, at: int)
    requires
        are_scalar_members(members),
        0 <= at < members.len(),
        0 <= count <= members.len(),
    ensures
        values_named(read_again(members).take(count), members[at].0) == if at < count {
            seq![encode_utf8(members[at].1)]
        } else {
            Seq::<Seq<u8>>::empty()
        },
    decreases count,
{
    if count > 0 {
        own_values(members, count - 1, at);
        let part = read_again(members).take(count);
        assert(part.drop_last() =~= read_again(members).take(count - 1));
        assert(part.last() == (members[count - 1].0, encode_utf8(members[count - 1].1)));
        if count - 1 != at {
            if count - 1 < at {
                assert(members[count - 1].0 != members[at].0);
            } else {
                assert(members[at].0 != members[count - 1].0);
            }
        } else {
            assert(values_named(part, members[at].0) =~= seq![encode_utf8(members[at].1)]);
        }
    }
}

/// The text under a name that stands once.
pub open spec fn text_member(members: Seq<(Seq<char>, Seq<u8>)>, name: Seq<char>) -> Option<Seq<char>> {
    match only_value(members, name) {
        Some(value) => match optional_text(value) {
            Some(text) => text,
            None => None,
        },
        None => None,
    }
}

/// The number under a name that stands once.
pub open spec fn number_member(members: Seq<(Seq<char>, Seq<u8>)>, name: Seq<char>) -> Option<u64> {
    match only_value(members, name) {
        Some(value) => whole_number(value),
        None => None,
    }
}

/// Finds the text under a name that stands once. A text that was written is found again.
pub(crate) fn find_text(members: &Vec<Member>, name: &str) -> (text: Option<String>)
    ensures
        text.deep_view() == text_member(members.deep_view(), name@),
        forall|written: Seq<char>|
            only_value(members.deep_view(), name@) == Some(encode_utf8(#[trigger] json_string(written)))
                ==> text.deep_view() == Some(written),
{
    match find_only(members, name) {
        Some(value) => match read_optional_text(value.as_slice()) {
            Some(text) => text,
            None => None,
        },
        None => None,
    }
}

/// Finds the number under a name that stands once. A number that was written is found again.
pub(crate) fn find_number(members: &Vec<Member>, name: &str) -> (number: Option<u64>)
    ensures
        number == number_member(members.deep_view(), name@),
        forall|written: u64|
            only_value(members.deep_view(), name@) == Some(encode_utf8(#[trigger] decimal(written as nat)))
                ==> number == Some(written),
{
    match find_only(members, name) {
        Some(value) => read_whole_number(value.as_slice()),
        None => None,
    }
}

}
