//! Compact JSON text: what a record looks like in it, and how long that is.
use vstd::prelude::*;
use crate::text::{decimal, decimal_of, digit_character};

verus! {

/// A character as it stands in a JSON string literal: the quote, the backslash and the control
/// characters below the space are escaped, by a letter where there is one.
pub open spec fn json_char(c: char) -> Seq<char> {
    if c == '"' || c == '\\' {
        seq!['\\', c]
    } else if c == '\u{8}' {
        seq!['\\', 'b']
    } else if c == '\t' {
        seq!['\\', 't']
    } else if c == '\n' {
        seq!['\\', 'n']
    } else if c == '\u{c}' {
        seq!['\\', 'f']
    } else if c == '\r' {
        seq!['\\', 'r']
    } else if ' ' > c {
        seq!['\\', 'u', '0', '0', digit_character(c as int / 16), digit_character(c as int % 16)]
    } else {
        seq![c]
    }
}

/// The JSON string literal of a text.
#[verifier::opaque]
pub open spec fn json_string(text: Seq<char>) -> Seq<char> {
    seq!['"'] + text.map_values(|c: char| json_char(c)).flatten() + seq!['"']
}

/// `serde_json::to_string` on a text: the text in quotes, with the quote, the backslash and the
/// control characters below the space escaped and every other character as it is. It never fails
/// on a text.
#[verifier::external_body]
fn write_string(text: &str) -> (literal: String)
    ensures
        literal@ == json_string(text@),
{
    serde_json::to_string(text).expect("text is serializable")
}

/// The items with commas between them.
pub open spec fn json_items(items: Seq<Seq<char>>) -> Seq<char>
    decreases items.len(),
{
    if items.len() == 0 {
        Seq::empty()
    } else if items.len() == 1 {
        items[0]
    } else {
        json_items(items.drop_last()) + ","@ + items.last()
    }
}

/// Two items have one comma between them.
pub proof fn two_items(items: Seq<Seq<char>>)
    requires
        items.len() == 2,
    ensures
        json_items(items) == items[0] + ","@ + items[1],
{
    reveal_with_fuel(json_items, 3);
}

/// Three items have two commas between them.
pub proof fn three_items(items: Seq<Seq<char>>)
    requires
        items.len() == 3,
    ensures
        json_items(items) == items[0] + ","@ + items[1] + ","@ + items[2],
{
    reveal_with_fuel(json_items, 4);
}

/// A JSON array.
pub open spec fn json_array(items: Seq<Seq<char>>) -> Seq<char> {
    "["@ + json_items(items) + "]"@
}

/// One member of a JSON object.
pub open spec fn json_member(member: (Seq<char>, Seq<char>)) -> Seq<char> {
    json_string(member.0) + ":"@ + member.1
}

/// The members of a JSON object, as text.
pub open spec fn json_members(members: Seq<(Seq<char>, Seq<char>)>) -> Seq<Seq<char>> {
    members.map_values(|member: (Seq<char>, Seq<char>)| json_member(member))
}

/// A JSON object with the given names and values, in their order.
pub open spec fn json_object(members: Seq<(Seq<char>, Seq<char>)>) -> Seq<char> {
    "{"@ + json_items(json_members(members)) + "}"@
}

/// How many bytes a text has in UTF-8.
pub open spec fn byte_len(text: Seq<char>) -> nat {
    vstd::utf8::encode_utf8(text).len()
}

/// A record with a JSON form.
pub trait ToJson: DeepView {
    /// The JSON text of a record with this model.
    spec fn json(model: Self::V) -> Seq<char>;

    /// The JSON text of the record.
    fn to_json(&self) -> (text: String)
        ensures
            text@ == Self::json(self.deep_view()),
    ;
}

/// The length in bytes of a record's JSON text.
pub fn serialized_len<T: ToJson>(value: &T) -> (len: u64)
    ensures
        len == byte_len(T::json(value.deep_view())),
{
    let text = value.to_json();
    text.as_str().as_bytes().len() as u64
}

impl ToJson for String {
    open spec fn json(model: Seq<char>) -> Seq<char> {
        json_string(model)
    }

    fn to_json(&self) -> (text: String) {
        write_string(self.as_str())
    }
}

impl ToJson for bool {
    open spec fn json(model: bool) -> Seq<char> {
        if model {
            "true"@
        } else {
            "false"@
        }
    }

    fn to_json(&self) -> (text: String) {
        if *self {
            "true".to_owned()
        } else {
            "false".to_owned()
        }
    }
}

impl ToJson for u8 {
    open spec fn json(model: u8) -> Seq<char> {
        decimal(model as nat)
    }

    fn to_json(&self) -> (text: String) {
        decimal_of(*self as u64)
    }
}

impl ToJson for u64 {
    open spec fn json(model: u64) -> Seq<char> {
        decimal(model as nat)
    }

    fn to_json(&self) -> (text: String) {
        decimal_of(*self)
    }
}

impl ToJson for u32 {
    open spec fn json(model: u32) -> Seq<char> {
        decimal(model as nat)
    }

    fn to_json(&self) -> (text: String) {
        decimal_of(*self as u64)
    }
}

impl<T: ToJson> ToJson for Option<T> {
    open spec fn json(model: Option<T::V>) -> Seq<char> {
        match model {
            Some(value) => T::json(value),
            None => "null"@,
        }
    }

    fn to_json(&self) -> (text: String) {
        match self {
            Some(value) => value.to_json(),
            None => "null".to_owned(),
        }
    }
}

impl<T: ToJson> ToJson for Vec<T> {
    open spec fn json(model: Seq<T::V>) -> Seq<char> {
        json_array(model.map_values(|value: T::V| T::json(value)))
    }

    fn to_json(&self) -> (text: String) {
        let mut array = JsonArray::new();
        let mut at: usize = 0;
        while at < self.len()
            invariant
                at <= self.len(),
                array.items() =~= self.deep_view().take(at as int).map_values(
                    |value: T::V| T::json(value),
                ),
            decreases self.len() - at,
        {
            array = array.item(self[at].to_json());
            at += 1;
        }
        assert(self.deep_view().take(at as int) =~= self.deep_view());
        array.finish()
    }
}

/// Whether a JSON text is that of a text or of a number.
pub open spec fn is_scalar(value: Seq<char>) -> bool {
    (exists|text: Seq<char>| value == json_string(text)) || (exists|number: u64| value == decimal(number as nat))
}

/// Whether the members have different names, and each is a text or a number.
pub open spec fn are_scalar_members(members: Seq<(Seq<char>, Seq<char>)>) -> bool {
    &&& forall|i: int| 0 <= i < members.len() ==> is_scalar((#[trigger] members[i]).1)
    &&& forall|i: int, j: int|
        0 <= i < j < members.len() ==> (#[trigger] members[i]).0 != (#[trigger] members[j]).0
}

/// The text in the JSON array of one text or nothing that these bytes hold, as `serde_json` reads it.
pub uninterp spec fn only_text(bytes: Seq<u8>) -> Option<Option<Seq<char>>>;

/// `serde_json::from_slice` into a tuple of one optional text: the item of an array of one. It depends
/// on the bytes alone. Which bytes give which item is left unsaid.
#[verifier::external_body]
pub(crate) fn read_only_text(bytes: &[u8]) -> (text: Option<Option<String>>)
    ensures
        text.deep_view() == only_text(bytes@),
{
    let read: (Option<String>,) = serde_json::from_slice(bytes).ok()?;
    Some(read.0)
}

/// The number, the three texts and the number in the JSON array that these bytes hold, as
/// `serde_json` reads them.
pub uninterp spec fn listed_values(bytes: Seq<u8>) -> Option<(u32, Seq<char>, Seq<char>, Seq<char>, u64)>;

/// `serde_json::from_slice` into a tuple: the values of an array of that many, in that order. It
/// depends on the bytes alone. Of bytes that hold the text of an object it gives nothing. What other
/// bytes give is left unsaid.
#[verifier::external_body]
pub(crate) fn read_listed_values(bytes: &[u8]) -> (values: Option<(u32, String, String, String, u64)>)
    ensures
        match values {
            Some(values) => listed_values(bytes@) == Some(
                (values.0, values.1@, values.2@, values.3@, values.4),
            ),
            None => listed_values(bytes@) is None,
        },
        forall|members: Seq<(Seq<char>, Seq<char>)>|
            bytes@ == vstd::utf8::encode_utf8(#[trigger] json_object(members)) ==> values is None,
{
    serde_json::from_slice(bytes).ok()
}

/// A list of JSON texts being joined by commas behind an opening bracket.
struct Joined {
    text: String,
    empty: bool,
}

impl Joined {
    spec fn holds(self, opening: Seq<char>, items: Seq<Seq<char>>) -> bool {
        &&& self.text@ == opening + json_items(items)
        &&& self.empty == (items.len() == 0)
    }

    fn open(opening: &str) -> (joined: Self)
        ensures
            joined.holds(opening@, Seq::empty()),
    {
        let joined = Joined { text: opening.to_owned(), empty: true };
        assert(joined.text@ =~= opening@ + json_items(Seq::empty()));
        joined
    }

    fn add_item(&mut self, item: &str, opening: Ghost<Seq<char>>, items: Ghost<Seq<Seq<char>>>)
        requires
            old(self).holds(opening@, items@),
        ensures
            final(self).holds(opening@, items@.push(item@)),
    {
        if !self.empty {
            self.text.append(",");
        }
        self.text.append(item);
        self.empty = false;
        assert(items@.push(item@).drop_last() =~= items@);
        assert(self.text@ =~= opening@ + json_items(items@.push(item@)));
    }
}

/// A JSON array being written.
pub struct JsonArray {
    joined: Joined,
    written: Ghost<Seq<Seq<char>>>,
}

impl JsonArray {
    #[verifier::type_invariant]
    spec fn well_formed(self) -> bool {
        self.joined.holds("["@, self.written@)
    }

    /// The items written so far.
    pub closed spec fn items(self) -> Seq<Seq<char>> {
        self.written@
    }

    pub fn new() -> (array: Self)
        ensures
            array.items() == Seq::<Seq<char>>::empty(),
    {
        JsonArray { joined: Joined::open("["), written: Ghost(Seq::empty()) }
    }

    /// Writes one more item.
    pub fn item(self, item: String) -> (array: Self)
        ensures
            array.items() == self.items().push(item@),
    {
        proof {
            use_type_invariant(&self);
        }
        let ghost written = self.written@;
        let mut joined = self.joined;
        joined.add_item(item.as_str(), Ghost("["@), Ghost(written));
        JsonArray { joined, written: Ghost(written.push(item@)) }
    }

    /// The array's text.
    pub fn finish(self) -> (text: String)
        ensures
            text@ == json_array(self.items()),
    {
        proof {
            use_type_invariant(&self);
        }
        let mut text = self.joined.text;
        text.append("]");
        text
    }
}

/// A JSON object being written.
pub struct JsonObject {
    joined: Joined,
    written: Ghost<Seq<(Seq<char>, Seq<char>)>>,
}

impl JsonObject {
    #[verifier::type_invariant]
    spec fn well_formed(self) -> bool {
        self.joined.holds("{"@, json_members(self.written@))
    }

    /// The members written so far.
    pub closed spec fn members(self) -> Seq<(Seq<char>, Seq<char>)> {
        self.written@
    }

    pub fn new() -> (object: Self)
        ensures
            object.members() == Seq::<(Seq<char>, Seq<char>)>::empty(),
    {
        let joined = Joined::open("{");
        assert(json_members(Seq::empty()) =~= Seq::<Seq<char>>::empty());
        JsonObject { joined, written: Ghost(Seq::empty()) }
    }

    /// Writes one more member.
    pub fn member(self, name: &str, value: String) -> (object: Self)
        ensures
            object.members() == self.members().push((name@, value@)),
    {
        proof {
            use_type_invariant(&self);
        }
        let ghost written = self.written@;
        let ghost member = (name@, value@);
        let mut joined = self.joined;
        let mut text = write_string(name);
        text.append(":");
        text.append(value.as_str());
        joined.add_item(text.as_str(), Ghost("{"@), Ghost(json_members(written)));
        assert(json_members(written.push(member)) =~= json_members(written).push(
            json_member(member),
        ));
        JsonObject { joined, written: Ghost(written.push(member)) }
    }

    /// The object's text.
    pub fn finish(self) -> (text: String)
        ensures
            text@ == json_object(self.members()),
    {
        proof {
            use_type_invariant(&self);
        }
        let mut text = self.joined.text;
        text.append("}");
        text
    }
}

/// A text as a JSON string literal.
pub fn text_json(text: &str) -> (literal: String)
    ensures
        literal@ == json_string(text@),
{
    write_string(text)
}

}
