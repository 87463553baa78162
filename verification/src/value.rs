//! Bounded values: texts and numbers that cannot be built outside their bounds.
use vstd::prelude::*;
use crate::json::{byte_len, ToJson};
use crate::record::Record;
use crate::text::{
    chars_of, control_character, decimal, decimal_of, drop_space, is_control, is_space, skip_space,
    trimmed, trimmed_end, trimmed_start,
};

verus! {

/// Why a text cannot be a bounded value.
#[derive(Debug, PartialEq, Eq)]
pub enum MemoryValueError {
    Invalid {
        kind: &'static str,
        max_bytes: usize,
    },
}

impl MemoryValueError {
    /// Whether the error names this kind of value and this bound.
    pub open spec fn describes(self, named: Seq<char>, bound: usize) -> bool {
        match self {
            MemoryValueError::Invalid { kind, max_bytes } => kind@ == named && max_bytes == bound,
        }
    }

    /// What is wrong, in words.
    pub open spec fn words(self) -> Seq<char> {
        match self {
            MemoryValueError::Invalid { kind, max_bytes } => kind@ + " must contain 1..="@ + decimal(
                max_bytes as nat,
            ) + " bytes without control characters"@,
        }
    }

    /// What is wrong, in words.
    pub fn message(&self) -> (text: String)
        ensures
            text@ == self.words(),
    {
        match self {
            MemoryValueError::Invalid { kind, max_bytes } => {
                let mut text = (*kind).to_owned();
                text.append(" must contain 1..=");
                text.append(decimal_of(*max_bytes as u64).as_str());
                text.append(" bytes without control characters");
                text
            },
        }
    }
}

/// Whether a character may stand in a bounded text.
pub open spec fn is_text_character(character: char, newlines: bool) -> bool {
    !is_control(character) || (newlines && (character == '\n' || character == '\r' || character == '\t'))
}

/// Whether a text has something other than white space, at most `max_bytes` bytes, and no control
/// characters other than, where `newlines` says so, line ends and tabs.
pub open spec fn is_bounded_text(text: Seq<char>, max_bytes: nat, newlines: bool) -> bool {
    &&& trimmed(text).len() > 0
    &&& byte_len(text) <= max_bytes
    &&& forall|i: int| 0 <= i < text.len() ==> is_text_character(#[trigger] text[i], newlines)
}

/// The text itself, where it is within the bounds.
pub fn validate_bounded_text(
    value: &str,
    kind: &'static str,
    max_bytes: usize,
    allow_newlines: bool,
) -> (result: Result<String, MemoryValueError>)
    ensures
        is_bounded_text(value@, max_bytes as nat, allow_newlines) ==> result is Ok
            && result->Ok_0@ == value@,
        !is_bounded_text(value@, max_bytes as nat, allow_newlines) ==> result is Err
            && result->Err_0.describes(kind@, max_bytes),
{
    let error = MemoryValueError::Invalid { kind, max_bytes };
    let chars = chars_of(value);
    let start = skip_space(&chars, 0, chars.len());
    assert(chars@.subrange(0, chars@.len() as int) =~= chars@);
    let end = drop_space(&chars, start, chars.len());
    if start == end || value.as_bytes().len() > max_bytes {
        return Err(error);
    }
    let mut at: usize = 0;
    while at < chars.len()
        invariant
            at <= chars.len(),
            chars@ == value@,
            forall|i: int| 0 <= i < at ==> is_text_character(#[trigger] value@[i], allow_newlines),
            error.describes(kind@, max_bytes),
        decreases chars.len() - at,
    {
        let character = chars[at];
        if control_character(character) && !(allow_newlines && (character == '\n' || character
            == '\r' || character == '\t')) {
            assert(!is_text_character(value@[at as int], allow_newlines));
            return Err(error);
        }
        at += 1;
    }
    Ok(value.to_owned())
}

/// A visible ASCII character.
pub open spec fn is_plain(character: char) -> bool {
    '\u{21}' <= character <= '\u{7e}'
}

/// A text that starts with a visible ASCII character does not trim to nothing.
pub proof fn trimmed_keeps_plain_start(text: Seq<char>)
    requires
        text.len() > 0,
        is_plain(text[0]),
    ensures
        trimmed(text).len() > 0,
{
    assert(trimmed_start(text) == text);
    trimmed_end_keeps_plain_start(text);
}

proof fn trimmed_end_keeps_plain_start(text: Seq<char>)
    requires
        text.len() > 0,
        is_plain(text[0]),
    ensures
        trimmed_end(text).len() > 0,
    decreases text.len(),
{
    if is_space(text.last()) {
        assert(text.len() > 1);
        trimmed_end_keeps_plain_start(text.drop_last());
    }
}

/// A non-empty text of visible ASCII characters is bounded by its length.
pub proof fn plain_text_is_bounded(text: Seq<char>, max_bytes: nat, newlines: bool)
    requires
        0 < text.len() <= max_bytes,
        forall|i: int| 0 <= i < text.len() ==> is_plain(#[trigger] text[i]),
    ensures
        is_bounded_text(text, max_bytes, newlines),
        byte_len(text) == text.len(),
{
    trimmed_keeps_plain_start(text);
    assert(vstd::utf8::is_ascii_chars(text));
    vstd::utf8::is_ascii_chars_encode_utf8(text);
}

/// A positive 32-bit number.
#[derive(Debug, PartialEq, Eq, Clone, Copy)]
pub struct NonZeroU32 {
    value: u32,
}

impl DeepView for NonZeroU32 {
    type V = u32;

    closed spec fn deep_view(&self) -> u32 {
        self.value
    }
}

impl NonZeroU32 {
    #[verifier::type_invariant]
    spec fn positive(self) -> bool {
        self.value > 0
    }

    /// The number as a positive one, where it is.
    pub fn new(value: u32) -> (result: Option<Self>)
        ensures
            result is Some == (value > 0),
            result matches Some(number) ==> number.deep_view() == value,
    {
        if value > 0 {
            Some(NonZeroU32 { value })
        } else {
            None
        }
    }

    /// The number.
    pub fn get(self) -> (value: u32)
        ensures
            value == self.deep_view(),
            value > 0,
    {
        proof {
            use_type_invariant(self);
        }
        self.value
    }
}

/// A positive 64-bit number.
#[derive(Debug, PartialEq, Eq, Clone, Copy)]
pub struct NonZeroU64 {
    value: u64,
}

impl DeepView for NonZeroU64 {
    type V = u64;

    closed spec fn deep_view(&self) -> u64 {
        self.value
    }
}

impl NonZeroU64 {
    #[verifier::type_invariant]
    spec fn positive(self) -> bool {
        self.value > 0
    }

    /// The number as a positive one, where it is.
    pub fn new(value: u64) -> (result: Option<Self>)
        ensures
            result is Some == (value > 0),
            result matches Some(number) ==> number.deep_view() == value,
    {
        if value > 0 {
            Some(NonZeroU64 { value })
        } else {
            None
        }
    }

    /// The number.
    pub fn get(self) -> (value: u64)
        ensures
            value == self.deep_view(),
            value > 0,
    {
        proof {
            use_type_invariant(self);
        }
        self.value
    }
}

impl Record for NonZeroU32 {
    fn copied(&self) -> (copy: Self) {
        *self
    }

    fn same(&self, other: &Self) -> (same: bool) {
        self.value == other.value
    }
}

impl Record for NonZeroU64 {
    fn copied(&self) -> (copy: Self) {
        *self
    }

    fn same(&self, other: &Self) -> (same: bool) {
        self.value == other.value
    }
}

impl ToJson for NonZeroU32 {
    open spec fn json(model: u32) -> Seq<char> {
        decimal(model as nat)
    }

    fn to_json(&self) -> (text: String) {
        decimal_of(self.value as u64)
    }
}

impl ToJson for NonZeroU64 {
    open spec fn json(model: u64) -> Seq<char> {
        decimal(model as nat)
    }

    fn to_json(&self) -> (text: String) {
        decimal_of(self.value)
    }
}

}
