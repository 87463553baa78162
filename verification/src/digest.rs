//! SHA-256 digests of texts.
use vstd::prelude::*;
use crate::json::{json_object, json_string, text_json, JsonObject, ToJson};
use crate::record::Record;
use crate::text::{chars_of, hex, hex_text};
use crate::value::{is_plain, MemoryValueError};

verus! {

/// The SHA-256 digest of the bytes, as the `sha2` crate computes it.
pub uninterp spec fn sha256_digest(bytes: Seq<u8>) -> Seq<u8>;

/// `sha2::Sha256::digest`: the thirty-two bytes of the digest. They depend on the bytes alone;
/// the compression function is left unsaid.
#[verifier::external_body]
fn sha256(bytes: &[u8]) -> (digest: Vec<u8>)
    ensures
        digest@ == sha256_digest(bytes@),
        digest@.len() == 32,
{
    <sha2::Sha256 as sha2::Digest>::digest(bytes).to_vec()
}

/// The digest of a text's UTF-8 bytes, in lower-case hexadecimal.
pub open spec fn text_digest(text: Seq<char>) -> Seq<char> {
    hex_text(sha256_digest(vstd::utf8::encode_utf8(text)))
}

/// A lower-case hexadecimal digit.
pub open spec fn is_hex_digit(character: char) -> bool {
    '0' <= character <= '9' || 'a' <= character <= 'f'
}

/// A character of an algorithm's name.
pub open spec fn is_algorithm_character(character: char) -> bool {
    'a' <= character <= 'z' || '0' <= character <= '9' || character == '-'
}

/// Hexadecimal text has two hexadecimal digits for each byte.
pub proof fn hex_text_has_hex_digits(bytes: Seq<u8>)
    ensures
        hex_text(bytes).len() == 2 * bytes.len(),
        forall|i: int| 0 <= i < hex_text(bytes).len() ==> is_hex_digit(#[trigger] hex_text(bytes)[i]),
    decreases bytes.len(),
{
    if bytes.len() > 0 {
        hex_text_has_hex_digits(bytes.drop_last());
    }
}

/// Whether a text has the form of a SHA-256 digest: 64 lower-case hexadecimal digits.
pub open spec fn is_sha256_text(value: Seq<char>) -> bool {
    &&& value.len() == 64
    &&& forall|i: int| 0 <= i < value.len() ==> is_hex_digit(#[trigger] value[i])
}

/// The digest of a text, in lower-case hexadecimal.
pub fn digest_of(text: &str) -> (value: String)
    ensures
        value@ == text_digest(text@),
        is_sha256_text(value@),
{
    let digest = sha256(text.as_bytes());
    proof {
        hex_text_has_hex_digits(digest@);
    }
    hex(digest.as_slice())
}

pub const MAX_ALGORITHM_CHARACTERS: usize = 64;

pub const MAX_DIGEST_CHARACTERS: usize = 128;

/// Whether the two texts name an algorithm and hold a digest in lower-case hexadecimal.
pub open spec fn is_digest(algorithm: Seq<char>, value: Seq<char>) -> bool {
    &&& 0 < algorithm.len() <= MAX_ALGORITHM_CHARACTERS
    &&& forall|i: int| 0 <= i < algorithm.len() ==> is_algorithm_character(#[trigger] algorithm[i])
    &&& 0 < value.len() <= MAX_DIGEST_CHARACTERS
    &&& forall|i: int| 0 <= i < value.len() ==> is_hex_digit(#[trigger] value[i])
}

/// A content digest with the name of its algorithm.
#[derive(Debug, PartialEq, Eq, PartialOrd, Ord, Hash)]
pub struct Digest {
    algorithm: String,
    value: String,
}

/// The model of [`Digest`].
pub struct DigestView {
    pub algorithm: Seq<char>,
    pub value: Seq<char>,
}

impl DeepView for Digest {
    type V = DigestView;

    closed spec fn deep_view(&self) -> DigestView {
        DigestView { algorithm: self.algorithm@, value: self.value@ }
    }
}

/// The SHA-256 digest of a text, as a model.
pub open spec fn sha256_of(text: Seq<char>) -> DigestView {
    DigestView { algorithm: "sha256"@, value: text_digest(text) }
}

impl Digest {
    #[verifier::type_invariant]
    spec fn valid(self) -> bool {
        is_digest(self.algorithm@, self.value@)
    }

    /// The digest with this algorithm and this value.
    pub fn new(algorithm: &str, value: &str) -> (result: Result<Self, MemoryValueError>)
        ensures
            is_digest(algorithm@, value@) ==> result is Ok && result->Ok_0.deep_view() == (
                DigestView { algorithm: algorithm@, value: value@ }),
            !is_digest(algorithm@, value@) ==> result is Err && result->Err_0.describes(
                "digest"@,
                MAX_DIGEST_CHARACTERS,
            ),
    {
        let error = MemoryValueError::Invalid { kind: "digest", max_bytes: MAX_DIGEST_CHARACTERS };
        let algorithm_chars = chars_of(algorithm);
        let value_chars = chars_of(value);
        if algorithm_chars.len() == 0 || algorithm_chars.len() > MAX_ALGORITHM_CHARACTERS
            || value_chars.len() == 0 || value_chars.len() > MAX_DIGEST_CHARACTERS {
            return Err(error);
        }
        let mut at: usize = 0;
        while at < algorithm_chars.len()
            invariant
                at <= algorithm_chars.len(),
                algorithm_chars@ == algorithm@,
                forall|i: int| 0 <= i < at ==> is_algorithm_character(#[trigger] algorithm@[i]),
                error.describes("digest"@, MAX_DIGEST_CHARACTERS),
            decreases algorithm_chars.len() - at,
        {
            let character = algorithm_chars[at];
            if !(('a' <= character && character <= 'z') || ('0' <= character && character <= '9')
                || character == '-') {
                assert(!is_algorithm_character(algorithm@[at as int]));
                return Err(error);
            }
            at += 1;
        }
        let mut at: usize = 0;
        while at < value_chars.len()
            invariant
                at <= value_chars.len(),
                value_chars@ == value@,
                forall|i: int| 0 <= i < at ==> is_hex_digit(#[trigger] value@[i]),
                error.describes("digest"@, MAX_DIGEST_CHARACTERS),
            decreases value_chars.len() - at,
        {
            let character = value_chars[at];
            if !(('0' <= character && character <= '9') || ('a' <= character && character <= 'f')) {
                assert(!is_hex_digit(value@[at as int]));
                return Err(error);
            }
            at += 1;
        }
        Ok(Digest { algorithm: algorithm.to_owned(), value: value.to_owned() })
    }

    /// The SHA-256 digest of a text.
    pub fn of_text(text: &str) -> (digest: Self)
        ensures
            digest.deep_view() == sha256_of(text@),
            is_sha256_text(digest.deep_view().value),
    {
        let value = digest_of(text);
        proof {
            reveal_strlit("sha256");
        }
        Digest { algorithm: "sha256".to_owned(), value }
    }

    /// The name of the algorithm.
    pub fn algorithm(&self) -> (algorithm: &str)
        ensures
            algorithm@ == self.deep_view().algorithm,
    {
        self.algorithm.as_str()
    }

    /// The digest in hexadecimal.
    pub fn value(&self) -> (value: &str)
        ensures
            value@ == self.deep_view().value,
            0 < value@.len() <= MAX_DIGEST_CHARACTERS,
            forall|i: int| 0 <= i < value@.len() ==> is_hex_digit(#[trigger] value@[i]),
    {
        proof {
            use_type_invariant(self);
        }
        self.value.as_str()
    }
}

impl Record for Digest {
    fn copied(&self) -> (copy: Self) {
        proof {
            use_type_invariant(self);
        }
        Digest { algorithm: self.algorithm.clone(), value: self.value.clone() }
    }

    fn same(&self, other: &Self) -> (same: bool) {
        self.algorithm == other.algorithm && self.value == other.value
    }
}

impl Clone for Digest {
    fn clone(&self) -> (copy: Self)
        ensures
            copy.deep_view() == self.deep_view(),
    {
        self.copied()
    }
}

impl DigestView {
    /// The members of the JSON object.
    pub open spec fn members(self) -> Seq<(Seq<char>, Seq<char>)> {
        seq![("algorithm"@, json_string(self.algorithm)), ("value"@, json_string(self.value))]
    }
}

impl ToJson for Digest {
    open spec fn json(model: DigestView) -> Seq<char> {
        json_object(model.members())
    }

    fn to_json(&self) -> (text: String) {
        let object = JsonObject::new().member(
            "algorithm",
            text_json(self.algorithm.as_str()),
        ).member("value", text_json(self.value.as_str()));
        assert(object.members() =~= self.deep_view().members());
        object.finish()
    }
}

/// Hexadecimal digits are visible ASCII characters.
pub proof fn hex_digits_are_plain(text: Seq<char>)
    requires
        forall|i: int| 0 <= i < text.len() ==> is_hex_digit(#[trigger] text[i]),
    ensures
        forall|i: int| 0 <= i < text.len() ==> is_plain(#[trigger] text[i]),
{
}

}
