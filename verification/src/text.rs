//! Text as sequences of characters: classes of characters, trimming, searching and joining.
use vstd::prelude::*;

verus! {

/// Appends one character. `String::push` extends the text by exactly that character.
#[verifier::external_body]
fn push_char(text: &mut String, character: char)
    ensures
        final(text)@ == old(text)@.push(character),
{
    text.push(character)
}

/// The text in lower case, as `str::to_lowercase` maps it.
pub uninterp spec fn lowercase(text: Seq<char>) -> Seq<char>;

/// `str::to_lowercase`: the lower-case form that Unicode gives to the text. It depends on the
/// text alone; the mapping itself is left unsaid.
#[verifier::external_body]
pub(crate) fn to_lowercase(text: &str) -> (lower: String)
    ensures
        lower@ == lowercase(text@),
{
    text.to_lowercase()
}

/// The control characters: Unicode's general category `Cc`.
pub open spec fn is_control(character: char) -> bool {
    character <= '\u{1f}' || '\u{7f}' <= character <= '\u{9f}'
}

/// The characters with Unicode's `White_Space` property.
pub open spec fn is_space(character: char) -> bool {
    ||| '\u{9}' <= character <= '\u{d}'
    ||| character == '\u{20}'
    ||| character == '\u{85}'
    ||| character == '\u{a0}'
    ||| character == '\u{1680}'
    ||| '\u{2000}' <= character <= '\u{200a}'
    ||| character == '\u{2028}'
    ||| character == '\u{2029}'
    ||| character == '\u{202f}'
    ||| character == '\u{205f}'
    ||| character == '\u{3000}'
}

pub fn control_character(character: char) -> (control: bool)
    ensures
        control == is_control(character),
{
    character <= '\u{1f}' || ('\u{7f}' <= character && character <= '\u{9f}')
}

pub fn space_character(character: char) -> (space: bool)
    ensures
        space == is_space(character),
{
    ('\u{9}' <= character && character <= '\u{d}') || character == '\u{20}' || character
        == '\u{85}' || character == '\u{a0}' || character == '\u{1680}' || ('\u{2000}' <= character
        && character <= '\u{200a}') || character == '\u{2028}' || character == '\u{2029}'
        || character == '\u{202f}' || character == '\u{205f}' || character == '\u{3000}'
}

/// The text without its leading white space.
pub open spec fn trimmed_start(text: Seq<char>) -> Seq<char>
    decreases text.len(),
{
    if text.len() > 0 && is_space(text[0]) {
        trimmed_start(text.drop_first())
    } else {
        text
    }
}

/// The text without its trailing white space.
pub open spec fn trimmed_end(text: Seq<char>) -> Seq<char>
    decreases text.len(),
{
    if text.len() > 0 && is_space(text.last()) {
        trimmed_end(text.drop_last())
    } else {
        text
    }
}

/// The text without leading and trailing white space.
pub open spec fn trimmed(text: Seq<char>) -> Seq<char> {
    trimmed_end(trimmed_start(text))
}

/// `str::from_utf8`: the text that these bytes are in UTF-8; none where they are not UTF-8.
#[verifier::external_body]
pub(crate) fn utf8_text(bytes: &[u8]) -> (text: Option<String>)
    ensures
        text is Some == vstd::utf8::valid_utf8(bytes@),
        text matches Some(text) ==> text@ == vstd::utf8::decode_utf8(bytes@),
{
    std::str::from_utf8(bytes).ok().map(str::to_owned)
}

/// Whether `needle` occurs in `text` at some place.
pub open spec fn occurs_in(needle: Seq<char>, text: Seq<char>) -> bool {
    exists|at: int| occurs_at(needle, text, at)
}

/// Whether `needle` occurs in `text` at place `at`.
pub open spec fn occurs_at(needle: Seq<char>, text: Seq<char>, at: int) -> bool {
    &&& 0 <= at
    &&& at + needle.len() <= text.len()
    &&& text.subrange(at, at + needle.len()) == needle
}

/// The characters of `text`, in order.
pub fn chars_of(text: &str) -> (chars: Vec<char>)
    ensures
        chars@ == text@,
{
    let mut chars: Vec<char> = Vec::new();
    for character in iter: text.chars()
        invariant
            chars@ == text@.take(iter.index()),
            iter.seq() == text@,
    {
        chars.push(character);
    }
    assert(text@.take(text@.len() as int) =~= text@);
    chars
}

/// The text made of the characters `chars[from..to]`.
pub fn text_of(chars: &Vec<char>, from: usize, to: usize) -> (text: String)
    requires
        from <= to <= chars.len(),
    ensures
        text@ == chars@.subrange(from as int, to as int),
{
    let mut text = String::new();
    let mut at: usize = from;
    while at < to
        invariant
            from <= at <= to <= chars.len(),
            text@ == chars@.subrange(from as int, at as int),
        decreases to - at,
    {
        push_char(&mut text, chars[at]);
        at += 1;
    }
    text
}

/// Where the text that starts at `from` begins once its leading white space is left out.
pub fn skip_space(chars: &Vec<char>, from: usize, to: usize) -> (start: usize)
    requires
        from <= to <= chars.len(),
    ensures
        from <= start <= to,
        chars@.subrange(start as int, to as int) == trimmed_start(
            chars@.subrange(from as int, to as int),
        ),
{
    let mut start: usize = from;
    while start < to && space_character(chars[start])
        invariant
            from <= start <= to <= chars.len(),
            trimmed_start(chars@.subrange(start as int, to as int)) == trimmed_start(
                chars@.subrange(from as int, to as int),
            ),
        decreases to - start,
    {
        assert(chars@.subrange(start as int, to as int).drop_first() =~= chars@.subrange(
            start + 1,
            to as int,
        ));
        start += 1;
    }
    start
}

/// Where the text that ends at `to` ends once its trailing white space is left out.
pub fn drop_space(chars: &Vec<char>, from: usize, to: usize) -> (end: usize)
    requires
        from <= to <= chars.len(),
    ensures
        from <= end <= to,
        chars@.subrange(from as int, end as int) == trimmed_end(
            chars@.subrange(from as int, to as int),
        ),
{
    let mut end: usize = to;
    while end > from && space_character(chars[end - 1])
        invariant
            from <= end <= to <= chars.len(),
            trimmed_end(chars@.subrange(from as int, end as int)) == trimmed_end(
                chars@.subrange(from as int, to as int),
            ),
        decreases end,
    {
        assert(chars@.subrange(from as int, end as int).drop_last() =~= chars@.subrange(
            from as int,
            end - 1,
        ));
        end -= 1;
    }
    end
}

/// The text without leading and trailing white space.
pub fn trim(text: &str) -> (result: String)
    ensures
        result@ == trimmed(text@),
{
    let chars = chars_of(text);
    let start = skip_space(&chars, 0, chars.len());
    assert(chars@.subrange(0, chars@.len() as int) =~= chars@);
    let end = drop_space(&chars, start, chars.len());
    text_of(&chars, start, end)
}

/// Whether `text` begins with `prefix`.
pub fn starts_with(text: &str, prefix: &str) -> (starts: bool)
    ensures
        starts == prefix@.is_prefix_of(text@),
{
    let text_chars = chars_of(text);
    let prefix_chars = chars_of(prefix);
    let starts = matches_at(&prefix_chars, &text_chars, 0);
    assert(prefix@.len() <= text@.len() ==> text@.subrange(0, prefix@.len() as int) =~= text@.take(
        prefix@.len() as int,
    ));
    starts
}

/// Whether `needle` stands in `text` at place `at`.
pub fn matches_at(needle: &Vec<char>, text: &Vec<char>, at: usize) -> (found: bool)
    requires
        at <= text.len(),
    ensures
        found == occurs_at(needle@, text@, at as int),
{
    if needle.len() > text.len() - at {
        return false;
    }
    let mut i: usize = 0;
    while i < needle.len()
        invariant
            at <= text.len(),
            i <= needle.len() <= text.len() - at,
            forall|j: int| 0 <= j < i ==> needle@[j] == text@[at + j],
        decreases needle.len() - i,
    {
        if needle[i] != text[at + i] {
            assert(text@.subrange(at as int, at + needle@.len())[i as int] != needle@[i as int]);
            return false;
        }
        i += 1;
    }
    assert(text@.subrange(at as int, at + needle@.len()) =~= needle@);
    true
}

/// Whether `needle` occurs in `text`.
pub fn contains_text(text: &str, needle: &str) -> (found: bool)
    ensures
        found == occurs_in(needle@, text@),
{
    let text_chars = chars_of(text);
    let needle_chars = chars_of(needle);
    let mut at: usize = 0;
    while at < text_chars.len()
        invariant
            at <= text_chars.len(),
            text_chars@ == text@,
            needle_chars@ == needle@,
            forall|j: int| 0 <= j < at ==> !occurs_at(needle@, text@, j),
        decreases text_chars.len() - at,
    {
        if matches_at(&needle_chars, &text_chars, at) {
            return true;
        }
        at += 1;
    }
    let found = matches_at(&needle_chars, &text_chars, at);
    assert(forall|j: int| at < j ==> !occurs_at(needle@, text@, j));
    found
}

/// What follows `prefix` in `text`, where `text` begins with it.
pub fn strip_prefix(text: &str, prefix: &str) -> (rest: Option<String>)
    ensures
        prefix@.is_prefix_of(text@) ==> rest is Some && rest->0@ == text@.skip(
            prefix@.len() as int,
        ),
        !prefix@.is_prefix_of(text@) ==> rest is None,
{
    let text_chars = chars_of(text);
    let prefix_chars = chars_of(prefix);
    assert(prefix@.len() <= text@.len() ==> text@.subrange(0, prefix@.len() as int) =~= text@.take(
        prefix@.len() as int,
    ));
    if matches_at(&prefix_chars, &text_chars, 0) {
        assert(text@.subrange(prefix@.len() as int, text@.len() as int) =~= text@.skip(
            prefix@.len() as int,
        ));
        Some(text_of(&text_chars, prefix_chars.len(), text_chars.len()))
    } else {
        None
    }
}

/// The parts of a text between the separators.
pub open spec fn split_at_each(text: Seq<char>, separator: char) -> Seq<Seq<char>>
    decreases text.len(),
{
    if text.len() == 0 {
        seq![Seq::<char>::empty()]
    } else {
        let parts = split_at_each(text.drop_last(), separator);
        if text.last() == separator {
            parts.push(Seq::empty())
        } else {
            parts.drop_last().push(parts.last().push(text.last()))
        }
    }
}

/// The parts of a text between the separators.
pub fn split_text(text: &str, separator: char) -> (parts: Vec<String>)
    ensures
        parts.deep_view() == split_at_each(text@, separator),
        parts.len() > 0,
{
    let chars = chars_of(text);
    let mut parts: Vec<String> = Vec::new();
    let mut part = String::new();
    let mut at: usize = 0;
    assert(parts.deep_view().push(part@) =~= split_at_each(text@.take(0), separator));
    while at < chars.len()
        invariant
            at <= chars.len(),
            chars@ == text@,
            parts.deep_view().push(part@) == split_at_each(text@.take(at as int), separator),
        decreases chars.len() - at,
    {
        let ghost before = parts.deep_view();
        let ghost started = part@;
        let ghost next = text@.take(at + 1);
        assert(next.drop_last() =~= text@.take(at as int));
        assert(before.push(started).drop_last() =~= before);
        if chars[at] == separator {
            parts.push(part);
            part = String::new();
            assert(parts.deep_view() =~= before.push(started));
            assert(parts.deep_view().push(part@) =~= split_at_each(next, separator));
        } else {
            push_char(&mut part, chars[at]);
        }
        at += 1;
    }
    assert(text@.take(at as int) =~= text@);
    let ghost before = parts.deep_view();
    let ghost last = part@;
    parts.push(part);
    assert(parts.deep_view() =~= before.push(last));
    parts
}

/// Whether a character occurs in a text.
pub fn contains_character(text: &str, character: char) -> (found: bool)
    ensures
        found == text@.contains(character),
{
    let chars = chars_of(text);
    let mut at: usize = 0;
    while at < chars.len()
        invariant
            at <= chars.len(),
            chars@ == text@,
            forall|i: int| 0 <= i < at ==> text@[i] != character,
        decreases chars.len() - at,
    {
        if chars[at] == character {
            return true;
        }
        at += 1;
    }
    false
}

/// The two texts, one behind the other.
pub fn joined(left: &str, right: &str) -> (text: String)
    ensures
        text@ == left@ + right@,
{
    let mut text = left.to_owned();
    text.append(right);
    text
}

/// The decimal digit `value` as a character.
pub open spec fn digit_character(value: int) -> char {
    if value == 0 { '0' } else if value == 1 { '1' } else if value == 2 { '2' } else if value == 3 { '3' }
    else if value == 4 { '4' } else if value == 5 { '5' } else if value == 6 { '6' }
    else if value == 7 { '7' } else if value == 8 { '8' } else if value == 9 { '9' }
    else if value == 10 { 'a' } else if value == 11 { 'b' } else if value == 12 { 'c' }
    else if value == 13 { 'd' } else if value == 14 { 'e' } else { 'f' }
}

/// The digits of `number` in base ten, without leading zeros.
pub open spec fn decimal(number: nat) -> Seq<char>
    decreases number,
{
    if number < 10 {
        seq![digit_character(number as int)]
    } else {
        decimal(number / 10).push(digit_character((number % 10) as int))
    }
}

proof fn decimal_holds_digits(number: nat)
    ensures
        decimal(number).len() > 0,
        forall|i: int|
            0 <= i < decimal(number).len() ==> exists|value: int|
                0 <= value < 10 && #[trigger] decimal(number)[i] == digit_character(value),
    decreases number,
{
    let last = (if number < 10 { number } else { number % 10 }) as int;
    assert(decimal(number).last() == digit_character(last));
    if number >= 10 {
        let rest = decimal(number / 10);
        decimal_holds_digits(number / 10);
        assert forall|i: int| 0 <= i < decimal(number).len() implies exists|value: int|
            0 <= value < 10 && #[trigger] decimal(number)[i] == digit_character(value) by {
            if i < rest.len() {
                assert(decimal(number)[i] == rest[i]);
            } else {
                assert(decimal(number)[i] == digit_character(last));
            }
        }
    } else {
        assert forall|i: int| 0 <= i < decimal(number).len() implies exists|value: int|
            0 <= value < 10 && #[trigger] decimal(number)[i] == digit_character(value) by {
            assert(decimal(number)[i] == digit_character(last));
        }
    }
}

/// A decimal notation is in ASCII.
pub proof fn decimal_is_ascii(number: nat)
    ensures
        vstd::utf8::is_ascii_chars(decimal(number)),
{
    decimal_holds_digits(number);
}

/// The greater of two numbers has no fewer digits.
pub proof fn greater_numbers_are_no_shorter(smaller: nat, greater: nat)
    requires
        smaller <= greater,
    ensures
        decimal(smaller).len() <= decimal(greater).len(),
    decreases greater,
{
    if greater >= 10 {
        if smaller >= 10 {
            greater_numbers_are_no_shorter(smaller / 10, greater / 10);
        }
    }
}

/// Two numbers with one decimal notation are one.
pub proof fn decimals_tell_numbers_apart(left: nat, right: nat)
    requires
        decimal(left) == decimal(right),
    ensures
        left == right,
    decreases left,
{
    if left >= 10 && right >= 10 {
        assert(decimal(left).drop_last() =~= decimal(left / 10));
        assert(decimal(right).drop_last() =~= decimal(right / 10));
        assert(decimal(left).last() == digit_character((left % 10) as int));
        assert(decimal(right).last() == digit_character((right % 10) as int));
        decimals_tell_numbers_apart(left / 10, right / 10);
    } else if left >= 10 {
        decimal_holds_digits(left / 10);
        assert(decimal(left).len() == decimal(left / 10).len() + 1);
        assert(decimal(right).len() == 1);
    } else if right >= 10 {
        decimal_holds_digits(right / 10);
        assert(decimal(right).len() == decimal(right / 10).len() + 1);
        assert(decimal(left).len() == 1);
    } else {
        assert(decimal(left)[0] == digit_character(left as int));
        assert(decimal(right)[0] == digit_character(right as int));
    }
}

/// A number is told by its digits up to a comma, whatever follows.
pub proof fn digits_end_at_a_comma(left: nat, left_rest: Seq<char>, right: nat, right_rest: Seq<char>)
    requires
        decimal(left) + ","@ + left_rest == decimal(right) + ","@ + right_rest,
    ensures
        left == right,
{
    reveal_strlit(",");
    decimal_holds_digits(left);
    decimal_holds_digits(right);
    let whole = decimal(left) + ","@ + left_rest;
    assert(whole[decimal(left).len() as int] == ',');
    assert(whole[decimal(right).len() as int] == ',');
    if decimal(left).len() < decimal(right).len() {
        assert(decimal(right)[decimal(left).len() as int] == ',');
        assert(false);
    }
    if decimal(right).len() < decimal(left).len() {
        assert(decimal(left)[decimal(right).len() as int] == ',');
        assert(false);
    }
    assert(whole.take(decimal(left).len() as int) =~= decimal(left));
    assert(whole.take(decimal(right).len() as int) =~= decimal(right));
    decimals_tell_numbers_apart(left, right);
}

pub fn digit(value: u8) -> (character: char)
    requires
        value < 16,
    ensures
        character == digit_character(value as int),
{
    if value == 0 { '0' } else if value == 1 { '1' } else if value == 2 { '2' } else if value == 3 { '3' }
    else if value == 4 { '4' } else if value == 5 { '5' } else if value == 6 { '6' }
    else if value == 7 { '7' } else if value == 8 { '8' } else if value == 9 { '9' }
    else if value == 10 { 'a' } else if value == 11 { 'b' } else if value == 12 { 'c' }
    else if value == 13 { 'd' } else if value == 14 { 'e' } else { 'f' }
}

/// The decimal notation of `number`.
pub fn decimal_of(number: u64) -> (text: String)
    ensures
        text@ == decimal(number as nat),
    decreases number,
{
    let mut text = if number < 10 {
        String::new()
    } else {
        decimal_of(number / 10)
    };
    push_char(&mut text, digit((number % 10) as u8));
    assert(number < 10 ==> text@ =~= decimal(number as nat));
    text
}

/// The decimal notation of a signed number.
pub open spec fn signed_decimal(value: i64) -> Seq<char> {
    if value < 0 {
        "-"@ + decimal((-value) as nat)
    } else {
        decimal(value as nat)
    }
}

/// The decimal notation of a signed number.
pub fn signed_decimal_of(value: i64) -> (text: String)
    ensures
        text@ == signed_decimal(value),
{
    if value < 0 {
        let magnitude = (-(value as i128)) as u64;
        let mut text = "-".to_owned();
        text.append(decimal_of(magnitude).as_str());
        text
    } else {
        decimal_of(value as u64)
    }
}

/// The bytes as lower-case hexadecimal text, two digits each.
pub open spec fn hex_text(bytes: Seq<u8>) -> Seq<char>
    decreases bytes.len(),
{
    if bytes.len() == 0 {
        Seq::empty()
    } else {
        hex_text(bytes.drop_last()).push(digit_character(bytes.last() as int / 16)).push(
            digit_character(bytes.last() as int % 16),
        )
    }
}

/// The bytes as lower-case hexadecimal text, two digits each.
pub fn hex(bytes: &[u8]) -> (text: String)
    ensures
        text@ == hex_text(bytes@),
{
    let mut text = String::new();
    let mut at: usize = 0;
    while at < bytes.len()
        invariant
            at <= bytes.len(),
            text@ == hex_text(bytes@.take(at as int)),
        decreases bytes.len() - at,
    {
        push_char(&mut text, digit(bytes[at] / 16));
        push_char(&mut text, digit(bytes[at] % 16));
        assert(bytes@.take(at + 1).drop_last() =~= bytes@.take(at as int));
        at += 1;
    }
    assert(bytes@.take(at as int) =~= bytes@);
    text
}

/// The value of a hexadecimal digit, or a negative number for any other byte.
pub open spec fn hex_digit_value(byte: u8) -> int {
    if 48 <= byte <= 57 {
        byte - 48
    } else if 97 <= byte <= 102 {
        byte - 87
    } else if 65 <= byte <= 70 {
        byte - 55
    } else {
        -1
    }
}

/// The bytes that pairs of hexadecimal digits stand for, where they are such. A digit without a
/// partner at the end does not count.
pub open spec fn unhexed(digits: Seq<u8>) -> Option<Seq<u8>>
    decreases digits.len(),
{
    if digits.len() < 2 {
        Some(Seq::empty())
    } else {
        let even = digits.len() - digits.len() % 2;
        let high = hex_digit_value(digits[even - 2]);
        let low = hex_digit_value(digits[even - 1]);
        match unhexed(digits.take(even - 2)) {
            Some(bytes) => if high >= 0 && low >= 0 {
                Some(bytes.push((16 * high + low) as u8))
            } else {
                None
            },
            None => None,
        }
    }
}

fn digit_value(byte: u8) -> (value: Option<u8>)
    ensures
        match value {
            Some(value) => value == hex_digit_value(byte) && value < 16,
            None => hex_digit_value(byte) < 0,
        },
{
    if 48 <= byte && byte <= 57 {
        Some(byte - 48)
    } else if 97 <= byte && byte <= 102 {
        Some(byte - 87)
    } else if 65 <= byte && byte <= 70 {
        Some(byte - 55)
    } else {
        None
    }
}

proof fn unhexed_needs_every_pair(digits: Seq<u8>, pairs: int)
    requires
        0 <= 2 * pairs <= digits.len(),
        unhexed(digits.take(2 * pairs)) is None,
    ensures
        unhexed(digits) is None,
    decreases digits.len(),
{
    let even = digits.len() - digits.len() % 2;
    if 2 * pairs < even {
        assert(digits.take(even - 2).take(2 * pairs) =~= digits.take(2 * pairs));
        unhexed_needs_every_pair(digits.take(even - 2), pairs);
    } else if even == digits.len() {
        assert(digits.take(2 * pairs) =~= digits);
    } else {
        unhexed_ignores_odd_end(digits);
    }
}

proof fn unhexed_ignores_odd_end(digits: Seq<u8>)
    ensures
        unhexed(digits) == unhexed(digits.take(digits.len() - digits.len() % 2)),
{
    let even = digits.len() - digits.len() % 2;
    let whole = digits.take(even);
    if even >= 2 {
        assert(whole.take(even - 2) =~= digits.take(even - 2));
    }
}

/// The bytes that pairs of hexadecimal digits stand for, where they are such.
pub fn unhex(value: &str) -> (bytes: Option<Vec<u8>>)
    ensures
        match bytes {
            Some(bytes) => unhexed(vstd::utf8::encode_utf8(value@)) == Some(bytes@),
            None => unhexed(vstd::utf8::encode_utf8(value@)) is None,
        },
{
    let digits = value.as_bytes();
    let ghost all = digits@;
    let mut bytes: Vec<u8> = Vec::new();
    let mut at: usize = 0;
    assert(all.take(0) =~= Seq::empty());
    assert(bytes@ =~= Seq::empty());
    while digits.len() - at >= 2
        invariant
            at <= digits.len(),
            at % 2 == 0,
            all == digits@,
            all == vstd::utf8::encode_utf8(value@),
            unhexed(all.take(at as int)) == Some(bytes@),
        decreases digits.len() - at,
    {
        let ghost next = all.take(at + 2);
        assert(next.take(at as int) =~= all.take(at as int));
        let high = digit_value(digits[at]);
        let low = digit_value(digits[at + 1]);
        match (high, low) {
            (Some(high), Some(low)) => {
                bytes.push(high * 16 + low);
            },
            _ => {
                proof {
                    assert(unhexed(next) is None);
                    assert(2 * (at as int / 2 + 1) == at + 2);
                    unhexed_needs_every_pair(all, at as int / 2 + 1);
                }
                return None;
            },
        }
        at += 2;
    }
    proof {
        unhexed_ignores_odd_end(all);
        assert(all.take(all.len() - all.len() % 2) =~= all.take(at as int));
    }
    Some(bytes)
}

/// Reading hexadecimal text gives back the bytes that it was written from.
pub proof fn unhexing_undoes_hexing(bytes: Seq<u8>)
    ensures
        unhexed(vstd::utf8::encode_utf8(hex_text(bytes))) == Some(bytes),
        vstd::utf8::encode_utf8(hex_text(bytes)).len() == 2 * bytes.len(),
    decreases bytes.len(),
{
    let text = hex_text(bytes);
    hex_text_is_ascii(bytes);
    vstd::utf8::is_ascii_chars_encode_utf8(text);
    let encoded = vstd::utf8::encode_utf8(text);
    if bytes.len() > 0 {
        let rest = bytes.drop_last();
        unhexing_undoes_hexing(rest);
        hex_text_is_ascii(rest);
        vstd::utf8::is_ascii_chars_encode_utf8(hex_text(rest));
        assert(encoded.take(encoded.len() - 2) =~= vstd::utf8::encode_utf8(hex_text(rest)));
        let last = bytes.last() as int;
        assert(hex_digit_value(encoded[encoded.len() - 2]) == last / 16);
        assert(hex_digit_value(encoded[encoded.len() - 1]) == last % 16);
        assert(16 * (last / 16) + last % 16 == last);
        assert(bytes =~= rest.push(bytes.last()));
    } else {
        assert(bytes =~= Seq::empty());
    }
}

proof fn hex_text_is_ascii(bytes: Seq<u8>)
    ensures
        vstd::utf8::is_ascii_chars(hex_text(bytes)),
        hex_text(bytes).len() == 2 * bytes.len(),
    decreases bytes.len(),
{
    if bytes.len() > 0 {
        hex_text_is_ascii(bytes.drop_last());
    }
}

}
