//! What trimming a text and reducing it to plain words give.
use vstd::prelude::*;
use crate::documents::{plain_character, plain_words};
use crate::text::{is_control, is_space, split_at_each, trimmed, trimmed_end, trimmed_start};

verus! {

/// Whether every character of a text is white space.
pub open spec fn is_blank(text: Seq<char>) -> bool {
    forall|i: int| 0 <= i < text.len() ==> is_space(#[trigger] text[i])
}

/// Whether a text neither begins nor ends with white space.
pub open spec fn is_tight(text: Seq<char>) -> bool {
    text.len() > 0 ==> !is_space(text[0]) && !is_space(text.last())
}

/// The characters that are white space, by their numbers.
pub proof fn spaces_have_these_numbers(character: char)
    ensures
        is_space(character) == set![
            0x09int,
            0x0a,
            0x0b,
            0x0c,
            0x0d,
            0x20,
            0x85,
            0xa0,
            0x1680,
            0x2000,
            0x2001,
            0x2002,
            0x2003,
            0x2004,
            0x2005,
            0x2006,
            0x2007,
            0x2008,
            0x2009,
            0x200a,
            0x2028,
            0x2029,
            0x202f,
            0x205f,
            0x3000,
        ].contains(character as int),
        is_control(character) == (0 <= character as int && (character as int) < 0x20 || 0x7f <= character as int
            && (character as int) < 0xa0),
{
}

/// White space in front of a text and behind it does not count, and nothing else is lost.
pub proof fn trimming_takes_the_space_around(before: Seq<char>, text: Seq<char>, behind: Seq<char>)
    requires
        is_blank(before),
        is_blank(behind),
        is_tight(text),
    ensures
        trimmed(before + text + behind) == text,
        text.len() > 0 ==> trimmed_start(before + text) == text,
        trimmed_end(text + behind) == text,
    decreases before.len(),
{
    if before.len() > 0 {
        let rest = before.drop_first();
        assert((before + text + behind).drop_first() =~= rest + text + behind);
        assert((before + text).drop_first() =~= rest + text);
        assert(is_blank(rest)) by {
            assert forall|i: int| 0 <= i < rest.len() implies is_space(#[trigger] rest[i]) by {
                assert(rest[i] == before[i + 1]);
            }
        }
        assert((before + text + behind)[0] == before[0]);
        assert((before + text)[0] == before[0]);
        trimming_takes_the_space_around(rest, text, behind);
    } else {
        assert(before + text + behind =~= text + behind);
        assert(before + text =~= text);
        end_is_trimmed(text, behind);
        if text.len() > 0 {
            assert((text + behind)[0] == text[0]);
        } else {
            assert(text + behind =~= behind);
            blank_is_trimmed(behind);
        }
    }
}

proof fn end_is_trimmed(text: Seq<char>, behind: Seq<char>)
    requires
        is_blank(behind),
        is_tight(text),
    ensures
        trimmed_end(text + behind) == text,
    decreases behind.len(),
{
    if behind.len() > 0 {
        let rest = behind.drop_last();
        assert((text + behind).drop_last() =~= text + rest);
        assert((text + behind).last() == behind[behind.len() - 1]);
        assert(is_blank(rest)) by {
            assert forall|i: int| 0 <= i < rest.len() implies is_space(#[trigger] rest[i]) by {
                assert(rest[i] == behind[i]);
            }
        }
        end_is_trimmed(text, rest);
    } else {
        assert(text + behind =~= text);
    }
}

proof fn blank_is_trimmed(text: Seq<char>)
    requires
        is_blank(text),
    ensures
        trimmed(text) == Seq::<char>::empty(),
    decreases text.len(),
{
    if text.len() > 0 {
        let rest = text.drop_first();
        assert(is_blank(rest)) by {
            assert forall|i: int| 0 <= i < rest.len() implies is_space(#[trigger] rest[i]) by {
                assert(rest[i] == text[i + 1]);
            }
        }
        assert(is_space(text[0]));
        blank_is_trimmed(rest);
    } else {
        assert(text =~= Seq::empty());
    }
}

/// A tight text is what it is trimmed to.
pub proof fn tight_texts_stay(text: Seq<char>)
    requires
        is_tight(text),
    ensures
        trimmed(text) == text,
        trimmed_start(text) == text,
        trimmed_end(text) == text,
{
    let none = Seq::<char>::empty();
    trimming_takes_the_space_around(none, text, none);
    assert(none + text + none =~= text);
    assert(text + none =~= text);
    if text.len() == 0 {
        assert(trimmed_start(text) == text);
    }
}

/// Every text is its trimmed form with white space around it.
pub proof fn texts_are_trimmed_forms_with_space_around(text: Seq<char>) -> (around: (Seq<char>, Seq<char>))
    ensures
        is_blank(around.0),
        is_blank(around.1),
        text == around.0 + trimmed(text) + around.1,
        is_tight(trimmed(text)),
{
    let before = start_space(text);
    let rest = trimmed_start(text);
    let behind = end_space(rest);
    assert(text =~= before + trimmed(text) + behind);
    end_is_tight(rest);
    start_is_tight(text);
    if trimmed(text).len() > 0 {
        assert(trimmed(text)[0] == rest[0]);
    }
    (before, behind)
}

proof fn start_space(text: Seq<char>) -> (before: Seq<char>)
    ensures
        is_blank(before),
        text == before + trimmed_start(text),
    decreases text.len(),
{
    if text.len() > 0 && is_space(text[0]) {
        let rest = start_space(text.drop_first());
        let before = seq![text[0]] + rest;
        assert(trimmed_start(text) == trimmed_start(text.drop_first()));
        assert(text =~= seq![text[0]] + text.drop_first());
        assert(seq![text[0]] + (rest + trimmed_start(text)) =~= before + trimmed_start(text));
        assert forall|i: int| 0 <= i < before.len() implies is_space(#[trigger] before[i]) by {
            if i > 0 {
                assert(before[i] == rest[i - 1]);
            }
        }
        before
    } else {
        assert(text =~= Seq::<char>::empty() + text);
        Seq::empty()
    }
}

proof fn end_space(text: Seq<char>) -> (behind: Seq<char>)
    ensures
        is_blank(behind),
        text == trimmed_end(text) + behind,
    decreases text.len(),
{
    if text.len() > 0 && is_space(text.last()) {
        let rest = end_space(text.drop_last());
        let behind = rest.push(text.last());
        assert(trimmed_end(text) == trimmed_end(text.drop_last()));
        assert(text =~= text.drop_last().push(text.last()));
        assert((trimmed_end(text) + rest).push(text.last()) =~= trimmed_end(text) + behind);
        assert forall|i: int| 0 <= i < behind.len() implies is_space(#[trigger] behind[i]) by {
            if i < rest.len() {
                assert(behind[i] == rest[i]);
            }
        }
        behind
    } else {
        assert(text =~= text + Seq::<char>::empty());
        Seq::empty()
    }
}

proof fn start_is_tight(text: Seq<char>)
    ensures
        trimmed_start(text).len() > 0 ==> !is_space(trimmed_start(text)[0]),
    decreases text.len(),
{
    if text.len() > 0 && is_space(text[0]) {
        start_is_tight(text.drop_first());
    }
}

proof fn end_is_tight(text: Seq<char>)
    ensures
        trimmed_end(text).len() > 0 ==> !is_space(trimmed_end(text).last()) && trimmed_end(text)[0] == text[0],
        trimmed_end(text).len() <= text.len(),
    decreases text.len(),
{
    if text.len() > 0 && is_space(text.last()) {
        end_is_tight(text.drop_last());
    }
}

/// Whether a character parts words: white space, a hyphen or an underscore.
pub open spec fn parts_words(character: char) -> bool {
    is_space(character) || character == '-' || character == '_'
}

/// Whether a character is written for another: itself, or for a small letter the capital one.
pub open spec fn is_written_for(written: char, meant: char) -> bool {
    written == meant || ('a' <= meant <= 'z' && written as int + 32 == meant as int)
}

/// Whether a text spells words, in small letters with one space between them: in any case, and with
/// anything that parts words in place of a space.
pub open spec fn spells(text: Seq<char>, words: Seq<char>) -> bool {
    &&& text.len() == words.len()
    &&& forall|i: int|
        0 <= i < text.len() ==> if words[i] == ' ' {
            parts_words(#[trigger] text[i])
        } else {
            is_written_for(text[i], words[i])
        }
}

/// Whether words are small letters with one space between each two words.
pub open spec fn are_neat(words: Seq<char>) -> bool {
    &&& forall|i: int| 0 <= i < words.len() ==> #[trigger] words[i] == ' ' || 'a' <= words[i] <= 'z'
    &&& forall|i: int| 0 <= i < words.len() && #[trigger] words[i] == ' ' ==> 0 < i < words.len() - 1 && words[i - 1] != ' '
}

/// What spells some words has them as its plain words.
pub proof fn spelling_gives_the_words(text: Seq<char>, words: Seq<char>)
    requires
        are_neat(words),
        spells(text, words),
    ensures
        plain_words(text) == words,
{
    spelling_up_to(text, words, text.len() as int);
    assert(text.take(text.len() as int) =~= text);
    assert(words.take(words.len() as int) =~= words);
}

proof fn spelling_up_to(text: Seq<char>, words: Seq<char>, count: int)
    requires
        are_neat(words),
        spells(text, words),
        0 <= count <= text.len(),
    ensures
        plain_words(text.take(count)) == if count > 0 && words[count - 1] == ' ' {
            words.take(count - 1)
        } else {
            words.take(count)
        },
    decreases count,
{
    if count > 0 {
        spelling_up_to(text, words, count - 1);
        let part = text.take(count);
        let rest = part.drop_last();
        assert(rest =~= text.take(count - 1));
        assert(part.last() == text[count - 1]);
        assert(words[count - 1] == ' ' || 'a' <= words[count - 1] <= 'z');
        if words[count - 1] != ' ' {
            assert(plain_character(text[count - 1]) == words[count - 1]);
            assert(!is_space(words[count - 1]));
            if count > 1 {
                assert(rest.last() == text[count - 2]);
                if words[count - 2] == ' ' {
                    assert(parts_words(text[count - 2]));
                    assert(words.take(count) =~= words.take(count - 2).push(' ').push(words[count - 1]));
                } else {
                    assert('a' <= words[count - 2] <= 'z');
                    assert(is_written_for(text[count - 2], words[count - 2]));
                    assert(plain_character(text[count - 2]) == words[count - 2]);
                    assert(words.take(count) =~= words.take(count - 1).push(words[count - 1]));
                }
            } else {
                assert(words.take(count) =~= words.take(count - 1).push(words[count - 1]));
            }
        } else {
            assert(parts_words(text[count - 1]));
            assert(words[count - 2] != ' ');
        }
    } else {
        assert(text.take(0) =~= Seq::empty());
        assert(words.take(0) =~= Seq::empty());
    }
}

/// What parts words does so only once, and not at all at the start and at the end of a text: a run of it
/// between two texts that have words is one space, and a text without words adds nothing.
pub proof fn words_are_parted_by_one_space(left: Seq<char>, gap: Seq<char>, right: Seq<char>)
    requires
        gap.len() > 0,
        forall|i: int| 0 <= i < gap.len() ==> parts_words(#[trigger] gap[i]),
    ensures
        plain_words(left + gap + right) == if plain_words(left).len() == 0 {
            plain_words(right)
        } else if plain_words(right).len() == 0 {
            plain_words(left)
        } else {
            plain_words(left).push(' ') + plain_words(right)
        },
    decreases right.len(),
{
    let all = left + gap + right;
    if right.len() == 0 {
        assert(all =~= left + gap);
        gap_adds_nothing(left, gap);
        assert(plain_words(right) =~= Seq::empty());
    } else {
        let rest = right.drop_last();
        words_are_parted_by_one_space(left, gap, rest);
        assert(all.drop_last() =~= left + gap + rest);
        assert(all.last() == right.last());
        let character = plain_character(right.last());
        let before = plain_words(all.drop_last());
        assert(all.drop_last().last() == if rest.len() > 0 {
            rest.last()
        } else {
            gap.last()
        });
        if !is_space(character) {
            if rest.len() == 0 {
                assert(plain_words(rest) =~= Seq::empty());
                assert(parts_words(gap[gap.len() - 1]));
                if plain_words(left).len() > 0 {
                    assert(plain_words(left).push(' ').push(character) =~= plain_words(left).push(' ')
                        + plain_words(right));
                } else {
                    assert(before.push(character) =~= plain_words(right));
                }
            } else if plain_words(rest).len() == 0 {
                words_begin_late(rest);
                if plain_words(left).len() > 0 {
                    assert(plain_words(left).push(' ').push(character) =~= plain_words(left).push(' ')
                        + plain_words(right));
                } else {
                    assert(before.push(character) =~= plain_words(right));
                }
            } else if is_space(plain_character(rest.last())) {
                assert((plain_words(left).push(' ') + plain_words(rest)).push(' ').push(character)
                    =~= plain_words(left).push(' ') + plain_words(rest).push(' ').push(character));
            } else {
                assert((plain_words(left).push(' ') + plain_words(rest)).push(character)
                    =~= plain_words(left).push(' ') + plain_words(rest).push(character));
            }
        }
    }
}

/// Where a text has no words, its last character parts words.
proof fn words_begin_late(text: Seq<char>)
    requires
        text.len() > 0,
        plain_words(text).len() == 0,
    ensures
        is_space(plain_character(text.last())),
{
}

proof fn gap_adds_nothing(left: Seq<char>, gap: Seq<char>)
    requires
        forall|i: int| 0 <= i < gap.len() ==> parts_words(#[trigger] gap[i]),
    ensures
        plain_words(left + gap) == plain_words(left),
    decreases gap.len(),
{
    if gap.len() > 0 {
        let rest = gap.drop_last();
        assert forall|i: int| 0 <= i < rest.len() implies parts_words(#[trigger] rest[i]) by {
            assert(rest[i] == gap[i]);
        }
        gap_adds_nothing(left, rest);
        assert((left + gap).drop_last() =~= left + rest);
        assert((left + gap).last() == gap[gap.len() - 1]);
    } else {
        assert(left + gap =~= left);
    }
}

/// Splitting a text at a separator gives the parts before it and behind it, where the part behind holds
/// no separator of its own.
pub proof fn splitting_parts_at_the_separator(left: Seq<char>, separator: char, right: Seq<char>)
    requires
        !right.contains(separator),
    ensures
        split_at_each(left.push(separator) + right, separator) == split_at_each(left, separator).push(right),
        split_at_each(right, separator) == seq![right],
    decreases right.len(),
{
    let all = left.push(separator) + right;
    if right.len() == 0 {
        assert(all =~= left.push(separator));
        assert(all.drop_last() =~= left);
        assert(right =~= Seq::empty());
    } else {
        let rest = right.drop_last();
        assert(!rest.contains(separator)) by {
            if rest.contains(separator) {
                let i = choose|i: int| 0 <= i < rest.len() && rest[i] == separator;
                assert(right[i] == separator);
            }
        }
        assert(right[right.len() - 1] != separator);
        splitting_parts_at_the_separator(left, separator, rest);
        assert(all.drop_last() =~= left.push(separator) + rest);
        assert(rest.push(right.last()) =~= right);
        let parts = split_at_each(left, separator).push(rest);
        assert(parts.drop_last() =~= split_at_each(left, separator));
        assert(seq![rest].drop_last().push(right) =~= seq![right]);
    }
}

}
