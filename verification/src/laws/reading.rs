//! What is read in a specification: its title, its milestones, its outcome and the sections of it.
use vstd::prelude::*;
use crate::documents::{
    field_in, header_in, header_place, id_between, line_end, lines_from, lines_of,
    lines_stand_in_order, milestone_at, milestones_of, next_number, outcome_place, parsed,
    part_place, plain_words, section_about, section_at, section_in, section_place,
    sections_between, space_place, text_between, title_place, without_line_end, without_marks,
    OutcomeSectionKind,
};
use crate::laws::lists::push_holds;
use crate::laws::texts::{
    are_neat, is_tight, spelling_gives_the_words, spells, tight_texts_stay,
    texts_are_trimmed_forms_with_space_around, trimming_takes_the_space_around,
};
use crate::text::{is_space, trimmed, trimmed_end, trimmed_start};

verus! {

/// Whether a heading says what a section of the outcome is about, in any case and with hyphens or
/// underscores in place of spaces.
pub open spec fn is_heading_of(heading: Seq<char>, kind: OutcomeSectionKind) -> bool {
    match kind {
        OutcomeSectionKind::Decision => spells(heading, "decision"@) || spells(heading, "decisions"@),
        OutcomeSectionKind::Deviation => spells(heading, "deviation"@) || spells(heading, "deviations"@),
        OutcomeSectionKind::Validation => spells(heading, "validation"@) || spells(heading, "validation evidence"@)
            || spells(heading, "verification"@),
        OutcomeSectionKind::FollowUp => spells(heading, "follow up"@) || spells(heading, "follow up work"@) || spells(
            heading,
            "remaining work"@,
        ),
    }
}

proof fn heading_words_are_neat()
    ensures
        are_neat("decision"@) && "decision"@.len() > 0,
        are_neat("decisions"@) && "decisions"@.len() > 0,
        are_neat("deviation"@) && "deviation"@.len() > 0,
        are_neat("deviations"@) && "deviations"@.len() > 0,
        are_neat("validation"@) && "validation"@.len() > 0,
        are_neat("validation evidence"@) && "validation evidence"@.len() > 0,
        are_neat("verification"@) && "verification"@.len() > 0,
        are_neat("follow up"@) && "follow up"@.len() > 0,
        are_neat("follow up work"@) && "follow up work"@.len() > 0,
        are_neat("remaining work"@) && "remaining work"@.len() > 0,
{
    reveal_strlit("decision");
    reveal_strlit("decisions");
    reveal_strlit("deviation");
    reveal_strlit("deviations");
    reveal_strlit("validation");
    reveal_strlit("validation evidence");
    reveal_strlit("verification");
    reveal_strlit("follow up");
    reveal_strlit("follow up work");
    reveal_strlit("remaining work");
}

proof fn heading_words_differ()
    ensures
        "decision"@ != "deviation"@,
        "decision"@ != "deviations"@,
        "decision"@ != "validation"@,
        "decision"@ != "validation evidence"@,
        "decision"@ != "verification"@,
        "decision"@ != "follow up"@,
        "decision"@ != "follow up work"@,
        "decision"@ != "remaining work"@,
        "decisions"@ != "deviation"@,
        "decisions"@ != "deviations"@,
        "decisions"@ != "validation"@,
        "decisions"@ != "validation evidence"@,
        "decisions"@ != "verification"@,
        "decisions"@ != "follow up"@,
        "decisions"@ != "follow up work"@,
        "decisions"@ != "remaining work"@,
        "deviation"@ != "validation"@,
        "deviation"@ != "validation evidence"@,
        "deviation"@ != "verification"@,
        "deviation"@ != "follow up"@,
        "deviation"@ != "follow up work"@,
        "deviation"@ != "remaining work"@,
        "deviations"@ != "validation"@,
        "deviations"@ != "validation evidence"@,
        "deviations"@ != "verification"@,
        "deviations"@ != "follow up"@,
        "deviations"@ != "follow up work"@,
        "deviations"@ != "remaining work"@,
        "validation"@ != "follow up"@,
        "validation"@ != "follow up work"@,
        "validation"@ != "remaining work"@,
        "validation evidence"@ != "follow up"@,
        "validation evidence"@ != "follow up work"@,
        "validation evidence"@ != "remaining work"@,
        "verification"@ != "follow up"@,
        "verification"@ != "follow up work"@,
        "verification"@ != "remaining work"@,
{
    reveal_strlit("decision");
    reveal_strlit("decisions");
    reveal_strlit("deviation");
    reveal_strlit("deviations");
    reveal_strlit("validation");
    reveal_strlit("validation evidence");
    reveal_strlit("verification");
    reveal_strlit("follow up");
    reveal_strlit("follow up work");
    reveal_strlit("remaining work");
    assert("decision"@[0] == 'd' && "decision"@[2] == 'c');
    assert("decisions"@[0] == 'd' && "decisions"@[2] == 'c');
    assert("deviation"@[0] == 'd' && "deviation"@[2] == 'v');
    assert("deviations"@[0] == 'd' && "deviations"@[2] == 'v');
    assert("validation"@[0] == 'v');
    assert("validation evidence"@[0] == 'v');
    assert("verification"@[0] == 'v');
    assert("follow up"@[0] == 'f');
    assert("follow up work"@[0] == 'f');
    assert("remaining work"@[0] == 'r');
}

/// Each kind of section is given by its own headings, and a heading of one kind never gives another.
pub proof fn headings_give_their_kind(heading: Seq<char>, kind: OutcomeSectionKind)
    requires
        is_heading_of(heading, kind),
    ensures
        section_about(heading) == Some(kind),
        is_tight(heading) ==> section_in("### "@ + heading) == Some(kind),
{
    heading_words_are_neat();
    heading_words_differ();
    match kind {
        OutcomeSectionKind::Decision => {
            if spells(heading, "decision"@) {
                spelling_gives_the_words(heading, "decision"@);
            } else {
                spelling_gives_the_words(heading, "decisions"@);
            }
        },
        OutcomeSectionKind::Deviation => {
            if spells(heading, "deviation"@) {
                spelling_gives_the_words(heading, "deviation"@);
            } else {
                spelling_gives_the_words(heading, "deviations"@);
            }
        },
        OutcomeSectionKind::Validation => {
            if spells(heading, "validation"@) {
                spelling_gives_the_words(heading, "validation"@);
            } else if spells(heading, "validation evidence"@) {
                spelling_gives_the_words(heading, "validation evidence"@);
            } else {
                spelling_gives_the_words(heading, "verification"@);
            }
        },
        OutcomeSectionKind::FollowUp => {
            if spells(heading, "follow up"@) {
                spelling_gives_the_words(heading, "follow up"@);
            } else if spells(heading, "follow up work"@) {
                spelling_gives_the_words(heading, "follow up work"@);
            } else {
                spelling_gives_the_words(heading, "remaining work"@);
            }
        },
    }
    if is_tight(heading) {
        heading_lines_are_read(heading);
    }
}

proof fn heading_lines_are_read(heading: Seq<char>)
    requires
        is_tight(heading),
        heading.len() > 0,
    ensures
        section_in("### "@ + heading) == section_about(heading),
{
    let line = "### "@ + heading;
    reveal_strlit("### ");
    assert(line[0] == '#');
    assert(line.last() == heading.last());
    tight_texts_stay(line);
    assert("### "@.is_prefix_of(line)) by {
        assert(line.subrange(0, "### "@.len() as int) =~= "### "@);
        assert(line.take("### "@.len() as int) =~= "### "@);
    }
    assert(line.skip("### "@.len() as int) =~= heading);
    tight_texts_stay(heading);
}

/// A heading that gives a kind has exactly the words of one of the headings of this kind.
pub proof fn kinds_need_their_words(heading: Seq<char>)
    ensures
        section_about(heading) == Some(OutcomeSectionKind::Decision) ==> set!["decision"@, "decisions"@].contains(
            plain_words(heading),
        ),
        section_about(heading) == Some(OutcomeSectionKind::Deviation) ==> set!["deviation"@, "deviations"@].contains(
            plain_words(heading),
        ),
        section_about(heading) == Some(OutcomeSectionKind::Validation) ==> set![
            "validation"@,
            "validation evidence"@,
            "verification"@,
        ].contains(plain_words(heading)),
        section_about(heading) == Some(OutcomeSectionKind::FollowUp) ==> set![
            "follow up"@,
            "follow up work"@,
            "remaining work"@,
        ].contains(plain_words(heading)),
{
}

/// A line that is no heading of the third level begins no section.
pub proof fn only_headings_begin_sections(line: Seq<char>)
    ensures
        section_in(line) is Some ==> exists|rest: Seq<char>| trimmed(line) == #[trigger] ("### "@ + rest),
{
    if section_in(line) is Some {
        let rest = trimmed(line).skip("### "@.len() as int);
        assert(trimmed(line) =~= "### "@ + rest);
    }
}

/// A list item with a mark, a number and a title is the header of a milestone: done where the mark is an
/// x, small or capital, and not done where it is a space.
pub proof fn milestone_headers_are_read(done: char, number: Seq<char>, title: Seq<char>)
    requires
        done == 'x' || done == 'X' || done == ' ',
        number.len() > 0,
        forall|i: int| 0 <= i < number.len() ==> !is_space(#[trigger] number[i]),
        title.len() > 0,
        is_tight(title),
    ensures
        header_in("- ["@ + seq![done] + "] #"@ + number + " "@ + title) == Some((done != ' ', title)),
{
    reveal_strlit("- [");
    reveal_strlit("] #");
    reveal_strlit(" ");
    let line = "- ["@ + seq![done] + "] #"@ + number + " "@ + title;
    assert(line[0] == '-');
    assert(line.last() == title.last());
    tight_texts_stay(line);
    assert("- ["@.is_prefix_of(line)) by {
        assert(line.take("- ["@.len() as int) =~= "- ["@);
        assert(line.subrange(0, "- ["@.len() as int) =~= "- ["@);
    }
    let rest = line.skip(3);
    assert(rest[0] == done);
    assert(rest[1] == ']');
    let header = seq!['#'] + number + " "@ + title;
    assert(rest.skip(2) =~= " "@ + header + Seq::<char>::empty());
    assert(header[0] == '#' && header.last() == title.last());
    assert(is_space(' '));
    trimming_takes_the_space_around(" "@, header, Seq::empty());
    let cut: int = number.len() as int + 1;
    number_ends_at_space(header, 0, cut);
    assert(header[cut] == ' ');
    assert(header.skip(cut + 1) =~= title);
    tight_texts_stay(title);
}

proof fn number_ends_at_space(text: Seq<char>, at: int, cut: int)
    requires
        0 <= at <= cut < text.len(),
        forall|i: int| at <= i < cut ==> !is_space(#[trigger] text[i]),
        is_space(text[cut]),
    ensures
        space_place(text, at) == cut,
    decreases cut - at,
{
    if at < cut {
        number_ends_at_space(text, at + 1, cut);
    }
}

/// What is not such a list item is no header: it has to begin with a bracketed mark, a number sign and
/// something behind it, and to have a title that is not blank.
pub proof fn milestone_headers_have_a_mark_and_a_title(line: Seq<char>)
    ensures
        header_in(line) matches Some((done, title)) ==> {
            &&& trimmed(line).len() > 5
            &&& trimmed(line).take(3) == "- ["@
            &&& if done {
                trimmed(line)[3] == 'x' || trimmed(line)[3] == 'X'
            } else {
                trimmed(line)[3] == ' '
            }
            &&& trimmed(line)[4] == ']'
            &&& title.len() > 0
            &&& is_tight(title)
            &&& trimmed(trimmed(line).skip(5)).len() > 0 && trimmed(trimmed(line).skip(5))[0] == '#'
            &&& exists|at: int|
                1 < at < trimmed(trimmed(line).skip(5)).len() && is_space(
                    #[trigger] trimmed(trimmed(line).skip(5))[at],
                ) && title == trimmed(trimmed(trimmed(line).skip(5)).skip(at + 1))
        },
{
    if let Some((done, title)) = header_in(line) {
        let text = trimmed(line);
        reveal_strlit("- [");
        assert(text.take(3) =~= "- ["@);
        let rest = text.skip(3);
        assert(rest.skip(2) =~= text.skip(5));
        let header = trimmed(text.skip(5));
        let cut = space_place(header, 0);
        space_is_found(header, 0);
        assert(is_space(header[cut]));
        let around = texts_are_trimmed_forms_with_space_around(header.skip(cut + 1));
        assert(text.skip(5).len() > 0) by {
            if text.skip(5).len() == 0 {
                assert(text.skip(5) =~= Seq::empty());
                tight_texts_stay(text.skip(5));
            }
        }
    }
}

proof fn space_is_found(text: Seq<char>, at: int)
    requires
        0 <= at,
    ensures
        at < text.len() ==> space_place(text, at) <= text.len(),
        at <= space_place(text, at),
        space_place(text, at) < text.len() ==> is_space(text[space_place(text, at)]),
    decreases text.len() - at,
{
    if at < text.len() && !is_space(text[at]) {
        space_is_found(text, at + 1);
    }
}

/// A field is read behind its name and a colon, in a list item or on a line of its own, without the
/// space around its value.
pub proof fn fields_are_read(name: Seq<char>, value: Seq<char>)
    requires
        name.len() > 0,
        is_tight(name),
        is_tight(value),
        !"- "@.is_prefix_of(name + ":"@),
    ensures
        value.len() > 0 ==> field_in("- "@ + name + ": "@ + value, name) == Some(value),
        value.len() > 0 && !"- "@.is_prefix_of(name + ": "@ + value) ==> field_in(name + ": "@ + value, name) == Some(
            value,
        ),
        field_in("- "@ + name + ":"@, name) == Some(Seq::<char>::empty()),
{
    reveal_strlit("- ");
    reveal_strlit(": ");
    reveal_strlit(":");
    assert(is_space(' '));
    let none = Seq::<char>::empty();
    let empty_item = "- "@ + name + ":"@;
    tight_texts_stay(empty_item);
    assert("- "@.is_prefix_of(empty_item)) by {
        assert(empty_item.take(2) =~= "- "@);
    }
    assert(empty_item.skip(2) =~= name + ":"@);
    assert(name.is_prefix_of(name + ":"@)) by {
        assert((name + ":"@).take(name.len() as int) =~= name);
    }
    assert((name + ":"@).skip(name.len() as int) =~= ":"@);
    assert(":"@.skip(1) =~= none);
    tight_texts_stay(none);
    if value.len() > 0 {
        let entry = name + ": "@ + value;
        let item = "- "@ + name + ": "@ + value;
        assert(entry.last() == value.last() && item.last() == value.last());
        assert(entry[0] == name[0]);
        tight_texts_stay(item);
        tight_texts_stay(entry);
        assert("- "@.is_prefix_of(item)) by {
            assert(item.take(2) =~= "- "@);
        }
        assert(item.skip(2) =~= entry);
        assert(name.is_prefix_of(entry)) by {
            assert(entry.take(name.len() as int) =~= name);
        }
        let rest = entry.skip(name.len() as int);
        assert(rest =~= ": "@ + value);
        assert(rest[0] == ':');
        assert(rest.skip(1) =~= " "@ + value + none) by {
            reveal_strlit(" ");
        }
        reveal_strlit(" ");
        trimming_takes_the_space_around(" "@, value, none);
    }
}

/// Without its name and a colon there is no field.
pub proof fn fields_need_their_name(line: Seq<char>, name: Seq<char>)
    ensures
        field_in(line, name) matches Some(value) ==> exists|rest: Seq<char>|
            (trimmed(line) == #[trigger] (name + ":"@ + rest) || trimmed(line) == "- "@ + (name + ":"@ + rest)) && value
                == trimmed(rest),
{
    if field_in(line, name) is Some {
        reveal_strlit("- ");
        reveal_strlit(":");
        let text = trimmed(line);
        let entry = if "- "@.is_prefix_of(text) {
            text.skip(2)
        } else {
            text
        };
        let rest = entry.skip(name.len() as int).skip(1);
        assert(entry =~= name + ":"@ + rest);
        if "- "@.is_prefix_of(text) {
            assert(text =~= "- "@ + (name + ":"@ + rest));
        }
    }
}

/// The text of a line of a document.
pub open spec fn line_text(chars: Seq<char>, at: int) -> Seq<char> {
    lines_of(chars)[at].text(chars)
}

proof fn title_is_placed(chars: Seq<char>, from: int, at: int)
    requires
        0 <= from <= at < lines_of(chars).len(),
        "# "@.is_prefix_of(trimmed_start(line_text(chars, at))),
        forall|i: int| from <= i < at ==> !"# "@.is_prefix_of(trimmed_start(#[trigger] line_text(chars, i))),
    ensures
        title_place(chars, lines_of(chars), from) == at,
    decreases at - from,
{
    if from < at {
        assert(!"# "@.is_prefix_of(trimmed_start(line_text(chars, from))));
        title_is_placed(chars, from + 1, at);
    }
}

/// The first heading of the first level is the title, and its line is where the title stands.
pub proof fn first_headings_are_titles(chars: Seq<char>, at: int, title: Seq<char>)
    requires
        0 <= at < lines_of(chars).len(),
        title.len() > 0,
        is_tight(title),
        !"# "@.is_prefix_of(title),
        line_text(chars, at) == "# "@ + title,
        forall|i: int| 0 <= i < at ==> !"# "@.is_prefix_of(trimmed_start(#[trigger] line_text(chars, i))),
    ensures
        parsed(chars).structure.title == Some(title),
        parsed(chars).structure.title_span is Some,
        parsed(chars).structure.title_span->0.start.line == Some(lines_of(chars)[at].number),
        parsed(chars).structure.title_span->0.end.line == Some(lines_of(chars)[at].number),
{
    let line = "# "@ + title;
    reveal_strlit("# ");
    assert(line[0] == '#' && line.last() == title.last());
    tight_texts_stay(line);
    assert("# "@.is_prefix_of(line)) by {
        assert(line.take(2) =~= "# "@);
    }
    title_is_placed(chars, 0, at);
    assert(line.skip(2) =~= title);
    assert(without_marks(title) == title) by {
        if title.len() >= 2 && title[0] == '#' && title[1] == ' ' {
            assert(title.take(2) =~= "# "@);
        }
    }
    assert(without_marks(line) == title) by {
        assert(line[1] == ' ');
        assert(without_marks(line) == without_marks(line.skip(2)));
    }
    tight_texts_stay(title);
}

proof fn no_title_is_placed(chars: Seq<char>, from: int)
    requires
        0 <= from <= lines_of(chars).len(),
        forall|i: int|
            from <= i < lines_of(chars).len() ==> !"# "@.is_prefix_of(trimmed_start(#[trigger] line_text(chars, i))),
    ensures
        title_place(chars, lines_of(chars), from) == lines_of(chars).len(),
    decreases lines_of(chars).len() - from,
{
    if from < lines_of(chars).len() {
        assert(!"# "@.is_prefix_of(trimmed_start(line_text(chars, from))));
        no_title_is_placed(chars, from + 1);
    }
}

/// Without a heading of the first level there is no title.
pub proof fn without_headings_there_is_no_title(chars: Seq<char>)
    requires
        forall|i: int|
            0 <= i < lines_of(chars).len() ==> !"# "@.is_prefix_of(trimmed_start(#[trigger] line_text(chars, i))),
    ensures
        parsed(chars).structure.title is None,
        parsed(chars).structure.title_span is None,
{
    no_title_is_placed(chars, 0);
}

proof fn id_is_placed(chars: Seq<char>, from: int, at: int, end: int)
    requires
        0 <= from <= at < end <= lines_of(chars).len(),
        field_in(line_text(chars, at), "ID"@) is Some,
        forall|i: int| from <= i < at ==> field_in(#[trigger] line_text(chars, i), "ID"@) is None,
    ensures
        id_between(chars, lines_of(chars), from, end) == field_in(line_text(chars, at), "ID"@),
    decreases at - from,
{
    if from < at {
        assert(field_in(line_text(chars, from), "ID"@) is None);
        id_is_placed(chars, from + 1, at, end);
    }
}

proof fn header_is_placed(chars: Seq<char>, from: int, end: int)
    requires
        0 <= from <= end <= lines_of(chars).len(),
        forall|i: int| from <= i < end ==> header_in(#[trigger] line_text(chars, i)) is None,
    ensures
        end <= header_place(chars, lines_of(chars), from),
        end < lines_of(chars).len() && header_in(line_text(chars, end)) is Some ==> header_place(
            chars,
            lines_of(chars),
            from,
        ) == end,
        end == lines_of(chars).len() ==> header_place(chars, lines_of(chars), from) == end,
    decreases end - from,
{
    if from < end {
        assert(header_in(line_text(chars, from)) is None);
        header_is_placed(chars, from + 1, end);
    } else {
        header_place_is_behind(chars, from);
    }
}

proof fn header_place_is_behind(chars: Seq<char>, from: int)
    ensures
        from <= header_place(chars, lines_of(chars), from),
    decreases lines_of(chars).len() - from,
{
    if from < lines_of(chars).len() && header_in(lines_of(chars)[from].text(chars)) is None {
        header_place_is_behind(chars, from + 1);
    }
}

proof fn milestones_hold(chars: Seq<char>, count: int, at: int)
    requires
        0 <= at < count <= lines_of(chars).len(),
        milestone_at(chars, lines_of(chars), at) is Some,
    ensures
        milestones_of(chars, lines_of(chars), count).contains(milestone_at(chars, lines_of(chars), at)->0),
    decreases count,
{
    let lines = lines_of(chars);
    let rest = milestones_of(chars, lines, count - 1);
    if at < count - 1 {
        milestones_hold(chars, count - 1, at);
    }
    if let Some(milestone) = milestone_at(chars, lines, count - 1) {
        push_holds(rest, milestone, milestone_at(chars, lines, at)->0);
    }
}

/// A header with an id below it, before the next header, is a milestone with that id, with the title
/// and the mark of the header, at the line of the header.
pub proof fn milestones_are_read(chars: Seq<char>, at: int, below: int)
    requires
        0 <= at < below < lines_of(chars).len(),
        header_in(line_text(chars, at)) is Some,
        field_in(line_text(chars, below), "ID"@) is Some,
        field_in(line_text(chars, below), "ID"@)->0.len() > 0,
        forall|i: int|
            at < i < below ==> header_in(#[trigger] line_text(chars, i)) is None && field_in(
                line_text(chars, i),
                "ID"@,
            ) is None,
        header_in(line_text(chars, below)) is None,
    ensures
        exists|i: int|
            0 <= i < parsed(chars).structure.milestones.len() && {
                let milestone = #[trigger] parsed(chars).structure.milestones[i];
                let header = header_in(line_text(chars, at))->0;
                &&& milestone.id == field_in(line_text(chars, below), "ID"@)->0
                &&& milestone.completed == header.0
                &&& milestone.title == header.1
                &&& milestone.span.start.line == Some(lines_of(chars)[at].number)
                &&& milestone.span.end.line == Some(lines_of(chars)[at].number)
            },
{
    let lines = lines_of(chars);
    header_is_placed(chars, at + 1, below + 1);
    let end = header_place(chars, lines, at + 1);
    header_place_is_in(chars, at + 1);
    id_is_placed(chars, at + 1, below, end);
    let milestone = milestone_at(chars, lines, at)->0;
    milestones_hold(chars, lines.len() as int, at);
    let milestones = parsed(chars).structure.milestones;
    let i = choose|i: int| 0 <= i < milestones.len() && milestones[i] == milestone;
    let header = header_in(line_text(chars, at))->0;
    assert(milestones[i].title == header.1);
}

proof fn header_place_is_in(chars: Seq<char>, from: int)
    requires
        from <= lines_of(chars).len(),
    ensures
        header_place(chars, lines_of(chars), from) <= lines_of(chars).len(),
    decreases lines_of(chars).len() - from,
{
    if from < lines_of(chars).len() && header_in(lines_of(chars)[from].text(chars)) is None {
        header_place_is_in(chars, from + 1);
    }
}

proof fn milestones_come_from_headers(chars: Seq<char>, count: int, i: int)
    requires
        0 <= count <= lines_of(chars).len(),
        0 <= i < milestones_of(chars, lines_of(chars), count).len(),
    ensures
        exists|at: int|
            0 <= at < count && #[trigger] milestone_at(chars, lines_of(chars), at) == Some(
                milestones_of(chars, lines_of(chars), count)[i],
            ),
    decreases count,
{
    let lines = lines_of(chars);
    let rest = milestones_of(chars, lines, count - 1);
    if i < rest.len() {
        milestones_come_from_headers(chars, count - 1, i);
        let at = choose|at: int|
            0 <= at < count - 1 && #[trigger] milestone_at(chars, lines, at) == Some(rest[i]);
        assert(milestone_at(chars, lines, at) == Some(milestones_of(chars, lines, count)[i]));
    } else {
        assert(milestone_at(chars, lines, count - 1) == Some(milestones_of(chars, lines, count)[i]));
    }
}

/// Every milestone has an id that is not empty, and the title and the mark of a header in the document.
pub proof fn milestones_have_a_header_and_an_id(chars: Seq<char>, i: int)
    requires
        0 <= i < parsed(chars).structure.milestones.len(),
    ensures
        parsed(chars).structure.milestones[i].id.len() > 0,
        exists|at: int|
            0 <= at < lines_of(chars).len() && header_in(#[trigger] line_text(chars, at)) == Some(
                (
                    parsed(chars).structure.milestones[i].completed,
                    parsed(chars).structure.milestones[i].title,
                ),
            ),
{
    let lines = lines_of(chars);
    milestones_come_from_headers(chars, lines.len() as int, i);
    let milestone = parsed(chars).structure.milestones[i];
    let at = choose|at: int| 0 <= at < lines.len() && #[trigger] milestone_at(chars, lines, at) == Some(milestone);
    assert(header_in(line_text(chars, at)) == Some((milestone.completed, milestone.title)));
}

/// Whether a line begins a part of a document: a heading of the second level.
pub open spec fn begins_part(line: Seq<char>) -> bool {
    "## "@.is_prefix_of(trimmed_start(line))
}

proof fn outcome_is_placed(chars: Seq<char>, from: int, start: int)
    requires
        0 <= from <= start < lines_of(chars).len(),
        trimmed_end(line_text(chars, start)) == "## Outcome"@,
        forall|i: int| from <= i < start ==> trimmed_end(#[trigger] line_text(chars, i)) != "## Outcome"@,
    ensures
        outcome_place(chars, lines_of(chars), from) == start,
    decreases start - from,
{
    if from < start {
        assert(trimmed_end(line_text(chars, from)) != "## Outcome"@);
        outcome_is_placed(chars, from + 1, start);
    }
}

proof fn part_is_placed(chars: Seq<char>, from: int, end: int)
    requires
        0 <= from <= end <= lines_of(chars).len(),
        end == lines_of(chars).len() || begins_part(line_text(chars, end)),
        forall|i: int| from <= i < end ==> !begins_part(#[trigger] line_text(chars, i)),
    ensures
        part_place(chars, lines_of(chars), from) == end,
    decreases end - from,
{
    if from < end {
        assert(!begins_part(line_text(chars, from)));
        part_is_placed(chars, from + 1, end);
    }
}

proof fn section_is_placed(chars: Seq<char>, from: int, stop: int, end: int)
    requires
        0 <= from <= stop <= end <= lines_of(chars).len(),
        stop == end || section_in(line_text(chars, stop)) is Some,
        forall|i: int| from <= i < stop ==> section_in(#[trigger] line_text(chars, i)) is None,
    ensures
        section_place(chars, lines_of(chars), from, end) == stop,
    decreases stop - from,
{
    if from < stop {
        assert(section_in(line_text(chars, from)) is None);
        section_is_placed(chars, from + 1, stop, end);
    }
}

proof fn sections_hold(chars: Seq<char>, from: int, upto: int, end: int, at: int)
    requires
        from <= at < upto,
        section_at(chars, lines_of(chars), at, end) is Some,
    ensures
        sections_between(chars, lines_of(chars), from, upto, end).contains(
            section_at(chars, lines_of(chars), at, end)->0,
        ),
    decreases upto - from,
{
    let lines = lines_of(chars);
    let rest = sections_between(chars, lines, from, upto - 1, end);
    if at < upto - 1 {
        sections_hold(chars, from, upto - 1, end, at);
    }
    if let Some(section) = section_at(chars, lines, upto - 1, end) {
        push_holds(rest, section, section_at(chars, lines, at, end)->0);
    }
}

/// The outcome of a document is what stands below the first line that says so, up to the next heading
/// of the second level or to the end of the document; there is one where that is not blank.
pub proof fn outcomes_are_read(chars: Seq<char>, start: int, end: int)
    requires
        0 <= start < end <= lines_of(chars).len(),
        trimmed_end(line_text(chars, start)) == "## Outcome"@,
        forall|i: int| 0 <= i < start ==> trimmed_end(#[trigger] line_text(chars, i)) != "## Outcome"@,
        end == lines_of(chars).len() || begins_part(line_text(chars, end)),
        forall|i: int| start < i < end ==> !begins_part(#[trigger] line_text(chars, i)),
    ensures
        start + 1 == end ==> parsed(chars).outcome is None,
        start + 1 < end ==> {
            let text = trimmed(chars.subrange(lines_of(chars)[start + 1].from, lines_of(chars)[end - 1].to));
            &&& parsed(chars).outcome is Some == (text.len() > 0)
            &&& text.len() > 0 ==> parsed(chars).outcome->0.text == text
                && parsed(chars).outcome->0.span.start.line == Some(lines_of(chars)[start + 1].number)
                && parsed(chars).outcome->0.span.end.line == Some(lines_of(chars)[end - 1].number)
        },
{
    outcome_is_placed(chars, 0, start);
    part_is_placed(chars, start + 1, end);
    if start + 1 == end {
        assert(text_between(chars, lines_of(chars), start + 1, end) =~= Seq::empty());
        tight_texts_stay(Seq::empty());
    }
}

/// A document without such a line has no outcome.
pub proof fn documents_without_the_heading_have_no_outcome(chars: Seq<char>)
    requires
        forall|i: int|
            0 <= i < lines_of(chars).len() ==> trimmed_end(#[trigger] line_text(chars, i)) != "## Outcome"@,
    ensures
        parsed(chars).outcome is None,
{
    no_outcome_is_placed(chars, 0);
}

proof fn no_outcome_is_placed(chars: Seq<char>, from: int)
    requires
        0 <= from <= lines_of(chars).len(),
        forall|i: int|
            from <= i < lines_of(chars).len() ==> trimmed_end(#[trigger] line_text(chars, i)) != "## Outcome"@,
    ensures
        outcome_place(chars, lines_of(chars), from) == lines_of(chars).len(),
    decreases lines_of(chars).len() - from,
{
    if from < lines_of(chars).len() {
        assert(trimmed_end(line_text(chars, from)) != "## Outcome"@);
        no_outcome_is_placed(chars, from + 1);
    }
}

/// Below a heading that says what it is about, a section of that kind stands in the outcome, up to the
/// next such heading or to the end of the outcome, with the text between them.
pub proof fn sections_are_read(
    chars: Seq<char>,
    start: int,
    at: int,
    stop: int,
    end: int,
    heading: Seq<char>,
    kind: OutcomeSectionKind,
)
    requires
        0 <= start < at,
        at + 1 < stop <= end <= lines_of(chars).len(),
        trimmed_end(line_text(chars, start)) == "## Outcome"@,
        forall|i: int| 0 <= i < start ==> trimmed_end(#[trigger] line_text(chars, i)) != "## Outcome"@,
        end == lines_of(chars).len() || begins_part(line_text(chars, end)),
        forall|i: int| start < i < end ==> !begins_part(#[trigger] line_text(chars, i)),
        line_text(chars, at) == "### "@ + heading,
        is_tight(heading),
        is_heading_of(heading, kind),
        stop == end || section_in(line_text(chars, stop)) is Some,
        forall|i: int| at < i < stop ==> section_in(#[trigger] line_text(chars, i)) is None,
        trimmed(chars.subrange(lines_of(chars)[at + 1].from, lines_of(chars)[stop - 1].to)).len() > 0,
        parsed(chars).outcome is Some,
    ensures
        exists|i: int|
            0 <= i < parsed(chars).outcome->0.sections.len() && {
                let section = #[trigger] parsed(chars).outcome->0.sections[i];
                &&& section.kind == kind
                &&& section.text == trimmed(
                    chars.subrange(lines_of(chars)[at + 1].from, lines_of(chars)[stop - 1].to),
                )
                &&& section.span.start.line == Some(lines_of(chars)[at + 1].number)
                &&& section.span.end.line == Some(lines_of(chars)[stop - 1].number)
            },
{
    let lines = lines_of(chars);
    outcome_is_placed(chars, 0, start);
    part_is_placed(chars, start + 1, end);
    headings_give_their_kind(heading, kind);
    section_is_placed(chars, at + 1, stop, end);
    sections_hold(chars, start + 1, end, end, at);
    let section = section_at(chars, lines, at, end)->0;
    let sections = parsed(chars).outcome->0.sections;
    let i = choose|i: int| 0 <= i < sections.len() && sections[i] == section;
    assert(sections[i].kind == kind);
}

/// Lines are numbered from one on.
pub proof fn lines_are_numbered(chars: Seq<char>, i: int)
    requires
        0 <= i < lines_of(chars).len(),
        i < u32::MAX,
    ensures
        lines_of(chars)[i].number == i + 1,
{
    if chars.len() > 0 {
        lines_from_are_numbered(chars, 0, 1, i);
    }
}

proof fn lines_from_are_numbered(chars: Seq<char>, from: int, number: u32, i: int)
    requires
        0 <= from <= chars.len(),
        0 <= i < lines_from(chars, from, number).len(),
        number + i <= u32::MAX,
    ensures
        lines_from(chars, from, number)[i].number == number + i,
    decreases i,
{
    if i > 0 {
        lines_stand_in_order(chars, from, number);
        let lines = lines_from(chars, from, number);
        let next = line_end(chars, from);
        assert(lines[0].to == next);
        assert(lines[i] == lines_from(chars, next, next_number(number))[i - 1]);
        lines_from_are_numbered(chars, next, next_number(number), i - 1);
    }
}

/// A line stands between two line ends, and its text is what stands there without the line end.
pub proof fn lines_are_what_stands_between_line_ends(before: Seq<char>, line: Seq<char>, behind: Seq<char>) -> (i: int)
    requires
        before.len() == 0 || before.last() == '\n',
        forall|k: int| 0 <= k < line.len() ==> #[trigger] line[k] != '\n' && line[k] != '\r',
    ensures
        ({
            let chars = before + line.push('\n') + behind;
            &&& 0 <= i < lines_of(chars).len()
            &&& lines_of(chars)[i].from == before.len()
            &&& lines_of(chars)[i].to == before.len() + line.len() + 1
            &&& line_text(chars, i) == line
        }),
{
    let chars = before + line.push('\n') + behind;
    let i = line_starts(chars, 0, 1, before.len() as int);
    let end: int = (before.len() + line.len()) as int;
    assert(chars[end] == '\n');
    assert forall|k: int| before.len() <= k < before.len() + line.len() implies #[trigger] chars[k] != '\n' by {
        assert(chars[k] == line[k - before.len()]);
    }
    line_ends_at(chars, before.len() as int, end);
    assert(chars.subrange(before.len() as int, end + 1) =~= line.push('\n'));
    assert(line.push('\n').drop_last() =~= line);
    assert(without_line_end(line) == line) by {
        if line.len() > 0 {
            assert(line[line.len() - 1] != '\n' && line[line.len() - 1] != '\r');
        }
    }
    assert(without_line_end(line.push('\n')) == line);
    i
}

proof fn line_ends_at(chars: Seq<char>, from: int, end: int)
    requires
        0 <= from <= end < chars.len(),
        chars[end] == '\n',
        forall|k: int| from <= k < end ==> #[trigger] chars[k] != '\n',
    ensures
        line_end(chars, from) == end + 1,
    decreases end - from,
{
    if from < end {
        line_ends_at(chars, from + 1, end);
    }
}

proof fn line_end_is_first(chars: Seq<char>, from: int, place: int)
    requires
        0 <= from < place < chars.len(),
        chars[place - 1] == '\n',
    ensures
        from < line_end(chars, from) <= place,
        chars[line_end(chars, from) - 1] == '\n',
    decreases place - from,
{
    if chars[from] != '\n' {
        line_end_is_first(chars, from + 1, place);
    }
}

proof fn line_starts(chars: Seq<char>, from: int, number: u32, place: int) -> (i: int)
    requires
        0 <= from <= place < chars.len(),
        place == from || chars[place - 1] == '\n',
    ensures
        0 <= i < lines_from(chars, from, number).len(),
        lines_from(chars, from, number)[i].from == place,
        lines_from(chars, from, number)[i].to == line_end(chars, place),
    decreases place - from,
{
    if from == place {
        0
    } else {
        line_end_is_first(chars, from, place);
        let next = line_end(chars, from);
        let i = line_starts(chars, next, next_number(number), place);
        lines_stand_in_order(chars, from, number);
        assert(lines_from(chars, from, number)[i + 1] == lines_from(chars, next, next_number(number))[i]);
        i + 1
    }
}

}
