//! What holds of the grammar, whatever the line.

use crate::command::{outcome, Command, CommandView, Error, ErrorView};
use crate::grammar::{
    comma, event_of_fields, event_of_line, event_of_payload, fields_of, joined, line_of,
    separator, well_typed,
};
use crate::kind::Kind;
use crate::text::{
    first_occurrence_at, is_space, lemma_split_at_first, lemma_split_iff_occurs,
    lemma_trimmed_end_behind, lemma_trimmed_keeps_occurrences, lemma_trimmed_twice, occurs_at,
    occurs_in, split_at_first, trimmed, trimmed_end,
};
use vstd::prelude::*;

verus! {

/// A payload that is joined from fields splits into those fields again,
/// provided that no field but the last holds a comma.
pub proof fn joined_fields_split_back(fields: Seq<Seq<char>>)
    requires
        fields.len() >= 1,
        forall|i: int| 0 <= i < fields.len() - 1 ==> !(#[trigger] fields[i]).contains(','),
    ensures
        fields_of(joined(fields), fields.len()) == Some(fields),
    decreases fields.len(),
{
    if fields.len() == 1 {
        assert(seq![fields[0]] =~= fields);
    } else {
        let head = fields[0];
        let rest = fields.drop_first();
        let text = joined(fields);
        let at: int = head.len() as int;
        reveal_strlit(",");
        assert(comma() =~= seq![',']);
        assert(first_occurrence_at(text, comma(), at)) by {
            assert(text.subrange(at, at + 1) =~= comma());
            assert forall|earlier: int| 0 <= earlier < head.len() implies !occurs_at(
                text,
                comma(),
                earlier,
            ) by {
                if occurs_at(text, comma(), earlier) {
                    assert(text.subrange(earlier, earlier + 1)[0] == ',');
                    assert(head[earlier] == ',');
                }
            }
        }
        lemma_split_at_first(text, comma(), at);
        assert(text.take(at) =~= head);
        assert(text.skip(at + 1) =~= joined(rest));
        assert forall|i: int| 0 <= i < rest.len() - 1 implies !(#[trigger] rest[i]).contains(
            ',',
        ) by {
            assert(rest[i] == fields[i + 1]);
        }
        joined_fields_split_back(rest);
        assert(seq![head] + rest =~= fields);
    }
}

/// Trimming a written line trims the end of its payload and nothing else,
/// provided that the keyword does not start with white space.
proof fn lemma_trimmed_line(keyword: Seq<char>, payload: Seq<char>)
    requires
        keyword.len() > 0 ==> !is_space(keyword.first()),
    ensures
        trimmed(line_of(keyword, payload)) == line_of(keyword, trimmed_end(payload)),
{
    let front = keyword + separator();
    reveal_strlit(">>");
    assert(separator() =~= seq!['>', '>']);
    assert(!is_space('>'));
    assert(front.last() == '>');
    assert(front.first() == if keyword.len() > 0 {
        keyword.first()
    } else {
        '>'
    });
    assert((front + payload).first() == front.first());
    lemma_trimmed_end_behind(front, payload);
}

/// The first separator of a written line is the one behind its keyword,
/// provided that the keyword holds no `>`.
proof fn lemma_separator_of_line(keyword: Seq<char>, payload: Seq<char>)
    requires
        !keyword.contains('>'),
    ensures
        first_occurrence_at(line_of(keyword, payload), separator(), keyword.len() as int),
{
    let line = line_of(keyword, payload);
    let at: int = keyword.len() as int;
    reveal_strlit(">>");
    assert(separator() =~= seq!['>', '>']);
    assert(line.subrange(at, at + 2) =~= separator());
    assert forall|earlier: int| 0 <= earlier < at implies !occurs_at(
        line,
        separator(),
        earlier,
    ) by {
        if occurs_at(line, separator(), earlier) {
            assert(line.subrange(earlier, earlier + 2)[0] == '>');
            assert(line[earlier] == keyword[earlier]);
        }
    }
}

/// A written line falls into its keyword and its payload around the
/// separator behind the keyword.
proof fn lemma_parts_of_line(keyword: Seq<char>, payload: Seq<char>)
    ensures
        line_of(keyword, payload).take(keyword.len() as int) == keyword,
        line_of(keyword, payload).skip((keyword.len() + separator().len()) as int) == payload,
{
    let line = line_of(keyword, payload);
    assert(line.take(keyword.len() as int) =~= keyword);
    assert(line.skip((keyword.len() + separator().len()) as int) =~= payload);
}

/// A line that is written as keyword, separator and payload reads back as
/// that keyword and that payload, less the white space at its end, provided
/// that the keyword holds no `>` and does not start with white space.
pub proof fn written_line_splits_back(keyword: Seq<char>, payload: Seq<char>)
    requires
        !keyword.contains('>'),
        keyword.len() > 0 ==> !is_space(keyword.first()),
    ensures
        split_at_first(trimmed(line_of(keyword, payload)), separator()) == Some(
            (keyword, trimmed_end(payload)),
        ),
{
    let kept = trimmed_end(payload);
    lemma_trimmed_line(keyword, payload);
    lemma_separator_of_line(keyword, kept);
    lemma_split_at_first(line_of(keyword, kept), separator(), keyword.len() as int);
    lemma_parts_of_line(keyword, kept);
}

/// For every keyword and every payload, the line of the two parses as the
/// payload does under the kind of the keyword, less the white space at the
/// end of the payload.
pub proof fn line_parses_as_its_payload(kind: Kind, payload: Seq<char>)
    ensures
        event_of_line(line_of(kind.keyword(), payload)) == event_of_payload(
            kind,
            trimmed_end(payload),
        ),
{
    kind.lemma_keyword_is_lower_case();
    kind.lemma_keyword_names_kind();
    assert(!kind.keyword().contains('>')) by {
        if kind.keyword().contains('>') {
            let i: int = choose|i: int|
                0 <= i < kind.keyword().len() && kind.keyword()[i] == '>';
            assert('a' <= kind.keyword()[i]);
        }
    }
    written_line_splits_back(kind.keyword(), payload);
}

/// The fields of a payload are read if and only if each holds what the kind
/// wants in its place, and what is read is an event of that kind.
pub proof fn fields_are_read_iff_well_typed(kind: Kind, fields: Seq<Seq<char>>)
    ensures
        event_of_fields(kind, fields) is Ok <==> well_typed(kind, fields),
        event_of_fields(kind, fields) matches Ok(event) ==> event.kind() == kind,
{
}

/// For every keyword, a payload that has the fields of its kind, each of the
/// type that the kind wants, parses to the event of that kind with the fields
/// in wire order.
///
/// The payload may not end with white space: a line is trimmed before it is
/// read, so such a payload would lose its end.
pub proof fn well_formed_line_parses(kind: Kind, payload: Seq<char>)
    requires
        fields_of(payload, kind.arity()) matches Some(fields) && well_typed(kind, fields),
        payload.len() > 0 ==> !is_space(payload.last()),
    ensures
        event_of_line(line_of(kind.keyword(), payload)) == event_of_fields(
            kind,
            fields_of(payload, kind.arity())->0,
        ),
        event_of_line(line_of(kind.keyword(), payload)) matches Ok(event) && event.kind() == kind,
{
    line_parses_as_its_payload(kind, payload);
    fields_are_read_iff_well_typed(kind, fields_of(payload, kind.arity())->0);
}

/// An event that is written as a line reads back: the keyword of a kind,
/// the separator, and well-typed fields joined by commas parse to the event
/// of that kind with those fields.
///
/// No field but the last may hold a comma, since the first commas divide the
/// fields, and the last field may not end with white space, since a line is
/// trimmed before it is read.
pub proof fn written_event_reads_back(kind: Kind, fields: Seq<Seq<char>>)
    requires
        fields.len() == kind.arity(),
        well_typed(kind, fields),
        forall|i: int| 0 <= i < fields.len() - 1 ==> !(#[trigger] fields[i]).contains(','),
        fields.last().len() > 0 ==> !is_space(fields.last().last()),
    ensures
        event_of_line(line_of(kind.keyword(), joined(fields))) == event_of_fields(kind, fields),
        event_of_fields(kind, fields) matches Ok(event) && event.kind() == kind,
{
    lemma_joined_ends_as_last_field(fields);
    joined_fields_split_back(fields);
    well_formed_line_parses(kind, joined(fields));
}

/// A joined payload that is not empty ends with the last character of the
/// last field, or with a comma where the last field is empty.
proof fn lemma_joined_ends_as_last_field(fields: Seq<Seq<char>>)
    requires
        fields.len() >= 1,
    ensures
        joined(fields).len() > 0 ==> joined(fields).last() == if fields.last().len() > 0 {
            fields.last().last()
        } else {
            ','
        },
        fields.len() == 1 ==> joined(fields) == fields[0],
    decreases fields.len(),
{
    if fields.len() > 1 {
        let rest = fields.drop_first();
        reveal_strlit(",");
        assert(comma() =~= seq![',']);
        lemma_joined_ends_as_last_field(rest);
        assert(rest.last() == fields.last());
        let text = joined(fields);
        if joined(rest).len() > 0 {
            assert(text.last() == joined(rest).last());
        } else {
            assert(text.last() == ',');
            assert(rest.len() == 1);
        }
    }
}

/// A line whose keyword names no kind is refused for that. The keyword of a
/// line is what stands before the first separator of the trimmed line.
pub proof fn unknown_keyword_is_refused(line: Seq<char>, keyword: Seq<char>, payload: Seq<char>)
    requires
        split_at_first(trimmed(line), separator()) == Some((keyword, payload)),
        Kind::of_keyword(keyword) is None,
    ensures
        event_of_line(line) == Err::<CommandView, ErrorView>(ErrorView::UnknownEventKind(keyword)),
{
}

/// A line that is written with a keyword that names no kind is refused for
/// that, whatever its payload, provided that the keyword holds no `>` and
/// does not start with white space.
pub proof fn written_unknown_keyword_is_refused(keyword: Seq<char>, payload: Seq<char>)
    requires
        Kind::of_keyword(keyword) is None,
        !keyword.contains('>'),
        keyword.len() > 0 ==> !is_space(keyword.first()),
    ensures
        event_of_line(line_of(keyword, payload)) == Err::<CommandView, ErrorView>(
            ErrorView::UnknownEventKind(keyword),
        ),
{
    written_line_splits_back(keyword, payload);
}

/// A line is malformed if and only if it has no separator. The empty line
/// is one of these.
pub proof fn line_is_malformed_iff_without_separator(line: Seq<char>)
    ensures
        event_of_line(line) == Err::<CommandView, ErrorView>(ErrorView::MalformedLine)
            <==> !occurs_in(line, separator()),
{
    reveal_strlit(">>");
    assert(separator() =~= seq!['>', '>']);
    lemma_trimmed_keeps_occurrences(line, separator());
    lemma_split_iff_occurs(trimmed(line), separator());
}

/// White space around a line does not count: the trimmed line parses as the
/// line does.
pub proof fn trimming_changes_nothing(line: Seq<char>)
    ensures
        event_of_line(trimmed(line)) == event_of_line(line),
{
    lemma_trimmed_twice(line);
}

/// Parsing is a function of the line: two results for one line stand for the
/// same event, or for the same reason.
pub proof fn parsing_is_deterministic(
    line: Seq<char>,
    first: Result<Command, Error>,
    second: Result<Command, Error>,
)
    requires
        outcome(first) == event_of_line(line),
        outcome(second) == event_of_line(line),
    ensures
        outcome(first) == outcome(second),
{
}

} // verus!
