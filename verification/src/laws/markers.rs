//! Laws of the marker: a marker that is written is read back as it was, and
//! what is not a marker is not read as one.

use vstd::prelude::*;

use crate::decimal;
use crate::labels;
use crate::laws::trimming;
use crate::marker;
use crate::scope;
use crate::scope::Leader;
use crate::text;

verus! {

/// What stands between the brackets of a marker gives back its type and span.
pub proof fn law_label_reads_back(type_label: Seq<char>, span_rows: u32)
    requires
        labels::is_usable(type_label),
    ensures
        marker::type_and_span(marker::label_body(type_label, span_rows)) == Some(
            (type_label, span_rows),
        ),
{
    let body = marker::label_body(type_label, span_rows);
    let mark = seq![':', '+'];
    assert forall|at: int| #[trigger] text::occurs_at(body, mark, at) implies type_label.len()
        <= at by {
        assert(body.subrange(at, at + 2)[0] == ':');
        assert(body[at] == ':');
        if at < type_label.len() {
            assert(body[at] == type_label[at]);
            assert(labels::is_label_char(type_label[at]));
        }
    }
    if span_rows == 0 {
        if text::contains_text(body, mark) {
            let at = choose|at: int| text::occurs_at(body, mark, at);
            assert(type_label.len() <= at);
        }
        text::lemma_split_at_none(body, mark);
    } else {
        let digits = decimal::decimal_text(span_rows as nat);
        let at = type_label.len() as int;
        assert(body.subrange(at, at + 2) =~= mark);
        assert(text::first_at(body, mark, at));
        text::lemma_split_at_first(body, mark, at);
        assert(body.take(at) =~= type_label);
        assert(body.skip(at + 2) =~= digits);
        decimal::lemma_decimal_round_trip(span_rows as nat);
    }
}

proof fn lemma_body_holds_no_bracket(type_label: Seq<char>, span_rows: u32)
    requires
        labels::is_usable(type_label),
    ensures
        forall|i: int|
            0 <= i < marker::label_body(type_label, span_rows).len()
                ==> #[trigger] marker::label_body(type_label, span_rows)[i] != ']',
{
    let body = marker::label_body(type_label, span_rows);
    let digits = decimal::decimal_text(span_rows as nat);
    decimal::lemma_decimal_round_trip(span_rows as nat);
    assert forall|i: int| 0 <= i < body.len() implies #[trigger] body[i] != ']' by {
        if i < type_label.len() {
            assert(labels::is_label_char(type_label[i]));
        } else if i >= type_label.len() + 2 {
            assert(decimal::is_digit(digits[i - type_label.len() - 2]));
        }
    }
}

/// Reads the marker in commented text that starts with its label.
proof fn lemma_bracketed(
    type_label: Seq<char>,
    span_rows: u32,
    tail: Seq<char>,
    kind: Leader,
    leader: Seq<char>,
    syntax: Option<scope::ScopeView>,
    types: Seq<Seq<char>>,
)
    requires
        labels::is_usable(type_label),
        types.contains(type_label),
        tail.len() > 0 && text::is_white_space(tail[0]),
    ensures
        marker::bracketed(
            marker::label_text(type_label, span_rows) + tail,
            kind,
            leader,
            syntax,
            types,
        ) == (match marker::marker_text(tail, kind, syntax) {
            Some(text) => Some(marker::AnnotationView { type_label, span_rows, text, leader }),
            None => None,
        }),
{
    let body = marker::label_body(type_label, span_rows);
    let rest = marker::label_text(type_label, span_rows) + tail;
    let inner = rest.skip(1);
    assert(rest.subrange(0, 1) =~= seq!['[']);
    assert(text::after_prefix(rest, seq!['[']) == Some(inner));
    assert(inner =~= body + seq![']'] + tail);
    let at = body.len() as int;
    let close = seq![']'];
    assert(inner.subrange(at, at + 1) =~= close);
    lemma_body_holds_no_bracket(type_label, span_rows);
    assert forall|other: int| #[trigger] text::occurs_at(inner, close, other) implies at <= other by {
        assert(inner.subrange(other, other + 1)[0] == ']');
        assert(inner[other] == ']');
        if other < at {
            assert(inner[other] == body[other]);
        }
    }
    assert(text::first_at(inner, close, at));
    text::lemma_split_at_first(inner, close, at);
    assert(inner.take(at) =~= body);
    assert(inner.skip(at + 1) =~= tail);
    law_label_reads_back(type_label, span_rows);
}

/// No prefix of the language reaches past `leader` into what follows it.
pub open spec fn longest_leader(
    syntax: scope::ScopeView,
    leader: Seq<char>,
    body: Seq<char>,
) -> bool {
    forall|i: int|
        0 <= i < syntax.prefixes.len() && text::starts_with(
            leader + body,
            #[trigger] syntax.prefixes[i],
        ) ==> syntax.prefixes[i].len() <= leader.len()
}

/// A marker written as a line comment is read back with its type, its span, its
/// text and its leader. The leader has to be one of the language, must not
/// start with white space, and no longer leader of the language may fit.
pub proof fn law_line_marker_reads_back(
    indent: Seq<char>,
    leader: Seq<char>,
    type_label: Seq<char>,
    span_rows: u32,
    text: Seq<char>,
    syntax: scope::ScopeView,
    types: Seq<Seq<char>>,
)
    requires
        trimming::blank(indent),
        syntax.prefixes.contains(leader),
        text::trimmed_start(leader) == leader,
        longest_leader(
            syntax,
            leader,
            marker::label_text(type_label, span_rows) + seq![' '] + text,
        ),
        labels::is_usable(type_label),
        types.contains(type_label),
        text::trimmed(text) == text,
    ensures
        marker::parsed(
            marker::line_row(indent, leader, marker::label_text(type_label, span_rows), text),
            Some(syntax),
            types,
        ) == Some(marker::AnnotationView { type_label, span_rows, text, leader }),
{
    let label = marker::label_text(type_label, span_rows);
    let tail = seq![' '] + text;
    let body = label + tail;
    let content = leader + body;
    let row = marker::line_row(indent, leader, label, text);
    assert(row =~= indent + content);
    assert(body =~= label + seq![' '] + text);
    trimming::lemma_start_unchanged(leader);
    assert(content[0] == (if leader.len() > 0 {
        leader[0]
    } else {
        '['
    }));
    trimming::lemma_start_after_blank(indent, content);
    assert(content.subrange(0, leader.len() as int) =~= leader);
    assert(scope::is_line_leader(content, syntax.prefixes, leader));
    scope::lemma_line_leader(content, syntax.prefixes, leader);
    assert(content.skip(leader.len() as int) =~= body);
    assert(body[0] == '[');
    trimming::lemma_start_unchanged(body);
    assert(scope::commented(row, Some(syntax)) == Some((body, Leader::Line, leader)));
    lemma_bracketed(type_label, span_rows, tail, Leader::Line, leader, Some(syntax), types);
    trimming::lemma_clean(text);
    trimming::lemma_trimmed_between_blanks(seq![' '], text, seq![]);
    assert(seq![' '] + text + seq![] =~= tail);
}

/// No line leader of the language fits a row.
pub open spec fn no_line_leader(syntax: scope::ScopeView, row: Seq<char>) -> bool {
    forall|i: int|
        0 <= i < syntax.prefixes.len() ==> !text::starts_with(
            text::trimmed_start(row),
            #[trigger] syntax.prefixes[i],
        )
}

/// A marker written as a block comment is read back with its type, its span, its
/// text and its leader. The block comment must not start or end with white space,
/// no line leader of the language may fit the row, and the text does not hold the
/// terminator.
pub proof fn law_block_marker_reads_back(
    indent: Seq<char>,
    block: scope::BlockView,
    type_label: Seq<char>,
    span_rows: u32,
    text: Seq<char>,
    syntax: scope::ScopeView,
    types: Seq<Seq<char>>,
)
    requires
        trimming::blank(indent),
        syntax.block == Some(block),
        no_line_leader(
            syntax,
            marker::block_row(indent, block, marker::label_text(type_label, span_rows), text),
        ),
        text::trimmed_start(block.start) == block.start,
        text::trimmed_end(block.end) == block.end,
        !text::contains_text(text, block.end),
        labels::is_usable(type_label),
        types.contains(type_label),
        text.len() > 0,
        text::trimmed(text) == text,
    ensures
        marker::parsed(
            marker::block_row(indent, block, marker::label_text(type_label, span_rows), text),
            Some(syntax),
            types,
        ) == Some(
            marker::AnnotationView { type_label, span_rows, text, leader: block.start },
        ),
{
    let label = marker::label_text(type_label, span_rows);
    let start = block.start;
    let end = block.end;
    let space = seq![' '];
    let tail = space + text + space + end;
    let body = label + tail;
    let row = marker::block_row(indent, block, label, text);
    let syn = Some(syntax);
    trimming::lemma_start_unchanged(start);
    trimming::lemma_end_unchanged(end);
    assert(body[0] == '[');
    // Without a start delimiter the space before the label belongs to the indentation.
    let content = if start.len() > 0 {
        start + space + body
    } else {
        body
    };
    let front = if start.len() > 0 {
        indent
    } else {
        indent + space
    };
    assert(row =~= front + content);
    assert(trimming::blank(front)) by {
        assert forall|i: int| 0 <= i < front.len() implies text::is_white_space(
            #[trigger] front[i],
        ) by {
            if i < indent.len() {
                assert(front[i] == indent[i]);
            }
        }
    }
    assert(content[0] == (if start.len() > 0 {
        start[0]
    } else {
        '['
    }));
    trimming::lemma_start_after_blank(front, content);
    scope::lemma_no_line_leader(content, syntax.prefixes);
    assert(content.subrange(0, start.len() as int) =~= start);
    let after = content.skip(start.len() as int);
    if start.len() > 0 {
        assert(after =~= space + body);
        trimming::lemma_start_after_blank(space, body);
    } else {
        assert(after =~= body);
        trimming::lemma_start_unchanged(body);
    }
    assert(scope::commented(row, syn) == Some((body, Leader::Block, start)));
    lemma_bracketed(type_label, span_rows, tail, Leader::Block, start, syn, types);
    // What follows the bracket is the text and the terminator.
    if end.len() == 0 {
        assert(text.subrange(0, 0) =~= end);
        assert(text::occurs_at(text, end, 0));
    }
    trimming::lemma_clean(text);
    let core = text + space + end;
    assert(core[0] == text[0]);
    assert(core[core.len() - 1] == end[end.len() - 1]);
    trimming::lemma_trimmed_between_blanks(space, core, seq![]);
    assert(space + core + seq![] =~= tail);
    assert(core.subrange(core.len() - end.len(), core.len() as int) =~= end);
    assert(core.take(core.len() - end.len()) =~= text + space);
    trimming::lemma_end_before_blank(text, space);
}

/// A row that submitting wrote as a line comment is written the same again when
/// its marker is opened and submitted unchanged.
pub proof fn law_line_marker_rewrites_as_itself(
    indent: Seq<char>,
    leader: Seq<char>,
    type_label: Seq<char>,
    span_rows: u32,
    text: Seq<char>,
    syntax: scope::ScopeView,
    types: Seq<Seq<char>>,
)
    requires
        trimming::blank(indent),
        syntax.prefixes.contains(leader),
        text::trimmed_start(leader) == leader,
        longest_leader(
            syntax,
            leader,
            marker::label_text(type_label, span_rows) + seq![' '] + text,
        ),
        labels::is_usable(type_label),
        types.contains(type_label),
        text::trimmed(text) == text,
    ensures
        ({
            let row = marker::line_row(
                indent,
                leader,
                marker::label_text(type_label, span_rows),
                text,
            );
            let read = marker::parsed(row, Some(syntax), types);
            &&& read is Some
            &&& marker::marker_row(
                text::indent_of(row),
                Some(syntax),
                marker::leader_of(read),
                marker::label_text(read->0.type_label, read->0.span_rows),
                read->0.text,
            ) == Some(row)
        }),
{
    law_line_marker_reads_back(indent, leader, type_label, span_rows, text, syntax, types);
    let label = marker::label_text(type_label, span_rows);
    let content = leader + label + seq![' '] + text;
    let row = marker::line_row(indent, leader, label, text);
    assert(row =~= indent + content);
    trimming::lemma_start_unchanged(leader);
    assert(content[0] == (if leader.len() > 0 {
        leader[0]
    } else {
        '['
    }));
    trimming::lemma_start_after_blank(indent, content);
}

/// A row that submitting wrote as a block comment is written the same again when
/// its marker is opened and submitted unchanged.
pub proof fn law_block_marker_rewrites_as_itself(
    indent: Seq<char>,
    block: scope::BlockView,
    type_label: Seq<char>,
    span_rows: u32,
    text: Seq<char>,
    syntax: scope::ScopeView,
    types: Seq<Seq<char>>,
)
    requires
        trimming::blank(indent),
        syntax.block == Some(block),
        no_line_leader(
            syntax,
            marker::block_row(indent, block, marker::label_text(type_label, span_rows), text),
        ),
        block.start.len() > 0,
        text::trimmed_start(block.start) == block.start,
        text::trimmed_end(block.end) == block.end,
        !text::contains_text(text, block.end),
        labels::is_usable(type_label),
        types.contains(type_label),
        text.len() > 0,
        text::trimmed(text) == text,
    ensures
        ({
            let row = marker::block_row(
                indent,
                block,
                marker::label_text(type_label, span_rows),
                text,
            );
            let read = marker::parsed(row, Some(syntax), types);
            &&& read is Some
            &&& marker::early_end(Some(syntax), marker::leader_of(read), read->0.text) is None
            &&& marker::marker_row(
                text::indent_of(row),
                Some(syntax),
                marker::leader_of(read),
                marker::label_text(read->0.type_label, read->0.span_rows),
                read->0.text,
            ) == Some(row)
        }),
{
    law_block_marker_reads_back(indent, block, type_label, span_rows, text, syntax, types);
    let label = marker::label_text(type_label, span_rows);
    let space = seq![' '];
    let content = block.start + space + label + space + text + space + block.end;
    let row = marker::block_row(indent, block, label, text);
    assert(row =~= indent + content);
    trimming::lemma_start_unchanged(block.start);
    assert(content[0] == block.start[0]);
    trimming::lemma_start_after_blank(indent, content);
    assert(!syntax.prefixes.contains(block.start)) by {
        if syntax.prefixes.contains(block.start) {
            let i = choose|i: int|
                0 <= i < syntax.prefixes.len() && syntax.prefixes[i] == block.start;
            assert(content.subrange(0, block.start.len() as int) =~= block.start);
            assert(text::starts_with(content, syntax.prefixes[i]));
        }
    }
}

/// A row without a comment leader is not a marker, whatever it says.
pub proof fn law_row_without_leader_is_no_marker(
    line: Seq<char>,
    syntax: Option<scope::ScopeView>,
    types: Seq<Seq<char>>,
)
    requires
        syntax is Some ==> {
            let start = text::trimmed_start(line);
            &&& forall|i: int|
                0 <= i < syntax->0.prefixes.len() ==> !text::starts_with(
                    start,
                    #[trigger] syntax->0.prefixes[i],
                )
            &&& syntax->0.block is Some ==> !text::starts_with(start, syntax->0.block->0.start)
        },
    ensures
        marker::parsed(line, syntax, types) is None,
{
    if let Some(syn) = syntax {
        scope::lemma_no_line_leader(text::trimmed_start(line), syn.prefixes);
    }
}

/// The leader of a marker is a line leader of the language, or starts its block
/// comment.
pub proof fn law_marker_stands_behind_a_leader(
    line: Seq<char>,
    syntax: Option<scope::ScopeView>,
    types: Seq<Seq<char>>,
)
    requires
        marker::parsed(line, syntax, types) is Some,
    ensures
        syntax is Some,
        ({
            let leader = marker::parsed(line, syntax, types)->0.leader;
            ||| syntax->0.prefixes.contains(leader)
            ||| syntax->0.block is Some && syntax->0.block->0.start == leader
        }),
{
}

/// A marker carries one of the types on offer.
pub proof fn law_marker_carries_an_offered_type(
    line: Seq<char>,
    syntax: Option<scope::ScopeView>,
    types: Seq<Seq<char>>,
)
    requires
        marker::parsed(line, syntax, types) is Some,
    ensures
        types.contains(marker::parsed(line, syntax, types)->0.type_label),
{
}

/// A marker in a block comment is all of its row: the row ends with the
/// terminator, and the text holds no other one, so no code stands behind it.
pub proof fn law_block_marker_is_the_whole_row(
    line: Seq<char>,
    syntax: scope::ScopeView,
    block: scope::BlockView,
    types: Seq<Seq<char>>,
)
    requires
        syntax.block == Some(block),
        scope::commented(line, Some(syntax)) matches Some((_, kind, _)) && kind == Leader::Block,
        marker::parsed(line, Some(syntax), types) is Some,
    ensures
        text::ends_with(text::trimmed_end(line), block.end),
        !text::contains_text(marker::parsed(line, Some(syntax), types)->0.text, block.end),
{
    let end = block.end;
    let (rest, kind, leader) = scope::commented(line, Some(syntax))->0;
    let inner = text::after_prefix(rest, seq!['['])->0;
    let (label, tail) = text::split_at_first(inner, seq![']'])->0;
    let body = text::trimmed(tail);
    let text = marker::parsed(line, Some(syntax), types)->0.text;
    if end.len() == 0 {
        assert(text.subrange(0, 0) =~= end);
        assert(text::occurs_at(text, end, 0));
    }
    lemma_commented_is_suffix(line, syntax, rest, kind, leader);
    assert(is_suffix(rest, inner)) by {
        assert(rest.skip(rest.len() - inner.len()) =~= inner);
    }
    let at = choose|at: int| text::first_at(inner, seq![']'], at);
    assert(text::occurs_at(inner, seq![']'], at));
    assert(is_suffix(inner, tail)) by {
        assert(inner.skip(inner.len() - tail.len()) =~= tail);
    }
    lemma_suffix(line, rest, inner);
    lemma_suffix(line, inner, tail);
    lemma_suffix_end(line, tail, end);
}

proof fn lemma_commented_is_suffix(
    line: Seq<char>,
    syntax: scope::ScopeView,
    rest: Seq<char>,
    kind: Leader,
    leader: Seq<char>,
)
    requires
        scope::commented(line, Some(syntax)) == Some((rest, kind, leader)),
        kind == Leader::Block,
    ensures
        is_suffix(line, rest),
{
    let start = text::trimmed_start(line);
    text::lemma_leading_count(line);
    assert(is_suffix(line, start)) by {
        assert(line.skip(line.len() - start.len()) =~= start);
    }
    let opened = start.skip(leader.len() as int);
    assert(is_suffix(start, opened)) by {
        assert(start.skip(start.len() - opened.len()) =~= opened);
    }
    text::lemma_leading_count(opened);
    assert(is_suffix(opened, rest)) by {
        assert(opened.skip(opened.len() - rest.len()) =~= rest);
    }
    lemma_suffix(line, start, opened);
    lemma_suffix(line, opened, rest);
}

proof fn lemma_suffix_end(line: Seq<char>, tail: Seq<char>, end: Seq<char>)
    requires
        is_suffix(line, tail),
        end.len() > 0,
        text::ends_with(text::trimmed(tail), end),
    ensures
        text::ends_with(text::trimmed_end(line), end),
{
    let body = text::trimmed(tail);
    let (front, back) = trimming::lemma_trimmed(tail);
    let head = line.take(line.len() - tail.len());
    let before = head + front + body;
    assert(line =~= head + tail);
    assert(line =~= before + back);
    assert(before[before.len() - 1] == body[body.len() - 1]);
    trimming::lemma_end_before_blank(before, back);
    assert(before.subrange(before.len() - end.len(), before.len() as int) =~= body.subrange(
        body.len() - end.len(),
        body.len() as int,
    ));
}

spec fn is_suffix(s: Seq<char>, part: Seq<char>) -> bool {
    part.len() <= s.len() && s.skip(s.len() - part.len()) == part
}

proof fn lemma_suffix(s: Seq<char>, middle: Seq<char>, part: Seq<char>)
    requires
        is_suffix(s, middle),
        is_suffix(middle, part),
    ensures
        is_suffix(s, part),
{
    assert(s.skip(s.len() - part.len()) =~= part);
}

} // verus!
