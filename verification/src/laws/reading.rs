//! Laws of reading a row: exactly which rows are comments, exactly which of them
//! are markers, and what they are read as.

use vstd::prelude::*;

use crate::decimal;
use crate::laws::searching;
use crate::laws::trimming;
use crate::marker;
use crate::scope;
use crate::scope::Leader;
use crate::text;

verus! {

/// `leader` is a line leader of the language that fits `s`, and none that fits is
/// longer.
pub open spec fn opens_line(syntax: scope::ScopeView, s: Seq<char>, leader: Seq<char>) -> bool {
    &&& syntax.prefixes.contains(leader)
    &&& leader.is_prefix_of(s)
    &&& forall|i: int|
        0 <= i < syntax.prefixes.len() && (#[trigger] syntax.prefixes[i]).is_prefix_of(s)
            ==> syntax.prefixes[i].len() <= leader.len()
}

/// No line leader of the language fits `s`, and `leader` starts its block comment
/// and fits.
pub open spec fn opens_block(syntax: scope::ScopeView, s: Seq<char>, leader: Seq<char>) -> bool {
    &&& forall|i: int|
        0 <= i < syntax.prefixes.len() ==> !(#[trigger] syntax.prefixes[i]).is_prefix_of(s)
    &&& syntax.block is Some
    &&& syntax.block->0.start == leader
    &&& leader.is_prefix_of(s)
}

/// Whether `leader` opens a row that reads `s` behind its indentation, and how.
pub open spec fn opens(
    syntax: scope::ScopeView,
    s: Seq<char>,
    leader: Seq<char>,
    kind: Leader,
) -> bool {
    match kind {
        Leader::Line => opens_line(syntax, s, leader),
        Leader::Block => opens_block(syntax, s, leader),
    }
}

proof fn lemma_opens(syntax: scope::ScopeView, s: Seq<char>, leader: Seq<char>, kind: Leader)
    requires
        opens(syntax, s, leader, kind),
    ensures
        kind == Leader::Line ==> scope::line_leader(s, syntax.prefixes) == Some(leader),
        kind == Leader::Block ==> scope::line_leader(s, syntax.prefixes) is None,
        text::starts_with(s, leader),
{
    searching::law_prefix_is_taken_off(s, leader, seq![]);
    assert forall|i: int| 0 <= i < syntax.prefixes.len() implies text::starts_with(
        s,
        #[trigger] syntax.prefixes[i],
    ) == syntax.prefixes[i].is_prefix_of(s) by {
        searching::law_prefix_is_taken_off(s, syntax.prefixes[i], seq![]);
    }
    match kind {
        Leader::Line => {
            assert(scope::is_line_leader(s, syntax.prefixes, leader));
            scope::lemma_line_leader(s, syntax.prefixes, leader);
        },
        Leader::Block => {
            scope::lemma_no_line_leader(s, syntax.prefixes);
        },
    }
}

/// A row is a comment where a leader stands behind its indentation: the longest
/// line leader that fits, or else the start of a block comment. What follows, up
/// to white space, is the commented text.
pub proof fn law_comment_is_what_follows_the_leader(
    indent: Seq<char>,
    leader: Seq<char>,
    gap: Seq<char>,
    rest: Seq<char>,
    kind: Leader,
    syntax: scope::ScopeView,
)
    requires
        trimming::blank(indent),
        trimming::blank(gap),
        trimming::visible_start(leader + gap + rest),
        trimming::visible_start(rest),
        opens(syntax, leader + gap + rest, leader, kind),
    ensures
        scope::commented(indent + leader + gap + rest, Some(syntax)) == Some((rest, kind, leader)),
{
    let s = leader + gap + rest;
    assert(indent + leader + gap + rest =~= indent + s);
    trimming::lemma_start_after_blank(indent, s);
    lemma_opens(syntax, s, leader, kind);
    assert(s.skip(leader.len() as int) =~= gap + rest);
    trimming::lemma_start_after_blank(gap, rest);
}

/// A row that no leader of the language opens is not a comment, and without a
/// language no row is one.
pub proof fn law_row_without_a_leader_is_no_comment(
    indent: Seq<char>,
    s: Seq<char>,
    syntax: scope::ScopeView,
)
    requires
        trimming::blank(indent),
        trimming::visible_start(s),
        forall|i: int|
            0 <= i < syntax.prefixes.len() ==> !(#[trigger] syntax.prefixes[i]).is_prefix_of(s),
        syntax.block is Some ==> !syntax.block->0.start.is_prefix_of(s),
    ensures
        scope::commented(indent + s, Some(syntax)) is None,
        scope::commented(indent + s, None) is None,
{
    trimming::lemma_start_after_blank(indent, s);
    assert forall|i: int| 0 <= i < syntax.prefixes.len() implies !text::starts_with(
        s,
        #[trigger] syntax.prefixes[i],
    ) by {
        searching::law_prefix_is_taken_off(s, syntax.prefixes[i], seq![]);
    }
    scope::lemma_no_line_leader(s, syntax.prefixes);
    if syntax.block is Some {
        searching::law_prefix_is_taken_off(s, syntax.block->0.start, seq![]);
    }
}

/// A row that is a comment is put together from an indentation, a leader that
/// opens it, white space, and the commented text.
pub proof fn law_comment_has_a_leader(line: Seq<char>, syntax: Option<scope::ScopeView>) -> (parts:
    (Seq<char>, Seq<char>))
    requires
        scope::commented(line, syntax) is Some,
    ensures
        syntax is Some,
        ({
            let (indent, gap) = parts;
            let (rest, kind, leader) = scope::commented(line, syntax)->0;
            &&& line == indent + leader + gap + rest
            &&& trimming::blank(indent)
            &&& trimming::blank(gap)
            &&& trimming::visible_start(leader + gap + rest)
            &&& trimming::visible_start(rest)
            &&& opens(syntax->0, leader + gap + rest, leader, kind)
        }),
{
    let syn = syntax->0;
    let (rest, kind, leader) = scope::commented(line, syntax)->0;
    let s = text::trimmed_start(line);
    text::lemma_leading_count(line);
    let indent = text::indent_of(line);
    let opened = s.skip(leader.len() as int);
    text::lemma_leading_count(opened);
    let gap = text::indent_of(opened);
    searching::law_prefix_is_taken_off(s, leader, opened);
    assert forall|i: int| 0 <= i < syn.prefixes.len() implies text::starts_with(
        s,
        #[trigger] syn.prefixes[i],
    ) == syn.prefixes[i].is_prefix_of(s) by {
        searching::law_prefix_is_taken_off(s, syn.prefixes[i], seq![]);
    }
    if kind == Leader::Block {
        assert(scope::line_leader(s, syn.prefixes) is None);
        assert forall|i: int| 0 <= i < syn.prefixes.len() implies !(
        #[trigger] syn.prefixes[i]).is_prefix_of(s) by {
            if syn.prefixes[i].is_prefix_of(s) {
                lemma_longest_exists(s, syn.prefixes, i);
            }
        }
    }
    assert(gap + rest =~= opened);
    assert(s =~= leader + opened);
    assert(leader + gap + rest =~= s);
    assert(line =~= indent + s);
    assert(line =~= indent + leader + gap + rest);
    assert forall|i: int| 0 <= i < indent.len() implies text::is_white_space(
        #[trigger] indent[i],
    ) by {
        assert(indent[i] == line[i]);
    }
    assert forall|i: int| 0 <= i < gap.len() implies text::is_white_space(#[trigger] gap[i]) by {
        assert(gap[i] == opened[i]);
    }
    (indent, gap)
}

/// Among the prefixes that fit there is a longest one.
proof fn lemma_longest_exists(s: Seq<char>, prefixes: Seq<Seq<char>>, i: int)
    requires
        0 <= i < prefixes.len(),
        text::starts_with(s, prefixes[i]),
    ensures
        scope::line_leader(s, prefixes) is Some,
    decreases s.len() - prefixes[i].len(),
{
    if !scope::is_line_leader(s, prefixes, prefixes[i]) {
        let j = choose|j: int|
            0 <= j < prefixes.len() && text::starts_with(s, #[trigger] prefixes[j])
                && prefixes[j].len() > prefixes[i].len();
        lemma_longest_exists(s, prefixes, j);
    }
}

/// The parts of a row that is a marker.
pub ghost struct Parts {
    pub indent: Seq<char>,
    pub leader: Seq<char>,
    pub gap: Seq<char>,
    /// What stands between the brackets.
    pub label: Seq<char>,
    /// The white space behind the closing bracket.
    pub before: Seq<char>,
    pub text: Seq<char>,
    /// The white space and the terminator of a block comment behind the text.
    pub closing: Seq<char>,
    /// The white space that ends the row.
    pub after: Seq<char>,
}

/// The row from its leader on.
pub open spec fn commented_part(p: Parts) -> Seq<char> {
    p.leader + p.gap + seq!['['] + p.label + seq![']'] + p.before + p.text + p.closing + p.after
}

/// `label` names a type, with the span behind `:+` where it has one.
pub open spec fn names(label: Seq<char>, type_label: Seq<char>, span_rows: u32) -> bool {
    &&& forall|i: int|
        0 <= i < type_label.len() - 1 ==> !(#[trigger] type_label[i] == ':' && type_label[i + 1]
            == '+')
    &&& {
        ||| label == type_label && span_rows == 0
        ||| exists|digits: Seq<char>|
            label == type_label + seq![':', '+'] + digits && #[trigger] decimal::parsed_u32(digits)
                == Some(span_rows)
    }
}

/// What follows the text of a marker: nothing behind a line leader; in a block
/// comment white space and the terminator, which stands nowhere in the text.
pub open spec fn closes(
    syntax: scope::ScopeView,
    kind: Leader,
    text: Seq<char>,
    closing: Seq<char>,
) -> bool {
    match kind {
        Leader::Line => closing == Seq::<char>::empty(),
        Leader::Block => {
            &&& syntax.block is Some
            &&& exists|space: Seq<char>|
                #[trigger] trimming::blank(space) && closing == space + syntax.block->0.end
            &&& forall|at: int|
                0 <= at <= text.len() ==> !syntax.block->0.end.is_prefix_of(
                    #[trigger] text.skip(at),
                )
        },
    }
}

/// A row is the marker `m`, put together from the parts `p`.
pub open spec fn is_marker_row(
    line: Seq<char>,
    syntax: scope::ScopeView,
    types: Seq<Seq<char>>,
    m: marker::AnnotationView,
    kind: Leader,
    p: Parts,
) -> bool {
    &&& line == p.indent + commented_part(p)
    &&& trimming::blank(p.indent)
    &&& trimming::blank(p.gap)
    &&& trimming::visible_start(commented_part(p))
    &&& opens(syntax, commented_part(p), p.leader, kind)
    &&& !p.label.contains(']')
    &&& names(p.label, m.type_label, m.span_rows)
    &&& types.contains(m.type_label)
    &&& trimming::blank(p.before)
    &&& trimming::blank(p.after)
    &&& {
        let tail = p.before + p.text + p.closing + p.after;
        tail.len() > 0 && text::is_white_space(tail[0])
    }
    &&& trimming::clean(p.text + p.closing)
    &&& trimming::visible_end(p.text)
    &&& closes(syntax, kind, p.text, p.closing)
    &&& m.text == p.text
    &&& m.leader == p.leader
}

proof fn lemma_names(label: Seq<char>, type_label: Seq<char>, span_rows: u32)
    requires
        names(label, type_label, span_rows),
    ensures
        marker::type_and_span(label) == Some((type_label, span_rows)),
{
    let mark = seq![':', '+'];
    assert forall|at: int| #[trigger] text::occurs_at(label, mark, at) implies type_label.len()
        <= at && label != type_label by {
        assert(label.subrange(at, at + 2)[0] == label[at]);
        assert(label.subrange(at, at + 2)[1] == label[at + 1]);
        assert(label[at] == ':' && label[at + 1] == '+');
        if at < type_label.len() {
            assert(label[at] == type_label[at]);
            if at + 1 < type_label.len() {
                assert(label[at + 1] == type_label[at + 1]);
            }
        }
    }
    if label == type_label && span_rows == 0 {
        if text::contains_text(label, mark) {
            let at = choose|at: int| text::occurs_at(label, mark, at);
            assert(false);
        }
        text::lemma_split_at_none(label, mark);
    } else {
        let digits = choose|digits: Seq<char>|
            label == type_label + seq![':', '+'] + digits && #[trigger] decimal::parsed_u32(digits)
                == Some(span_rows);
        let at = type_label.len() as int;
        assert(label.subrange(at, at + 2) =~= mark);
        assert(text::first_at(label, mark, at));
        text::lemma_split_at_first(label, mark, at);
        assert(label.take(at) =~= type_label);
        assert(label.skip(at + 2) =~= digits);
    }
}

/// A row that is put together from the parts of a marker is read as that marker.
pub proof fn law_row_of_a_marker_is_read_as_it(
    line: Seq<char>,
    syntax: scope::ScopeView,
    types: Seq<Seq<char>>,
    m: marker::AnnotationView,
    kind: Leader,
    p: Parts,
)
    requires
        is_marker_row(line, syntax, types, m, kind, p),
    ensures
        marker::parsed(line, Some(syntax), types) == Some(m),
{
    let open = seq!['['];
    let close = seq![']'];
    let tail = p.before + p.text + p.closing + p.after;
    let inner = p.label + close + tail;
    let rest = open + inner;
    assert(commented_part(p) =~= p.leader + p.gap + rest);
    assert(line =~= p.indent + p.leader + p.gap + rest);
    assert(rest[0] == '[');
    law_comment_is_what_follows_the_leader(p.indent, p.leader, p.gap, rest, kind, syntax);
    searching::law_prefix_is_taken_off(rest, open, inner);
    let at = p.label.len() as int;
    assert(inner.subrange(at, at + 1) =~= close);
    assert forall|other: int| #[trigger] text::occurs_at(inner, close, other) implies at
        <= other by {
        assert(inner.subrange(other, other + 1)[0] == inner[other]);
        if other < at {
            assert(p.label[other] == ']');
            assert(p.label.contains(']'));
        }
    }
    assert(text::first_at(inner, close, at));
    text::lemma_split_at_first(inner, close, at);
    assert(inner.take(at) =~= p.label);
    assert(inner.skip(at + 1) =~= tail);
    lemma_names(p.label, m.type_label, m.span_rows);
    let core = p.text + p.closing;
    assert(tail =~= p.before + core + p.after);
    trimming::lemma_trimmed_between_blanks(p.before, core, p.after);
    match kind {
        Leader::Line => {
            assert(core =~= p.text);
        },
        Leader::Block => {
            let end = syntax.block->0.end;
            let space = choose|space: Seq<char>|
                #[trigger] trimming::blank(space) && p.closing == space + end;
            assert(core =~= p.text + space + end);
            searching::law_suffix_is_taken_off(core, end, p.text + space);
            trimming::lemma_end_before_blank(p.text, space);
            if text::contains_text(p.text, end) {
                let k = choose|k: int| text::occurs_at(p.text, end, k);
                searching::law_pattern_stands_where_the_rest_starts_with_it(p.text, end, k);
                assert(end.is_prefix_of(p.text.skip(k)));
            }
        },
    }
}

/// A row that is read as a marker is put together from the parts of that marker.
pub proof fn law_marker_is_read_from_its_parts(
    line: Seq<char>,
    syntax: Option<scope::ScopeView>,
    types: Seq<Seq<char>>,
) -> (found: (Leader, Parts))
    requires
        marker::parsed(line, syntax, types) is Some,
    ensures
        syntax is Some,
        is_marker_row(
            line,
            syntax->0,
            types,
            marker::parsed(line, syntax, types)->0,
            found.0,
            found.1,
        ),
{
    let m = marker::parsed(line, syntax, types)->0;
    let open = seq!['['];
    let close = seq![']'];
    let (indent, gap) = law_comment_has_a_leader(line, syntax);
    let (rest, kind, leader) = scope::commented(line, syntax)->0;
    let inner = text::after_prefix(rest, open)->0;
    searching::law_prefix_is_taken_off(rest, open, inner);
    let (label, tail) = text::split_at_first(inner, close)->0;
    searching::law_split_is_at_the_first_pattern(inner, close);
    assert(!label.contains(']')) by {
        if label.contains(']') {
            let k = choose|k: int| 0 <= k < label.len() && label[k] == ']';
            assert(inner.skip(k)[0] == ']');
            assert(close =~= inner.skip(k).subrange(0, 1));
            assert(close.is_prefix_of(inner.skip(k)));
        }
    }
    lemma_named(label, m.type_label, m.span_rows);
    let (before, after) = trimming::lemma_trimmed(tail);
    let core = text::trimmed(tail);
    let closing = core.skip(m.text.len() as int);
    if kind == Leader::Block {
        let end = syntax->0.block->0.end;
        let body = text::before_suffix(core, end)->0;
        searching::law_suffix_is_taken_off(core, end, body);
        text::lemma_trailing_count(body);
        let space = body.skip(m.text.len() as int);
        assert(body =~= m.text + space);
        assert(trimming::blank(space)) by {
            assert forall|i: int| 0 <= i < space.len() implies text::is_white_space(
                #[trigger] space[i],
            ) by {
                assert(space[i] == body[m.text.len() + i]);
            }
        }
        assert(closing =~= space + end);
        if m.text.len() > 0 {
            assert(m.text[m.text.len() - 1] == body[m.text.len() - 1]);
        }
        assert forall|at: int| 0 <= at <= m.text.len() implies !end.is_prefix_of(
            #[trigger] m.text.skip(at),
        ) by {
            searching::law_pattern_stands_where_the_rest_starts_with_it(m.text, end, at);
        }
    } else {
        assert(closing =~= Seq::<char>::empty());
        assert(m.text == core);
    }
    assert(core =~= m.text + closing);
    let p = Parts { indent, leader, gap, label, before, text: m.text, closing, after };
    assert(tail =~= before + m.text + closing + after);
    assert(rest =~= open + label + close + tail);
    assert(commented_part(p) =~= leader + gap + rest);
    assert(line =~= indent + commented_part(p));
    (kind, p)
}

proof fn lemma_named(label: Seq<char>, type_label: Seq<char>, span_rows: u32)
    requires
        marker::type_and_span(label) == Some((type_label, span_rows)),
    ensures
        names(label, type_label, span_rows),
{
    let mark = seq![':', '+'];
    searching::law_split_is_at_the_first_pattern(label, mark);
    assert forall|i: int| 0 <= i < type_label.len() - 1 implies !(#[trigger] type_label[i] == ':'
        && type_label[i + 1] == '+') by {
        let from = label.skip(i);
        if type_label[i] == ':' && type_label[i + 1] == '+' {
            assert(label[i] == ':' && label[i + 1] == '+');
            assert(mark =~= from.subrange(0, 2));
            assert(mark.is_prefix_of(from));
        }
    }
}

/// The label of a marker names its type alone, or its type and span.
pub proof fn law_label_names_the_type_and_the_span(
    label: Seq<char>,
    type_label: Seq<char>,
    span_rows: u32,
)
    ensures
        marker::type_and_span(label) == Some((type_label, span_rows)) <==> names(
            label,
            type_label,
            span_rows,
        ),
{
    if names(label, type_label, span_rows) {
        lemma_names(label, type_label, span_rows);
    }
    if marker::type_and_span(label) == Some((type_label, span_rows)) {
        lemma_named(label, type_label, span_rows);
    }
}

} // verus!
