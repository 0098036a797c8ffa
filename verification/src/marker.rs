//! The marker: how it is written as a row, and how a row is read back.

use vstd::prelude::*;

use crate::decimal;
use crate::labels;
use crate::scope;
use crate::scope::{strip_comment_leader, LanguageScope, Leader};
use crate::text;

verus! {

/// A marker recovered from a row, for editing, deleting, and navigating.
pub struct ParsedAnnotation {
    pub type_label: String,
    /// Extra rows the comment covers beyond the annotated line, from the
    /// `:+N` suffix. Zero for a single-line marker.
    pub span_rows: u32,
    pub text: String,
    /// The exact leader the row already uses, so rewriting a marker keeps the
    /// comment style the user wrote it in rather than normalizing a doc
    /// comment down to a plain one.
    pub leader: String,
}

/// A marker, as characters.
pub ghost struct AnnotationView {
    pub type_label: Seq<char>,
    pub span_rows: u32,
    pub text: Seq<char>,
    pub leader: Seq<char>,
}

impl View for ParsedAnnotation {
    type V = AnnotationView;

    open spec fn view(&self) -> AnnotationView {
        AnnotationView {
            type_label: self.type_label@,
            span_rows: self.span_rows,
            text: self.text@,
            leader: self.leader@,
        }
    }
}

/// A marker that may be missing, as characters.
pub open spec fn annotation_view(annotation: Option<ParsedAnnotation>) -> Option<AnnotationView> {
    match annotation {
        Some(annotation) => Some(annotation@),
        None => None,
    }
}

// ---------------------------------------------------------------------------
// The bracketed label
// ---------------------------------------------------------------------------

/// What stands between the brackets of a marker.
pub open spec fn label_body(type_label: Seq<char>, span_rows: u32) -> Seq<char> {
    if span_rows == 0 {
        type_label
    } else {
        type_label + seq![':', '+'] + decimal::decimal_text(span_rows as nat)
    }
}

/// The bracketed part of a marker.
pub open spec fn label_text(type_label: Seq<char>, span_rows: u32) -> Seq<char> {
    seq!['['] + label_body(type_label, span_rows) + seq![']']
}

/// The type and the span that a label stands for.
pub open spec fn type_and_span(label: Seq<char>) -> Option<(Seq<char>, u32)> {
    match text::split_at_first(label, seq![':', '+']) {
        Some((type_label, span)) => match decimal::parsed_u32(span) {
            Some(span_rows) => Some((type_label, span_rows)),
            None => None,
        },
        None => Some((label, 0)),
    }
}

/// Renders the bracketed part of a marker. A multi-row comment carries its
/// span as `:+N` relative rows, which survives edits above it in a way an
/// absolute line range would not.
pub fn marker_label(type_label: &str, span_rows: u32) -> (r: String)
    ensures
        r@ == label_text(type_label@, span_rows),
{
    proof {
        reveal_strlit("[");
        reveal_strlit("]");
        reveal_strlit(":+");
    }
    let mut label = "[".to_string();
    label.append(type_label);
    if span_rows != 0 {
        label.append(":+");
        label.append(decimal::decimal(span_rows).as_str());
    }
    label.append("]");
    assert(label@ =~= label_text(type_label@, span_rows));
    label
}

/// Splits `ISSUE:+3` into its type and span. A malformed span makes the whole
/// label unrecognized rather than silently reading as a single-line marker.
pub fn split_type_and_span(label: &str) -> (r: Option<(&str, u32)>)
    ensures
        (match r {
            Some((type_label, span_rows)) => type_and_span(label@) == Some((type_label@, span_rows)),
            None => type_and_span(label@) is None,
        }),
{
    proof {
        reveal_strlit(":+");
        assert(":+"@ =~= seq![':', '+']);
    }
    match text::split_once(label, ":+") {
        Some((type_label, span)) => match decimal::parse_u32(span) {
            Some(span_rows) => Some((type_label, span_rows)),
            None => None,
        },
        None => Some((label, 0)),
    }
}

// ---------------------------------------------------------------------------
// Reading a row
// ---------------------------------------------------------------------------

/// The text of a marker, from what follows its closing bracket. A block comment
/// has to end with the row and nowhere before.
pub open spec fn marker_text(
    rest: Seq<char>,
    kind: Leader,
    scope: Option<scope::ScopeView>,
) -> Option<Seq<char>> {
    match kind {
        Leader::Line => Some(text::trimmed(rest)),
        Leader::Block => match scope {
            Some(scope) => match scope.block {
                Some(block) => match text::before_suffix(text::trimmed(rest), block.end) {
                    Some(body) => {
                        let body = text::trimmed_end(body);
                        if text::contains_text(body, block.end) {
                            None
                        } else {
                            Some(body)
                        }
                    },
                    None => None,
                },
                None => None,
            },
            None => None,
        },
    }
}

/// The marker that stands in commented text, whose first character it opens.
pub open spec fn bracketed(
    rest: Seq<char>,
    kind: Leader,
    leader: Seq<char>,
    scope: Option<scope::ScopeView>,
    types: Seq<Seq<char>>,
) -> Option<AnnotationView> {
    match text::after_prefix(rest, seq!['[']) {
        None => None,
        Some(rest) => match text::split_at_first(rest, seq![']']) {
            None => None,
            Some((label, rest)) => match type_and_span(label) {
                None => None,
                Some((type_label, span_rows)) => {
                    if !types.contains(type_label) {
                        None
                    } else if !(rest.len() > 0 && text::is_white_space(rest[0])) {
                        None
                    } else {
                        match marker_text(rest, kind, scope) {
                            None => None,
                            Some(text) => Some(
                                AnnotationView { type_label, span_rows, text, leader },
                            ),
                        }
                    }
                },
            },
        },
    }
}

/// The marker that a row is, where it is one.
pub open spec fn parsed(
    line: Seq<char>,
    scope: Option<scope::ScopeView>,
    types: Seq<Seq<char>>,
) -> Option<AnnotationView> {
    match scope::commented(line, scope) {
        None => None,
        Some((rest, kind, leader)) => bracketed(rest, kind, leader, scope, types),
    }
}

/// The text of a marker, from what follows its closing bracket.
fn read_text<'a>(rest: &'a str, kind: Leader, scope: Option<&LanguageScope>) -> (r: Option<&'a str>)
    ensures
        (match r {
            Some(text) => marker_text(rest@, kind, scope::scope_view(scope)) == Some(text@),
            None => marker_text(rest@, kind, scope::scope_view(scope)) is None,
        }),
{
    let body = text::trim(rest);
    if kind == Leader::Line {
        return Some(body);
    }
    // A block comment must close on the same line. `/* [ISSUE] x */ call();`
    // is a line of code carrying a comment, not an annotation, and treating it
    // as one would let the delete and strip paths remove the call. In a line
    // comment a trailing `*/` is instead part of what the user wrote.
    match scope {
        None => None,
        Some(scope) => match &scope.block_comment {
            None => None,
            Some(block) => match text::strip_suffix(body, block.end.as_str()) {
                None => None,
                Some(body) => {
                    let body = text::trim_end(body);
                    // The comment must also be the only one on the row. `/* [ISSUE] x */
                    // call(); /* t */` ends in a terminator but is still a line of code,
                    // and deleting it would take the call with it.
                    if text::contains(body, block.end.as_str()) {
                        None
                    } else {
                        Some(body)
                    }
                },
            },
        },
    }
}

/// Parses a row that is *entirely* a review marker. The marker must be the
/// first token after the comment leader, so prose mentioning `[ISSUE]` mid
/// sentence is not a marker.
pub fn parse_annotation_line(line: &str, scope: Option<&LanguageScope>, types: &[String]) -> (r:
    Option<ParsedAnnotation>)
    ensures
        annotation_view(r) == parsed(line@, scope::scope_view(scope), text::texts(types@)),
{
    proof {
        reveal_strlit("[");
        reveal_strlit("]");
        assert("["@ =~= seq!['[']);
        assert("]"@ =~= seq![']']);
    }
    let (rest, kind, leader) = match strip_comment_leader(line, scope) {
        Some(stripped) => stripped,
        None => {
            return None;
        },
    };
    let rest = match text::strip_prefix(rest, "[") {
        Some(rest) => rest,
        None => {
            return None;
        },
    };
    let (label, rest) = match text::split_once(rest, "]") {
        Some(parts) => parts,
        None => {
            return None;
        },
    };
    let (type_label, span_rows) = match split_type_and_span(label) {
        Some(parts) => parts,
        None => {
            return None;
        },
    };
    match labels::position_of(types, type_label) {
        Some(i) => {
            assert(text::texts(types@).contains(type_label@));
        },
        None => {
            return None;
        },
    }
    // The bracket must be a whole token. Without this, an ordinary comment
    // reading `// [NOTE]worthy behavior` would be deletable as an annotation.
    if !text::starts_with_whitespace(rest) {
        return None;
    }
    match read_text(rest, kind, scope) {
        Some(body) => Some(
            ParsedAnnotation {
                type_label: type_label.to_string(),
                span_rows,
                text: body.to_string(),
                leader: leader.to_string(),
            },
        ),
        None => None,
    }
}

// ---------------------------------------------------------------------------
// Writing a row
// ---------------------------------------------------------------------------

/// The leader of a marker that may be missing.
pub open spec fn leader_of(existing: Option<AnnotationView>) -> Option<Seq<char>> {
    match existing {
        Some(existing) => Some(existing.leader),
        None => None,
    }
}

/// How a marker is written: behind a line leader, or as a block comment.
pub ghost enum Style {
    Line(Seq<char>),
    Block(scope::BlockView),
}

/// The style of the row to write: that of the marker it replaces, where the
/// language has it, else the first line leader of the language, else its block
/// comment.
pub open spec fn row_style(syntax: scope::ScopeView, existing: Option<Seq<char>>) -> Option<Style> {
    if existing is Some && syntax.prefixes.contains(existing->0) {
        Some(Style::Line(existing->0))
    } else if existing is Some && syntax.block is Some && syntax.block->0.start == existing->0 {
        Some(Style::Block(syntax.block->0))
    } else if syntax.prefixes.len() > 0 {
        Some(Style::Line(syntax.prefixes[0]))
    } else if syntax.block is Some {
        Some(Style::Block(syntax.block->0))
    } else {
        None
    }
}

/// A row with a line comment.
pub open spec fn line_row(
    indent: Seq<char>,
    leader: Seq<char>,
    label: Seq<char>,
    text: Seq<char>,
) -> Seq<char> {
    indent + leader + label + seq![' '] + text
}

/// A row with a block comment.
pub open spec fn block_row(
    indent: Seq<char>,
    block: scope::BlockView,
    label: Seq<char>,
    text: Seq<char>,
) -> Seq<char> {
    indent + block.start + seq![' '] + label + seq![' '] + text + seq![' '] + block.end
}

/// The row that holds a marker, where the language has comments.
pub open spec fn marker_row(
    indent: Seq<char>,
    scope: Option<scope::ScopeView>,
    existing: Option<Seq<char>>,
    label: Seq<char>,
    text: Seq<char>,
) -> Option<Seq<char>> {
    match scope {
        None => None,
        Some(syntax) => match row_style(syntax, existing) {
            Some(Style::Line(leader)) => Some(line_row(indent, leader, label, text)),
            Some(Style::Block(block)) => Some(block_row(indent, block, label, text)),
            None => None,
        },
    }
}

/// The terminator that `text` holds, where the row would be a block comment and
/// the terminator would close it early.
pub open spec fn early_end(
    scope: Option<scope::ScopeView>,
    existing: Option<Seq<char>>,
    text: Seq<char>,
) -> Option<Seq<char>> {
    match scope {
        None => None,
        Some(syntax) => match row_style(syntax, existing) {
            Some(Style::Block(block)) => if text::contains_text(text, block.end) {
                Some(block.end)
            } else {
                None
            },
            _ => None,
        },
    }
}

/// How a marker is written: behind the line leader at some position of the
/// language's list, or as a block comment.
#[derive(Clone, Copy)]
enum StyleChoice {
    Line(usize),
    Block,
}

/// The style of the row to write. Rewriting a marker keeps the style it is
/// written in, so editing a doc comment does not quietly demote it to a plain
/// one.
fn choose_style(scope: &LanguageScope, existing: &Option<ParsedAnnotation>) -> (r: Option<
    StyleChoice,
>)
    ensures
        ({
            let style = row_style(scope@, leader_of(annotation_view(*existing)));
            match r {
                Some(StyleChoice::Line(i)) => {
                    &&& i < scope.line_comment_prefixes@.len()
                    &&& style == Some(Style::Line(scope.line_comment_prefixes@[i as int]@))
                },
                Some(StyleChoice::Block) => {
                    &&& scope.block_comment is Some
                    &&& style == Some(Style::Block(scope.block_comment->0@))
                },
                None => style is None,
            }
        }),
{
    let prefixes = &scope.line_comment_prefixes;
    if let Some(existing) = existing {
        match labels::position_of(prefixes.as_slice(), existing.leader.as_str()) {
            Some(i) => {
                assert(text::texts(prefixes@).contains(existing.leader@));
                return Some(StyleChoice::Line(i));
            },
            None => {},
        }
        if let Some(block) = &scope.block_comment {
            if text::same_text(block.start.as_str(), existing.leader.as_str()) {
                return Some(StyleChoice::Block);
            }
        }
    }
    if prefixes.len() > 0 {
        Some(StyleChoice::Line(0))
    } else if scope.block_comment.is_some() {
        Some(StyleChoice::Block)
    } else {
        None
    }
}

/// The terminator that `text` holds, where the row would be a block comment. A
/// block comment ends at the first terminator, so text containing one would
/// close the comment early and push the rest into the source.
pub fn closes_early<'a>(
    scope: Option<&'a LanguageScope>,
    existing: &Option<ParsedAnnotation>,
    text: &str,
) -> (r: Option<&'a str>)
    ensures
        ({
            let end = early_end(
                scope::scope_view(scope),
                leader_of(annotation_view(*existing)),
                text@,
            );
            match r {
                Some(found) => end == Some(found@),
                None => end is None,
            }
        }),
{
    let scope = match scope {
        Some(scope) => scope,
        None => {
            return None;
        },
    };
    match choose_style(scope, existing) {
        Some(StyleChoice::Block) => match &scope.block_comment {
            Some(block) => if text::contains(text, block.end.as_str()) {
                Some(block.end.as_str())
            } else {
                None
            },
            None => None,
        },
        _ => None,
    }
}

/// The row that holds a marker; `None` where the language has no comments.
/// Rewriting a marker keeps the style it is written in.
pub fn render_marker(
    indent: &str,
    scope: Option<&LanguageScope>,
    existing: &Option<ParsedAnnotation>,
    label: &str,
    text: &str,
) -> (r: Option<String>)
    ensures
        ({
            let row = marker_row(
                indent@,
                scope::scope_view(scope),
                leader_of(annotation_view(*existing)),
                label@,
                text@,
            );
            match r {
                Some(written) => row == Some(written@),
                None => row is None,
            }
        }),
{
    proof {
        reveal_strlit(" ");
        assert(" "@ =~= seq![' ']);
    }
    let scope = match scope {
        Some(scope) => scope,
        None => {
            return None;
        },
    };
    let mut row = indent.to_string();
    match choose_style(scope, existing) {
        Some(StyleChoice::Line(i)) => {
            row.append(scope.line_comment_prefixes[i].as_str());
            row.append(label);
            row.append(" ");
            row.append(text);
            Some(row)
        },
        Some(StyleChoice::Block) => match &scope.block_comment {
            Some(block) => {
                row.append(block.start.as_str());
                row.append(" ");
                row.append(label);
                row.append(" ");
                row.append(text);
                row.append(" ");
                row.append(block.end.as_str());
                Some(row)
            },
            None => None,
        },
        None => None,
    }
}

} // verus!
