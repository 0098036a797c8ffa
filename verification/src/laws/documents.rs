//! Laws of what the edits do to the rows of a buffer.

use vstd::prelude::*;

use crate::buffer;
use crate::comment;
use crate::decimal;
use crate::editor::{DeleteOutcome, Editor, SubmitOutcome};
use crate::labels;
use crate::laws::comments;
use crate::laws::markers;
use crate::laws::trimming;
use crate::laws::types;
use crate::marker;
use crate::scope;
use crate::text;

verus! {

/// No row holds a newline.
pub open spec fn rows_are_lines(lines: Seq<Seq<char>>) -> bool {
    forall|i: int| 0 <= i < lines.len() ==> text::single_line(#[trigger] lines[i])
}

/// No comment delimiter holds a newline.
pub open spec fn one_line_syntax(syntax: Option<scope::ScopeView>) -> bool {
    match syntax {
        Some(syntax) => {
            &&& forall|i: int|
                0 <= i < syntax.prefixes.len() ==> text::single_line(
                    #[trigger] syntax.prefixes[i],
                )
            &&& syntax.block is Some ==> text::single_line(syntax.block->0.start)
                && text::single_line(syntax.block->0.end)
        },
        None => true,
    }
}

proof fn lemma_byte_len_add(a: Seq<char>, b: Seq<char>)
    ensures
        buffer::byte_len(a + b) == buffer::byte_len(a) + buffer::byte_len(b),
        a.len() <= buffer::byte_len(a),
    decreases a.len(),
{
    if a.len() == 0 {
        assert(a + b =~= b);
    } else {
        lemma_byte_len_add(a.drop_first(), b);
        assert((a + b).drop_first() =~= a.drop_first() + b);
    }
}

proof fn lemma_chars_before(line: Seq<char>)
    requires
        buffer::byte_len(line) <= u32::MAX,
    ensures
        buffer::chars_before(line, 0) == 0,
        buffer::chars_before(line, buffer::byte_len(line) as u32) == line.len(),
{
    assert forall|n: int| 0 <= n <= line.len() implies n <= buffer::byte_len(
        #[trigger] line.take(n),
    ) && buffer::byte_len(line.take(n)) + (line.len() - n) <= buffer::byte_len(line) by {
        lemma_byte_len_add(line.take(n), line.skip(n));
        lemma_byte_len_add(line.skip(n), seq![]);
        assert(line.take(n) + line.skip(n) =~= line);
    }
    assert(line.take(0) =~= seq![]);
    assert(buffer::byte_len(line.take(0)) == 0);
    assert(line.take(line.len() as int) =~= line);
    assert(buffer::byte_len(line.take(line.len() as int)) == buffer::byte_len(line));
}

/// A newline ends the lines before it.
pub proof fn lemma_lines_after_newline(a: Seq<char>, b: Seq<char>)
    ensures
        comment::lines_of(a.push('\n') + b) == comment::lines_of(a) + comment::lines_of(b),
        comment::lines_of(b).len() > 0,
    decreases b.len(),
{
    let first = comment::lines_of(a);
    if b.len() == 0 {
        comment::lemma_lines_of_push(a, '\n');
        assert(a.push('\n') + b =~= a.push('\n'));
        assert(comment::lines_of(a.push('\n')) =~= first + comment::lines_of(b));
    } else {
        let c = b.last();
        let shorter = b.drop_last();
        let lines = comment::lines_of(shorter);
        lemma_lines_after_newline(a, shorter);
        assert(a.push('\n') + b =~= (a.push('\n') + shorter).push(c));
        comment::lemma_lines_of_push(a.push('\n') + shorter, c);
        let before = first + lines;
        if c != '\n' {
            assert(before.drop_last() =~= first + lines.drop_last());
            assert(before.last() == lines.last());
        }
        assert(comment::lines_of(a.push('\n') + b) =~= first + comment::lines_of(b));
    }
}

proof fn lemma_chars_before_is(line: Seq<char>, column: u32, n: int)
    requires
        0 <= n <= line.len(),
        buffer::byte_len(line.take(n)) == column,
    ensures
        buffer::chars_before(line, column) == n,
{
    let m = buffer::chars_before(line, column);
    assert(0 <= m <= line.len() && buffer::byte_len(line.take(m)) == column);
    let (short, long) = if n <= m {
        (n, m)
    } else {
        (m, n)
    };
    let between = line.subrange(short, long);
    lemma_byte_len_add(line.take(short), between);
    lemma_byte_len_add(between, seq![]);
    assert(line.take(short) + between =~= line.take(long));
}

/// An edit replaces the text between two places: what stands before the first on
/// its row and what stands behind the second on its row are kept, the new text goes
/// between them, and the rows above and below stay as they were.
pub proof fn law_edit_replaces_the_text_between(
    lines: Seq<Seq<char>>,
    edit: buffer::EditView,
    before: Seq<char>,
    behind: Seq<char>,
    gone_first: Seq<char>,
    gone_last: Seq<char>,
)
    requires
        edit.start.row <= edit.end.row < lines.len(),
        lines[edit.start.row as int] == before + gone_first,
        lines[edit.end.row as int] == gone_last + behind,
        vstd::utf8::encode_utf8(before).len() == edit.start.column,
        vstd::utf8::encode_utf8(gone_last).len() == edit.end.column,
    ensures
        buffer::edited(lines, edit) == lines.take(edit.start.row as int) + comment::lines_of(
            before + edit.text + behind,
        ) + lines.skip(edit.end.row + 1),
{
    let first = lines[edit.start.row as int];
    let last = lines[edit.end.row as int];
    assert(first.take(before.len() as int) =~= before);
    assert(last.take(gone_last.len() as int) =~= gone_last);
    assert(last.skip(gone_last.len() as int) =~= behind);
    lemma_chars_before_is(first, edit.start.column, before.len() as int);
    lemma_chars_before_is(last, edit.end.column, gone_last.len() as int);
}

/// Text and a newline put at the start of a row make rows of their own above it.
pub proof fn lemma_insert_rows(lines: Seq<Seq<char>>, row: u32, added: Seq<char>)
    requires
        row < lines.len(),
        buffer::byte_len(lines[row as int]) <= u32::MAX,
        rows_are_lines(lines),
    ensures
        ({
            let at = buffer::Point { row, column: 0 };
            buffer::edited(
                lines,
                buffer::EditView { start: at, end: at, text: added.push('\n') },
            ) == lines.take(row as int) + comment::lines_of(added) + lines.skip(row as int)
        }),
{
    let line = lines[row as int];
    let new = comment::lines_of(added);
    lemma_chars_before(line);
    assert(line.take(0) + added.push('\n') + line.skip(0) =~= added.push('\n') + line);
    lemma_lines_after_newline(added, line);
    comments::lemma_single_line(line);
    assert(lines.take(row as int) + (new + seq![line]) + lines.skip(row + 1) =~= lines.take(
        row as int,
    ) + new + lines.skip(row as int));
}

/// Text put in place of all of a row is what stands there then.
pub proof fn lemma_replace_row(lines: Seq<Seq<char>>, row: u32, added: Seq<char>)
    requires
        row < lines.len(),
        buffer::byte_len(lines[row as int]) <= u32::MAX,
    ensures
        ({
            let edit = buffer::EditView {
                start: buffer::Point { row, column: 0 },
                end: buffer::Point {
                    row,
                    column: buffer::byte_len(lines[row as int]) as u32,
                },
                text: added,
            };
            &&& buffer::edited(lines, edit) == lines.take(row as int) + comment::lines_of(added)
                + lines.skip(row + 1)
            &&& text::single_line(added) ==> buffer::edited(lines, edit) == lines.update(
                row as int,
                added,
            )
        }),
{
    let line = lines[row as int];
    lemma_chars_before(line);
    assert(line.take(0) + added + line.skip(line.len() as int) =~= added);
    if text::single_line(added) {
        comments::lemma_single_line(added);
        assert(lines.take(row as int) + seq![added] + lines.skip(row + 1) =~= lines.update(
            row as int,
            added,
        ));
    }
}

/// Deleting from the start of a row to the start of the next takes out the row.
pub proof fn lemma_remove_row(lines: Seq<Seq<char>>, row: u32)
    requires
        row + 1 < lines.len(),
        row < u32::MAX,
        buffer::byte_len(lines[row as int]) <= u32::MAX,
        buffer::byte_len(lines[row + 1]) <= u32::MAX,
        rows_are_lines(lines),
    ensures
        buffer::edited(
            lines,
            buffer::EditView {
                start: buffer::Point { row, column: 0 },
                end: buffer::Point { row: (row + 1) as u32, column: 0 },
                text: seq![],
            },
        ) == lines.remove(row as int),
{
    let line = lines[row as int];
    let next = lines[row + 1];
    lemma_chars_before(line);
    lemma_chars_before(next);
    assert(line.take(0) + Seq::<char>::empty() + next.skip(0) =~= next);
    comments::lemma_single_line(next);
    assert(lines.take(row as int) + seq![next] + lines.skip(row + 2) =~= lines.remove(row as int));
}

proof fn lemma_single_line_add(a: Seq<char>, b: Seq<char>)
    requires
        text::single_line(a),
        text::single_line(b),
    ensures
        text::single_line(a + b),
{
    assert forall|i: int| 0 <= i < (a + b).len() implies #[trigger] (a + b)[i] != '\n' by {
        if i < a.len() {
            assert((a + b)[i] == a[i]);
        } else {
            assert((a + b)[i] == b[i - a.len()]);
        }
    }
}

proof fn lemma_label_is_single_line(type_label: Seq<char>, span_rows: u32)
    requires
        labels::is_usable(type_label),
    ensures
        text::single_line(marker::label_text(type_label, span_rows)),
{
    let digits = decimal::decimal_text(span_rows as nat);
    decimal::lemma_decimal_round_trip(span_rows as nat);
    assert forall|i: int| 0 <= i < type_label.len() implies #[trigger] type_label[i] != '\n' by {
        assert(labels::is_label_char(type_label[i]));
    }
    assert forall|i: int| 0 <= i < digits.len() implies #[trigger] digits[i] != '\n' by {
        assert(decimal::is_digit(digits[i]));
    }
    lemma_single_line_add(type_label, seq![':', '+']);
    lemma_single_line_add(type_label + seq![':', '+'], digits);
    let body = marker::label_body(type_label, span_rows);
    lemma_single_line_add(seq!['['], body);
    lemma_single_line_add(seq!['['] + body, seq![']']);
}

proof fn lemma_marker_is_single_line(
    indent: Seq<char>,
    syntax: Option<scope::ScopeView>,
    existing: Option<Seq<char>>,
    label: Seq<char>,
    comment: Seq<char>,
)
    requires
        text::single_line(indent),
        one_line_syntax(syntax),
        text::single_line(label),
        text::single_line(comment),
        marker::marker_row(indent, syntax, existing, label, comment) is Some,
    ensures
        text::single_line(marker::marker_row(indent, syntax, existing, label, comment)->0),
{
    let space = seq![' '];
    let syn = syntax->0;
    match marker::row_style(syn, existing) {
        Some(marker::Style::Line(leader)) => {
            let i = if existing is Some && syn.prefixes.contains(existing->0) {
                choose|i: int| 0 <= i < syn.prefixes.len() && syn.prefixes[i] == leader
            } else {
                0
            };
            assert(text::single_line(syn.prefixes[i]));
            lemma_single_line_add(indent, leader);
            lemma_single_line_add(indent + leader, label);
            lemma_single_line_add(indent + leader + label, space);
            lemma_single_line_add(indent + leader + label + space, comment);
        },
        Some(marker::Style::Block(block)) => {
            let a = indent + block.start;
            lemma_single_line_add(indent, block.start);
            lemma_single_line_add(a, space);
            lemma_single_line_add(a + space, label);
            lemma_single_line_add(a + space + label, space);
            lemma_single_line_add(a + space + label + space, comment);
            lemma_single_line_add(a + space + label + space + comment, space);
            lemma_single_line_add(a + space + label + space + comment + space, block.end);
        },
        None => {},
    }
}

/// The row that submitting the popup of `editor` writes.
pub open spec fn written_row(editor: Editor) -> Seq<char> {
    let popup = editor.review_annotation_popup->0;
    let row = popup.anchor.row as int;
    marker::marker_row(
        text::indent_of(editor.line(row)),
        editor.syntax(row),
        marker::leader_of(editor.marker_at(row)),
        popup.label(),
        popup.comment(),
    )->0
}

/// The row that the popup of `editor` annotates.
pub open spec fn annotated_row(editor: Editor) -> int {
    editor.review_annotation_popup->0.anchor.row as int
}

proof fn lemma_indent_is_blank(line: Seq<char>)
    ensures
        trimming::blank(text::indent_of(line)),
        text::single_line(line) ==> text::single_line(text::indent_of(line)),
{
    let indent = text::indent_of(line);
    text::lemma_leading_count(line);
    assert forall|i: int| 0 <= i < indent.len() implies text::is_white_space(
        #[trigger] indent[i],
    ) by {
        assert(indent[i] == line[i]);
    }
    if text::single_line(line) {
        assert forall|i: int| 0 <= i < indent.len() implies #[trigger] indent[i] != '\n' by {
            assert(indent[i] == line[i]);
        }
    }
}

proof fn lemma_rows_are_lines(editor: Editor)
    requires
        editor.wf(),
    ensures
        rows_are_lines(editor.buffer.lines()),
{
    let lines = editor.buffer.lines();
    assert forall|i: int| 0 <= i < lines.len() implies text::single_line(#[trigger] lines[i]) by {
        assert(editor.buffer.rows@[i].wf());
    }
}

proof fn lemma_written(editor: Editor)
    requires
        editor.wf(),
        editor.submit_outcome() is Written,
    ensures
        editor.submit_outcome() == SubmitOutcome::Written(
            editor.writing(editor.review_annotation_popup->0.anchor.row, written_row(editor)),
        ),
        0 <= annotated_row(editor) < editor.buffer.lines().len(),
        editor.buffer.lines()[annotated_row(editor)] == editor.line(annotated_row(editor)),
        buffer::byte_len(editor.line(annotated_row(editor))) <= u32::MAX,
        rows_are_lines(editor.buffer.lines()),
{
    assert(editor.buffer.rows@[annotated_row(editor)].wf());
    lemma_rows_are_lines(editor);
}

/// The marker takes a single row, where no comment delimiter holds a newline.
pub proof fn law_marker_takes_one_row(editor: Editor)
    requires
        editor.wf(),
        editor.submit_outcome() is Written,
        one_line_syntax(editor.syntax(annotated_row(editor))),
    ensures
        text::single_line(written_row(editor)),
{
    let popup = editor.review_annotation_popup->0;
    let row = annotated_row(editor);
    lemma_written(editor);
    assert(text::single_line(editor.buffer.lines()[row]));
    lemma_indent_is_blank(editor.line(row));
    assert(labels::is_usable(text::texts(popup.types@)[popup.type_index as int]));
    lemma_label_is_single_line(popup.selected(), popup.span_rows);
    comments::law_comment_is_one_clean_line(popup.prompt_editor.text@);
    lemma_marker_is_single_line(
        text::indent_of(editor.line(row)),
        editor.syntax(row),
        marker::leader_of(editor.marker_at(row)),
        popup.label(),
        popup.comment(),
    );
}

/// A new marker goes above the annotated row, on a row of its own where it is a
/// single line, and every row of the buffer stays as it was.
pub proof fn law_new_marker_keeps_every_row(editor: Editor, edit: buffer::EditView)
    requires
        editor.wf(),
        editor.submit_outcome() == SubmitOutcome::Written(edit),
        editor.marker_at(annotated_row(editor)) is None,
    ensures
        ({
            let lines = editor.buffer.lines();
            let row = annotated_row(editor);
            let marker = written_row(editor);
            &&& buffer::edited(lines, edit) == lines.take(row) + comment::lines_of(marker)
                + lines.skip(row)
            &&& text::single_line(marker) ==> buffer::edited(lines, edit) == lines.insert(
                row,
                marker,
            )
        }),
{
    let lines = editor.buffer.lines();
    let row = annotated_row(editor);
    let marker = written_row(editor);
    lemma_written(editor);
    lemma_insert_rows(lines, editor.review_annotation_popup->0.anchor.row, marker);
    if text::single_line(marker) {
        comments::lemma_single_line(marker);
        assert(lines.take(row) + seq![marker] + lines.skip(row) =~= lines.insert(row, marker));
    }
}

/// Submitting on a row that is a marker replaces that row and no other.
pub proof fn law_edited_marker_replaces_its_row(editor: Editor, edit: buffer::EditView)
    requires
        editor.wf(),
        editor.submit_outcome() == SubmitOutcome::Written(edit),
        editor.marker_at(annotated_row(editor)) is Some,
    ensures
        ({
            let lines = editor.buffer.lines();
            let row = annotated_row(editor);
            let marker = written_row(editor);
            &&& buffer::edited(lines, edit) == lines.take(row) + comment::lines_of(marker)
                + lines.skip(row + 1)
            &&& text::single_line(marker) ==> buffer::edited(lines, edit) == lines.update(
                row,
                marker,
            )
        }),
{
    lemma_written(editor);
    lemma_replace_row(
        editor.buffer.lines(),
        editor.review_annotation_popup->0.anchor.row,
        written_row(editor),
    );
}

/// The style that the popup's marker gets.
pub open spec fn written_style(editor: Editor) -> Option<marker::Style> {
    let row = annotated_row(editor);
    marker::row_style(editor.syntax(row)->0, marker::leader_of(editor.marker_at(row)))
}

/// The comment leader that the popup's marker gets.
pub open spec fn written_leader(editor: Editor) -> Seq<char> {
    match written_style(editor)->0 {
        marker::Style::Line(leader) => leader,
        marker::Style::Block(block) => block.start,
    }
}

/// Whether the comment leader that the popup's marker gets is found again on the
/// row: no white space opens or closes the comment, and no other leader of the
/// language goes before it.
pub open spec fn leader_is_found_again(editor: Editor) -> bool {
    let popup = editor.review_annotation_popup->0;
    let syntax = editor.syntax(annotated_row(editor))->0;
    match written_style(editor)->0 {
        marker::Style::Line(leader) => {
            &&& text::trimmed_start(leader) == leader
            &&& markers::longest_leader(
                syntax,
                leader,
                popup.label() + seq![' '] + popup.comment(),
            )
        },
        marker::Style::Block(block) => {
            &&& text::trimmed_start(block.start) == block.start
            &&& text::trimmed_end(block.end) == block.end
            &&& markers::no_line_leader(syntax, written_row(editor))
        },
    }
}

/// The row that submitting writes is read back as a marker with the selected
/// type, the span and the comment of the popup, and with the leader that it was
/// written with.
pub proof fn law_submitted_marker_reads_back(editor: Editor)
    requires
        editor.wf(),
        editor.submit_outcome() is Written,
        editor.types().contains(editor.review_annotation_popup->0.selected()),
        leader_is_found_again(editor),
    ensures
        marker::parsed(
            written_row(editor),
            editor.syntax(annotated_row(editor)),
            editor.types(),
        ) == Some(
            marker::AnnotationView {
                type_label: editor.review_annotation_popup->0.selected(),
                span_rows: editor.review_annotation_popup->0.span_rows,
                text: editor.review_annotation_popup->0.comment(),
                leader: written_leader(editor),
            },
        ),
{
    let popup = editor.review_annotation_popup->0;
    let row = annotated_row(editor);
    let line = editor.line(row);
    let syntax = editor.syntax(row)->0;
    let had = marker::leader_of(editor.marker_at(row));
    lemma_indent_is_blank(line);
    types::law_types_are_valid(text::texts(editor.settings.review_annotation_types@));
    comments::law_comment_is_one_clean_line(popup.prompt_editor.text@);
    match marker::row_style(syntax, had)->0 {
        marker::Style::Line(leader) => {
            assert(syntax.prefixes.contains(leader)) by {
                if !(had is Some && syntax.prefixes.contains(had->0)) {
                    assert(syntax.prefixes[0] == leader);
                }
            }
            markers::law_line_marker_reads_back(
                text::indent_of(line),
                leader,
                popup.selected(),
                popup.span_rows,
                popup.comment(),
                syntax,
                editor.types(),
            );
        },
        marker::Style::Block(block) => {
            markers::law_block_marker_reads_back(
                text::indent_of(line),
                block,
                popup.selected(),
                popup.span_rows,
                popup.comment(),
                syntax,
                editor.types(),
            );
        },
    }
}

/// Rewriting a marker keeps the comment style it is written in: the leader
/// already on the row, and the terminator where it is a block comment.
pub proof fn law_rewriting_keeps_the_style(editor: Editor)
    requires
        editor.wf(),
        editor.submit_outcome() is Written,
        editor.marker_at(annotated_row(editor)) is Some,
    ensures
        ({
            let row = annotated_row(editor);
            let popup = editor.review_annotation_popup->0;
            let syntax = editor.syntax(row)->0;
            let had = editor.marker_at(row)->0.leader;
            let indent = text::indent_of(editor.line(row));
            &&& written_leader(editor) == had
            &&& written_row(editor) == (if syntax.prefixes.contains(had) {
                marker::line_row(indent, had, popup.label(), popup.comment())
            } else {
                marker::block_row(indent, syntax.block->0, popup.label(), popup.comment())
            })
        }),
{
    let row = annotated_row(editor);
    markers::law_marker_stands_behind_a_leader(
        editor.line(row),
        editor.syntax(row),
        editor.types(),
    );
}

/// Deleting takes out a row that is a marker and leaves every other row as it
/// was. A marker on the last row leaves an empty row behind.
pub proof fn law_delete_takes_only_a_marker(editor: Editor, edit: buffer::EditView)
    requires
        editor.wf(),
        editor.delete_outcome() == DeleteOutcome::Deleted(edit),
    ensures
        ({
            let lines = editor.buffer.lines();
            let row = editor.touched_rows().0 as int;
            &&& editor.marker_at(row) is Some
            &&& buffer::edited(lines, edit) == (if row + 1 < lines.len() {
                lines.remove(row)
            } else {
                lines.update(row, seq![])
            })
        }),
{
    let lines = editor.buffer.lines();
    let row = editor.touched_rows().0;
    lemma_rows_are_lines(editor);
    assert(editor.buffer.rows@[row as int].wf());
    if row + 1 < lines.len() {
        assert(editor.buffer.rows@[row + 1].wf());
        lemma_remove_row(lines, row);
    } else {
        lemma_replace_row(lines, row, seq![]);
    }
}

/// Deleting a marker just written on a row of its own gives back the buffer as
/// it was before.
pub proof fn law_delete_undoes_a_new_marker(
    before: Editor,
    written: buffer::EditView,
    after: Editor,
    deleted: buffer::EditView,
)
    requires
        before.wf(),
        before.submit_outcome() == SubmitOutcome::Written(written),
        before.marker_at(annotated_row(before)) is None,
        text::single_line(written_row(before)),
        after.wf(),
        after.buffer.lines() == buffer::edited(before.buffer.lines(), written),
        after.touched_rows().0 == annotated_row(before),
        after.delete_outcome() == DeleteOutcome::Deleted(deleted),
    ensures
        buffer::edited(after.buffer.lines(), deleted) == before.buffer.lines(),
{
    let row = annotated_row(before);
    let lines = before.buffer.lines();
    law_new_marker_keeps_every_row(before, written);
    lemma_written(before);
    law_delete_takes_only_a_marker(after, deleted);
    assert(lines.insert(row, written_row(before)).remove(row) =~= lines);
}

/// A marker just written can be visited and deleted: the row is one of the
/// markers that navigation stops at, and deleting it is not refused.
pub proof fn law_submitted_marker_is_a_marker_of_the_buffer(
    before: Editor,
    written: buffer::EditView,
    after: Editor,
)
    requires
        before.wf(),
        before.submit_outcome() == SubmitOutcome::Written(written),
        before.types().contains(before.review_annotation_popup->0.selected()),
        leader_is_found_again(before),
        text::single_line(written_row(before)),
        after.wf(),
        after.buffer.lines() == buffer::edited(before.buffer.lines(), written),
        after.syntax(annotated_row(before)) == before.syntax(annotated_row(before)),
        after.types() == before.types(),
        !after.is_deleted(annotated_row(before)),
    ensures
        after.is_stop(annotated_row(before)),
        after.touched_rows().0 == annotated_row(before) && !after.read_only
            ==> after.delete_outcome() is Deleted,
{
    let row = annotated_row(before);
    lemma_written(before);
    if before.marker_at(row) is None {
        law_new_marker_keeps_every_row(before, written);
    } else {
        law_edited_marker_replaces_its_row(before, written);
    }
    law_submitted_marker_reads_back(before);
    assert(row < after.buffer.lines().len());
    assert(after.buffer.lines()[row] == written_row(before));
    assert(after.line(row) == after.buffer.lines()[row]);
}

} // verus!
