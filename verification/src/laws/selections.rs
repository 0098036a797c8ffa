//! Laws of the selection: where the popup opens, and what it opens with.

use vstd::prelude::*;

use crate::buffer;
use crate::buffer::{BufferRow, MultiBufferSnapshot, Point};
use crate::comment;
use crate::editor;
use crate::editor::{Editor, Resolution, SubmitOutcome};
use crate::labels;
use crate::labels::EditorSettings;
use crate::laws::documents;
use crate::laws::editing;
use crate::laws::types;
use crate::marker;
use crate::popup;
use crate::popup::{Bias, BlockPlacement, BlockStyle};
use crate::text;

verus! {

/// What the text of a row reads as, with the row's own comment syntax and the
/// types that the settings offer.
pub open spec fn reading(row: BufferRow, settings: EditorSettings) -> Option<
    marker::AnnotationView,
> {
    marker::parsed(
        row.text@,
        row.syntax(),
        labels::normalized(text::texts(settings.review_annotation_types@)),
    )
}

/// The first row a selection touches is the one it starts on. A row further down
/// is touched exactly where its first place lies before the end of the selection.
pub proof fn law_selection_touches_the_rows_it_reaches_into(editor: Editor, row: int)
    ensures
        editor.touched_rows().0 == editor.selection.start.row,
        editor.touched_rows().0 <= editor.touched_rows().1,
        editor.touched_rows().0 <= row <= editor.touched_rows().1 <==> {
            let start = editor.selection.start.row;
            let end = editor.selection.end;
            row == start || start < row && (row < end.row || row == end.row && end.column > 0)
        },
{
}

/// The rows from `first` to `last` that are not base text of a deleted hunk.
pub open spec fn live_rows(snapshot: MultiBufferSnapshot, first: int, last: int) -> Set<int> {
    Set::new(|row: int| first <= row <= last && !snapshot.rows@[row].deleted)
}

proof fn lemma_live_rows(snapshot: MultiBufferSnapshot, first: int, last: int)
    ensures
        live_rows(snapshot, first, last).finite(),
        live_rows(snapshot, first, last).len() == editor::live_count(snapshot, first, last + 1),
    decreases last + 1 - first,
{
    let rows = live_rows(snapshot, first, last);
    if last < first {
        assert(rows =~= Set::<int>::empty());
    } else {
        lemma_live_rows(snapshot, first, last - 1);
        let before = live_rows(snapshot, first, last - 1);
        if snapshot.rows@[last].deleted {
            assert(rows =~= before);
        } else {
            assert(rows =~= before.insert(last));
        }
    }
}

/// The span is one less than the number of selected rows that the working copy
/// holds, and zero where it holds none of them.
pub proof fn law_span_is_one_less_than_the_live_rows(
    snapshot: MultiBufferSnapshot,
    first: int,
    last: int,
)
    ensures
        live_rows(snapshot, first, last).finite(),
        live_rows(snapshot, first, last).len() > 0 ==> editor::live_span(snapshot, first, last) + 1
            == live_rows(snapshot, first, last).len(),
        live_rows(snapshot, first, last).len() == 0 ==> editor::live_span(snapshot, first, last)
            == 0,
{
    lemma_live_rows(snapshot, first, last);
}

/// A row put in anywhere between the first and the last adds one to the span
/// where the working copy holds it, and nothing where it is deleted.
pub proof fn law_only_a_live_row_widens_the_span(
    before: MultiBufferSnapshot,
    after: MultiBufferSnapshot,
    first: int,
    last: int,
    at: int,
    row: BufferRow,
)
    requires
        0 <= first <= last < before.rows@.len(),
        first <= at <= last + 1,
        after.rows@ == before.rows@.insert(at, row),
        live_rows(before, first, last).len() > 0,
    ensures
        editor::live_span(after, first, last + 1) == editor::live_span(before, first, last) + (
        if row.deleted {
            0int
        } else {
            1int
        }),
{
    lemma_insert_live(before, after, first, last + 1, at, row);
    lemma_live_rows(before, first, last);
}

proof fn lemma_insert_live(
    before: MultiBufferSnapshot,
    after: MultiBufferSnapshot,
    first: int,
    end: int,
    at: int,
    row: BufferRow,
)
    requires
        0 <= first <= at <= end <= before.rows@.len(),
        after.rows@ == before.rows@.insert(at, row),
    ensures
        editor::live_count(after, first, end + 1) == editor::live_count(before, first, end) + (
        if row.deleted {
            0int
        } else {
            1int
        }),
    decreases end - at,
{
    if at < end {
        lemma_insert_live(before, after, first, end - 1, at, row);
        assert(after.rows@[end] == before.rows@[end - 1]);
    } else {
        assert(after.rows@[end] == row);
        lemma_same_live(before, after, first, end);
    }
}

proof fn lemma_same_live(a: MultiBufferSnapshot, b: MultiBufferSnapshot, first: int, end: int)
    requires
        forall|i: int| first <= i < end ==> #[trigger] a.rows@[i] == b.rows@[i],
    ensures
        editor::live_count(a, first, end) == editor::live_count(b, first, end),
    decreases end - first,
{
    if first < end {
        assert(a.rows@[end - 1] == b.rows@[end - 1]);
        lemma_same_live(a, b, first, end - 1);
    }
}

/// The popup is aimed at the row the selection starts on, however many rows the
/// selection has. The marker to edit is what that row reads as; its span is kept.
/// A row without a marker takes the number of further live rows selected.
pub proof fn law_target_is_the_start_of_the_selection(editor: Editor, target: popup::TargetView)
    requires
        editor.wf(),
        editor.resolution() == Resolution::Target(target),
    ensures
        ({
            let row = editor.selection.start.row;
            let last = editor.touched_rows().1;
            let live = live_rows(editor.buffer, row as int, last as int);
            &&& target.row == row
            &&& target.existing == reading(editor.buffer.rows@[row as int], editor.settings)
            &&& target.existing is Some ==> target.span_rows == target.existing->0.span_rows
            &&& target.existing is None ==> live.finite() && target.span_rows + 1 == live.len()
        }),
{
    let row = editor.selection.start.row as int;
    let last = editor.touched_rows().1 as int;
    editing::law_span_counts_live_rows(editor.buffer, row, last);
    law_span_is_one_less_than_the_live_rows(editor.buffer, row, last);
    let live = live_rows(editor.buffer, row, last);
    assert(live.contains(row));
    if live.len() == 0 {
        assert(live =~= Set::<int>::empty());
    }
}

/// The popup is refused exactly for the reason that the notice gives: first that
/// the buffer is read-only, then that the row is deleted, then that the language
/// has no comments. Anywhere else it opens.
pub proof fn law_popup_is_refused_for_the_reason_given(editor: Editor)
    requires
        editor.wf(),
    ensures
        ({
            let row = editor.buffer.rows@[editor.selection.start.row as int];
            let comments = row.syntax() is Some && (row.syntax()->0.prefixes.len() > 0
                || row.syntax()->0.block is Some);
            &&& editor.read_only ==> editor.resolution() == Resolution::Refused(
                editor::READ_ONLY_NOTICE@,
            )
            &&& !editor.read_only && row.deleted ==> editor.resolution() == Resolution::Refused(
                editor::DELETED_LINE_NOTICE@,
            )
            &&& !editor.read_only && !row.deleted && !comments ==> editor.resolution()
                == Resolution::Refused(editor::NO_SYNTAX_NOTICE@)
            &&& !editor.read_only && !row.deleted && comments ==> editor.resolution() is Target
        }),
{
}

/// The popup that opens is anchored before the row that the selection starts on,
/// and drawn below the end of that row. It offers the types of the settings. On a
/// marker it shows that marker; elsewhere the prompt is empty and the first type
/// is selected.
pub proof fn law_popup_opens_on_the_start_of_the_selection(
    editor: Editor,
    target: popup::TargetView,
)
    requires
        editor.wf(),
        editor.resolution() == Resolution::Target(target),
    ensures
        ({
            let row = editor.selection.start.row;
            let line = editor.buffer.rows@[row as int];
            let found = reading(line, editor.settings);
            let request = editor.request_for(target);
            &&& request.anchor.row == row
            &&& request.anchor.valid
            &&& request.anchor.bias == Bias::Left
            &&& request.block.placement == BlockPlacement::Below {
                point: Point { row, column: vstd::utf8::encode_utf8(line.text@).len() as u32 },
                bias: Bias::Right,
            }
            &&& request.block.style == BlockStyle::Sticky
            &&& request.block.height == Some(2u32)
            &&& request.block.priority == 0
            &&& request.placeholder == popup::PLACEHOLDER@
            &&& request.types == labels::normalized(
                text::texts(editor.settings.review_annotation_types@),
            )
            &&& 0 <= request.type_index < request.types.len()
            &&& request.span_rows == target.span_rows
            &&& found is Some ==> {
                &&& request.types[request.type_index] == found->0.type_label
                &&& request.text == found->0.text
                &&& request.span_rows == found->0.span_rows
            }
            &&& found is None ==> request.type_index == 0 && request.text.len() == 0
        }),
{
    law_target_is_the_start_of_the_selection(editor, target);
    types::law_types_are_valid(text::texts(editor.settings.review_annotation_types@));
    if target.existing is Some {
        editing::law_popup_shows_the_marker(editor, target);
    }
}

/// Annotating a selection puts the marker directly above the row the selection
/// starts on: the rows above and that row with all below it stay as they were.
/// `opened` is the editor once the popup is open and something was typed.
pub proof fn law_annotation_goes_above_the_start_of_the_selection(
    editor: Editor,
    target: popup::TargetView,
    opened: Editor,
    edit: buffer::EditView,
)
    requires
        editor.wf(),
        editor.resolution() == Resolution::Target(target),
        reading(
            editor.buffer.rows@[editor.selection.start.row as int],
            editor.settings,
        ) is None,
        opened.wf(),
        opened.buffer == editor.buffer,
        opened.settings == editor.settings,
        opened.review_annotation_popup is Some,
        opened.review_annotation_popup->0.anchor == editor.request_for(target).anchor,
        opened.submit_outcome() == SubmitOutcome::Written(edit),
    ensures
        ({
            let row = editor.selection.start.row;
            let lines = editor.buffer.lines();
            &&& edit.start == Point { row, column: 0 }
            &&& edit.end == Point { row, column: 0 }
            &&& edit.text.len() > 0 && edit.text.last() == '\n'
            &&& buffer::edited(lines, edit) == lines.take(row as int) + comment::lines_of(
                edit.text.drop_last(),
            ) + lines.skip(row as int)
        }),
{
    law_popup_opens_on_the_start_of_the_selection(editor, target);
    documents::law_new_marker_keeps_every_row(opened, edit);
    let written = documents::written_row(opened);
    assert(edit.text == written.push('\n'));
    assert(edit.text.drop_last() =~= written);
}

/// Editing a marker replaces the row the selection starts on, and no other.
pub proof fn law_marker_is_edited_in_place(
    editor: Editor,
    target: popup::TargetView,
    opened: Editor,
    edit: buffer::EditView,
)
    requires
        editor.wf(),
        editor.resolution() == Resolution::Target(target),
        reading(
            editor.buffer.rows@[editor.selection.start.row as int],
            editor.settings,
        ) is Some,
        opened.wf(),
        opened.buffer == editor.buffer,
        opened.settings == editor.settings,
        opened.review_annotation_popup is Some,
        opened.review_annotation_popup->0.anchor == editor.request_for(target).anchor,
        opened.submit_outcome() == SubmitOutcome::Written(edit),
    ensures
        ({
            let row = editor.selection.start.row;
            let lines = editor.buffer.lines();
            &&& edit.start == Point { row, column: 0 }
            &&& edit.end == Point {
                row,
                column: vstd::utf8::encode_utf8(lines[row as int]).len() as u32,
            }
            &&& buffer::edited(lines, edit) == lines.take(row as int) + comment::lines_of(
                edit.text,
            ) + lines.skip(row + 1)
        }),
{
    law_popup_opens_on_the_start_of_the_selection(editor, target);
    documents::law_edited_marker_replaces_its_row(opened, edit);
}

} // verus!
