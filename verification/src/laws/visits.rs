//! Laws of visiting and deleting markers.

use vstd::prelude::*;

use crate::buffer;
use crate::buffer::Point;
use crate::editor;
use crate::editor::{DeleteOutcome, Editor};
use crate::laws::editing;
use crate::laws::selections;
use crate::popup;

verus! {

/// Whether a row of a buffer is worth a visit: the working copy holds it, and its
/// text reads as a marker.
pub open spec fn is_live_marker(editor: Editor, row: int) -> bool {
    &&& !editor.buffer.rows@[row].deleted
    &&& selections::reading(editor.buffer.rows@[row], editor.settings) is Some
}

/// The first row that going to the next marker looks at: the one below the
/// cursor, where there can be one.
pub open spec fn first_below(row: u32) -> int {
    if row == u32::MAX {
        row as int
    } else {
        row + 1
    }
}

/// Going to the next marker selects a row below the cursor that the working copy
/// holds and whose text reads as a marker, and passes over no such row. Where no
/// row is selected there is none below.
pub proof fn law_next_reads_as_a_marker(editor: Editor)
    requires
        editor.wf(),
    ensures
        ({
            let from = first_below(editor.selection.start.row);
            let end = editor.buffer.rows@.len() as int;
            match editor.nearest_stop(true) {
                Some(found) => {
                    &&& from <= found < end
                    &&& !editor.buffer.rows@[found as int].deleted
                    &&& selections::reading(
                        editor.buffer.rows@[found as int],
                        editor.settings,
                    ) is Some
                    &&& forall|other: int|
                        from <= other < found ==> !#[trigger] is_live_marker(editor, other)
                },
                None => forall|other: int|
                    from <= other < end ==> !#[trigger] is_live_marker(editor, other),
            }
        }),
{
    let from = first_below(editor.selection.start.row);
    let end = editor.buffer.rows@.len() as int;
    editing::lemma_first_stop(editor, from, end);
    assert forall|other: int| 0 <= other < end implies #[trigger] is_live_marker(editor, other)
        == editor.is_stop(other) by {}
}

/// Going to the previous marker selects a row above the cursor that the working
/// copy holds and whose text reads as a marker, and passes over no such row. Where
/// no row is selected there is none above.
pub proof fn law_previous_reads_as_a_marker(editor: Editor)
    requires
        editor.wf(),
    ensures
        ({
            let row = editor.selection.start.row as int;
            match editor.nearest_stop(false) {
                Some(found) => {
                    &&& 0 <= found < row
                    &&& !editor.buffer.rows@[found as int].deleted
                    &&& selections::reading(
                        editor.buffer.rows@[found as int],
                        editor.settings,
                    ) is Some
                    &&& forall|other: int|
                        found < other < row ==> !#[trigger] is_live_marker(editor, other)
                },
                None => forall|other: int|
                    0 <= other < row ==> !#[trigger] is_live_marker(editor, other),
            }
        }),
{
    let row = editor.selection.start.row as int;
    editing::lemma_last_stop(editor, row);
    assert forall|other: int| 0 <= other < row implies #[trigger] is_live_marker(editor, other)
        == editor.is_stop(other) by {}
}

/// A visit selects the start of the row that was found; without one a notice says
/// in which direction there is none, where there is a workspace to show it.
pub proof fn law_visit_selects_the_row_or_says_there_is_none(editor: Editor, forward: bool)
    ensures
        editor.nearest_stop(forward) is Some ==> editor.visiting(forward) == seq![
            popup::EffectView::SelectAndCenter(
                Point { row: editor.nearest_stop(forward)->0, column: 0 },
            ),
        ],
        editor.nearest_stop(forward) is None && !editor.in_workspace ==> editor.visiting(
            forward,
        ).len() == 0,
        editor.nearest_stop(forward) is None && editor.in_workspace ==> editor.visiting(forward)
            == seq![
            popup::EffectView::ShowToast(
                if forward {
                    editor::NONE_BELOW_NOTICE@
                } else {
                    editor::NONE_ABOVE_NOTICE@
                },
            ),
        ],
{
}

/// Deleting is refused exactly for the reason that the notice gives: first that
/// the buffer is read-only, then that the row is deleted, then that its text does
/// not read as a marker. Anything else is deleted: from the start of the row the
/// selection starts on to the start of the next, or to its own end where it is the
/// last.
pub proof fn law_delete_takes_the_marker_at_the_cursor(editor: Editor)
    requires
        editor.wf(),
    ensures
        ({
            let at = editor.selection.start.row;
            let row = editor.buffer.rows@[at as int];
            let found = selections::reading(row, editor.settings);
            &&& editor.read_only ==> editor.delete_outcome() == DeleteOutcome::Refused(
                editor::READ_ONLY_NOTICE@,
            )
            &&& !editor.read_only && row.deleted ==> editor.delete_outcome()
                == DeleteOutcome::Refused(editor::BASE_TEXT_NOTICE@)
            &&& !editor.read_only && !row.deleted && found is None ==> editor.delete_outcome()
                == DeleteOutcome::Refused(editor::NOT_A_MARKER_NOTICE@)
            &&& !editor.read_only && !row.deleted && found is Some ==> editor.delete_outcome()
                == DeleteOutcome::Deleted(
                buffer::EditView {
                    start: Point { row: at, column: 0 },
                    end: if at == editor.buffer.rows@.len() - 1 {
                        Point {
                            row: at,
                            column: vstd::utf8::encode_utf8(row.text@).len() as u32,
                        }
                    } else {
                        Point { row: (at + 1) as u32, column: 0 }
                    },
                    text: seq![],
                },
            )
        }),
{
}

} // verus!
