//! Laws of the editor and its popup.

use vstd::prelude::*;

use crate::buffer::MultiBufferSnapshot;
use crate::editor;
use crate::editor::{Editor, Resolution};
use crate::labels;
use crate::laws::markers;
use crate::laws::searching;
use crate::laws::types;
use crate::marker;
use crate::popup;
use crate::scope;
use crate::text;

verus! {

/// A comment is written exactly where it is valid source: in a writable buffer,
/// on a row that is still open and that the working copy holds, in a language
/// with comments, and where it does not close its own comment.
pub proof fn law_comment_is_written_exactly_where_valid(editor: Editor)
    requires
        editor.wf(),
        editor.review_annotation_popup is Some,
        editor.review_annotation_popup->0.comment().len() > 0,
    ensures
        ({
            let popup = editor.review_annotation_popup->0;
            let row = popup.anchor.row as int;
            editor.submit_outcome() is Written <==> {
                &&& !editor.read_only
                &&& popup.anchor.valid
                &&& !editor.is_deleted(row)
                &&& scope::can_comment(editor.syntax(row))
                &&& marker::early_end(
                    editor.syntax(row),
                    marker::leader_of(editor.marker_at(row)),
                    popup.comment(),
                ) is None
            }
        }),
        editor.submit_outcome() is Written || editor.submit_outcome() is Refused,
{
}

/// A comment that is not written stays in the popup, and nothing is edited.
pub proof fn law_refused_comment_is_kept(before: Editor, after: Editor)
    requires
        before.submits_as(after, before.submit_outcome()),
        before.review_annotation_popup is Some,
        before.review_annotation_popup->0.comment().len() > 0,
        !(before.submit_outcome() is Written),
    ensures
        after.review_annotation_popup == before.review_annotation_popup,
        after.requests() == before.requests() || exists|message: Seq<char>|
            after.requests() == before.requests().push(popup::EffectView::ShowToast(message)),
{
    match before.submit_outcome() {
        editor::SubmitOutcome::Refused(message) => {
            if before.in_workspace {
                assert(before.requests() + before.notice(message) =~= before.requests().push(
                    popup::EffectView::ShowToast(message),
                ));
            } else {
                assert(before.requests() + before.notice(message) =~= before.requests());
            }
        },
        _ => {},
    }
}

/// The popup opens exactly on a row where a marker would be valid source.
pub proof fn law_popup_opens_exactly_where_valid(editor: Editor)
    requires
        editor.wf(),
    ensures
        ({
            let row = editor.touched_rows().0 as int;
            editor.resolution() is Target <==> {
                &&& !editor.read_only
                &&& !editor.is_deleted(row)
                &&& scope::can_comment(editor.syntax(row))
            }
        }),
{
}

/// A popup that opens on a marker shows it: its type is selected, its text
/// stands in the prompt, and its span is kept.
pub proof fn law_popup_shows_the_marker(editor: Editor, target: popup::TargetView)
    requires
        editor.wf(),
        editor.resolution() == Resolution::Target(target),
        target.existing is Some,
    ensures
        ({
            let request = editor.request_for(target);
            &&& 0 <= request.type_index < request.types.len()
            &&& request.types[request.type_index] == target.existing->0.type_label
            &&& request.text == target.existing->0.text
            &&& request.span_rows == target.existing->0.span_rows
        }),
{
    let row = editor.touched_rows().0 as int;
    markers::law_marker_carries_an_offered_type(
        editor.line(row),
        editor.syntax(row),
        editor.types(),
    );
    editor.types().index_of_first_ensures(target.existing->0.type_label);
}

/// A popup that opens elsewhere starts with the first type, an empty prompt and
/// the span of the selection.
pub proof fn law_popup_starts_fresh(editor: Editor, target: popup::TargetView)
    requires
        editor.wf(),
        editor.resolution() == Resolution::Target(target),
        target.existing is None,
    ensures
        ({
            let request = editor.request_for(target);
            let (first, last) = editor.touched_rows();
            &&& request.type_index == 0
            &&& request.types.len() > 0
            &&& request.text.len() == 0
            &&& request.span_rows == editor::live_span(editor.buffer, first as int, last as int)
        }),
{
    let (first, last) = editor.touched_rows();
    types::law_types_are_valid(text::texts(editor.settings.review_annotation_types@));
    law_span_counts_live_rows(editor.buffer, first as int, last as int);
}

/// A selection that ends at the start of a row covers the same rows as one that
/// ends anywhere on the row before.
pub proof fn law_column_zero_does_not_widen(wide: Editor, narrow: Editor)
    requires
        wide.selection.start.row == narrow.selection.start.row,
        wide.selection.end.column == 0,
        narrow.selection.end.column > 0,
        wide.selection.end.row == narrow.selection.end.row + 1,
        narrow.selection.end.row >= narrow.selection.start.row,
    ensures
        wide.touched_rows() == narrow.touched_rows(),
{
}

/// The span never counts a deleted row: it is at most the distance of the rows,
/// and all of it where none is deleted.
pub proof fn law_span_counts_live_rows(snapshot: MultiBufferSnapshot, first: int, last: int)
    requires
        first <= last,
    ensures
        editor::live_span(snapshot, first, last) <= last - first,
        (forall|row: int| first <= row <= last ==> !(#[trigger] snapshot.rows@[row]).deleted)
            ==> editor::live_span(snapshot, first, last) == last - first,
        (exists|row: int| first <= row <= last && (#[trigger] snapshot.rows@[row]).deleted)
            ==> editor::live_span(snapshot, first, last) < last - first || last == first,
{
    lemma_live_count(snapshot, first, last + 1);
}

proof fn lemma_live_count(snapshot: MultiBufferSnapshot, first: int, end: int)
    requires
        first <= end,
    ensures
        editor::live_count(snapshot, first, end) <= end - first,
        (forall|row: int| first <= row < end ==> !(#[trigger] snapshot.rows@[row]).deleted)
            ==> editor::live_count(snapshot, first, end) == end - first,
        (exists|row: int| first <= row < end && (#[trigger] snapshot.rows@[row]).deleted)
            ==> editor::live_count(snapshot, first, end) < end - first,
    decreases end - first,
{
    if first < end {
        lemma_live_count(snapshot, first, end - 1);
        assert(snapshot.rows@[end - 1].deleted ==> exists|row: int|
            first <= row < end && (#[trigger] snapshot.rows@[row]).deleted);
        if !snapshot.rows@[end - 1].deleted && exists|row: int|
            first <= row < end && (#[trigger] snapshot.rows@[row]).deleted {
            let row = choose|row: int|
                first <= row < end && (#[trigger] snapshot.rows@[row]).deleted;
            assert(first <= row < end - 1);
        }
    }
}

/// Tab and Backtab undo each other.
pub proof fn law_cycling_back(index: int, len: int, reverse: bool)
    requires
        0 <= index < len,
    ensures
        0 <= popup::cycled(index, len, reverse) < len,
        popup::cycled(popup::cycled(index, len, reverse), len, !reverse) == index,
{
    popup::lemma_cycled(index, len, reverse);
    popup::lemma_cycled(popup::cycled(index, len, reverse), len, !reverse);
}

/// The position after `times` Tabs, or Backtabs.
pub open spec fn cycled_times(index: int, len: int, times: nat, reverse: bool) -> int
    decreases times,
{
    if times == 0 {
        index
    } else {
        popup::cycled(cycled_times(index, len, (times - 1) as nat, reverse), len, reverse)
    }
}

/// Tab goes through the types in list order and around, Backtab the other way:
/// `times` of either lead that many places on, and as many as there are types
/// lead back.
pub proof fn law_cycling_goes_around(index: int, len: int, times: nat, reverse: bool)
    requires
        0 <= index < len,
    ensures
        cycled_times(index, len, times, reverse) == (if reverse {
            (index - times) % len
        } else {
            (index + times) % len
        }),
        times == len ==> cycled_times(index, len, times, reverse) == index,
    decreases times,
{
    vstd::arithmetic::div_mod::lemma_small_mod(index as nat, len as nat);
    if times > 0 {
        law_cycling_goes_around(index, len, (times - 1) as nat, reverse);
        let step = if reverse {
            len - 1
        } else {
            1
        };
        let before = if reverse {
            index - times + 1
        } else {
            index + times - 1
        };
        let at = before % len;
        vstd::arithmetic::div_mod::lemma_add_mod_noop(before, step, len);
        vstd::arithmetic::div_mod::lemma_add_mod_noop(at, step, len);
        vstd::arithmetic::div_mod::lemma_mod_twice(before, len);
        vstd::arithmetic::div_mod::lemma_mod_add_multiples_vanish(index - times, len);
        vstd::arithmetic::div_mod::lemma_mod_add_multiples_vanish(index, len);
        if times == len {
            vstd::arithmetic::div_mod::lemma_mod_add_multiples_vanish(index - len, len);
        }
    }
}

pub proof fn lemma_first_stop(editor: Editor, from: int, end: int)
    requires
        0 <= from,
        end <= u32::MAX + 1,
    ensures
        (match editor.first_stop(from, end) {
            Some(row) => {
                &&& from <= row < end
                &&& editor.is_stop(row as int)
                &&& forall|other: int| from <= other < row ==> !#[trigger] editor.is_stop(other)
            },
            None => forall|other: int| from <= other < end ==> !#[trigger] editor.is_stop(other),
        }),
    decreases end - from,
{
    if from < end && !editor.is_stop(from) {
        lemma_first_stop(editor, from + 1, end);
    }
}

pub proof fn lemma_last_stop(editor: Editor, end: int)
    requires
        end <= u32::MAX,
    ensures
        (match editor.last_stop(end) {
            Some(row) => {
                &&& 0 <= row < end
                &&& editor.is_stop(row as int)
                &&& forall|other: int| row < other < end ==> !#[trigger] editor.is_stop(other)
            },
            None => forall|other: int| 0 <= other < end ==> !#[trigger] editor.is_stop(other),
        }),
    decreases end,
{
    if 0 < end && !editor.is_stop(end - 1) {
        lemma_last_stop(editor, end - 1);
    }
}

/// Going to the next marker lands on a marker of the working copy below the
/// cursor, with none between; it fails only where there is none below.
pub proof fn law_next_is_the_nearest_below(editor: Editor)
    requires
        editor.wf(),
        editor.touched_rows().0 < u32::MAX,
    ensures
        ({
            let row = editor.touched_rows().0 as int;
            match editor.nearest_stop(true) {
                Some(found) => {
                    &&& row < found < editor.buffer.rows@.len()
                    &&& editor.is_stop(found as int)
                    &&& forall|other: int|
                        row < other < found ==> !#[trigger] editor.is_stop(other)
                },
                None => forall|other: int|
                    row < other < editor.buffer.rows@.len() ==> !#[trigger] editor.is_stop(other),
            }
        }),
{
    lemma_first_stop(
        editor,
        editor.touched_rows().0 + 1,
        editor.buffer.rows@.len() as int,
    );
}

/// Going to the previous marker lands on a marker of the working copy above the
/// cursor, with none between; it fails only where there is none above.
pub proof fn law_previous_is_the_nearest_above(editor: Editor)
    requires
        editor.wf(),
    ensures
        ({
            let row = editor.touched_rows().0 as int;
            match editor.nearest_stop(false) {
                Some(found) => {
                    &&& 0 <= found < row
                    &&& editor.is_stop(found as int)
                    &&& forall|other: int|
                        found < other < row ==> !#[trigger] editor.is_stop(other)
                },
                None => forall|other: int|
                    0 <= other < row ==> !#[trigger] editor.is_stop(other),
            }
        }),
{
    lemma_last_stop(editor, editor.touched_rows().0 as int);
}

/// From one marker to the next and back again.
pub proof fn law_previous_undoes_next(here: Editor, there: Editor)
    requires
        here.wf(),
        here.touched_rows().0 < u32::MAX,
        here.is_stop(here.touched_rows().0 as int),
        here.nearest_stop(true) == Some(there.touched_rows().0),
        there.wf(),
        there.buffer == here.buffer,
        there.settings == here.settings,
    ensures
        there.nearest_stop(false) == Some(here.touched_rows().0),
{
    law_next_is_the_nearest_below(here);
    law_previous_is_the_nearest_above(there);
    let a = here.touched_rows().0 as int;
    let b = there.touched_rows().0 as int;
    assert(there.is_stop(a));
    assert forall|other: int| a < other < b implies !#[trigger] there.is_stop(other) by {
        assert(!here.is_stop(other));
    }
}

/// An editor is valid exactly where it has a row, no row holds a newline, rows and
/// columns fit in 32 bits, the selection lies on its rows, and so does a popup whose
/// line is still open, which offers usable types, none twice, and has one selected.
pub proof fn law_valid_editor_fits_together(editor: Editor)
    ensures
        editor.wf() <==> {
            let rows = editor.buffer.rows@;
            &&& 1 <= rows.len() <= 0x1_0000_0000
            &&& forall|i: int|
                0 <= i < rows.len() ==> !(#[trigger] rows[i]).text@.contains('\n')
                    && vstd::utf8::encode_utf8(rows[i].text@).len() < 0x1_0000_0000
            &&& editor.selection.start.row < rows.len()
            &&& editor.selection.end.row < rows.len()
            &&& editor.review_annotation_popup is Some ==> {
                let popup = editor.review_annotation_popup->0;
                &&& popup.type_index < popup.types@.len()
                &&& forall|i: int|
                    0 <= i < popup.types@.len() ==> labels::is_usable(#[trigger] popup.types@[i]@)
                &&& forall|i: int, j: int|
                    0 <= i < j < popup.types@.len() ==> #[trigger] popup.types@[i]@
                        != #[trigger] popup.types@[j]@
                &&& popup.anchor.valid ==> popup.anchor.row < rows.len()
            }
        },
{
    let rows = editor.buffer.rows@;
    assert forall|i: int| 0 <= i < rows.len() implies (#[trigger] rows[i]).wf() == (
    !rows[i].text@.contains('\n') && vstd::utf8::encode_utf8(rows[i].text@).len()
        < 0x1_0000_0000) by {
        searching::law_single_line_holds_no_newline(rows[i].text@);
    }
    if editor.review_annotation_popup is Some {
        let popup = editor.review_annotation_popup->0;
        let types = text::texts(popup.types@);
        assert forall|i: int| 0 <= i < popup.types@.len() implies #[trigger] types[i]
            == popup.types@[i]@ by {}
        if editor.wf() {
            assert forall|i: int| 0 <= i < popup.types@.len() implies labels::is_usable(
                #[trigger] popup.types@[i]@,
            ) by {
                assert(labels::is_usable(types[i]));
            }
            assert forall|i: int, j: int| 0 <= i < j < popup.types@.len() implies
                #[trigger] popup.types@[i]@ != #[trigger] popup.types@[j]@ by {
                assert(types[i] != types[j]);
            }
        }
    }
}

} // verus!
