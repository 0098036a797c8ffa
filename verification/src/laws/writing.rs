//! Laws of writing a marker: the text of its row, the edit that puts it there,
//! and what becomes of the popup.

use vstd::prelude::*;

use crate::buffer;
use crate::buffer::Point;
use crate::comment;
use crate::decimal;
use crate::editor;
use crate::editor::{Editor, SubmitOutcome};
use crate::laws::comments;
use crate::laws::searching;
use crate::laws::selections;
use crate::laws::trimming;
use crate::marker;
use crate::popup;
use crate::popup::ReviewAnnotationPopup;
use crate::scope;
use crate::text;

verus! {

/// The bracketed part of a marker is its type, with the span behind `:+` where the
/// comment covers more than one row.
pub proof fn law_label_is_bracketed(type_label: Seq<char>, span_rows: u32)
    ensures
        span_rows == 0 ==> marker::label_text(type_label, span_rows) == seq!['['] + type_label
            + seq![']'],
        span_rows > 0 ==> marker::label_text(type_label, span_rows) == seq!['['] + type_label
            + seq![':', '+'] + decimal::decimal_text(span_rows as nat) + seq![']'],
{
    assert(marker::label_text(type_label, span_rows) =~= (if span_rows == 0 {
        seq!['['] + type_label + seq![']']
    } else {
        seq!['['] + type_label + seq![':', '+'] + decimal::decimal_text(span_rows as nat)
            + seq![']']
    }));
}

/// A row behind a line leader: the indentation, the leader, the label, a space and
/// the text.
pub open spec fn line_comment(
    indent: Seq<char>,
    leader: Seq<char>,
    label: Seq<char>,
    text: Seq<char>,
) -> Seq<char> {
    indent + leader + label + seq![' '] + text
}

/// A row in a block comment: the indentation, the start delimiter, the label, the
/// text and the end delimiter, with a space between each two of the last four.
pub open spec fn block_comment(
    indent: Seq<char>,
    block: scope::BlockView,
    label: Seq<char>,
    text: Seq<char>,
) -> Seq<char> {
    indent + block.start + seq![' '] + label + seq![' '] + text + seq![' '] + block.end
}

/// A new marker stands behind the first line leader of the language, or in its
/// block comment where it has no line leader. A marker that replaces another keeps
/// its line leader where the language has it, or else its block comment; one whose
/// leader the language does not have is written like a new one. Without comments
/// there is no row to write.
pub proof fn law_marker_is_written_in_the_syntax_of_the_language(
    indent: Seq<char>,
    syntax: scope::ScopeView,
    existing: Option<Seq<char>>,
    label: Seq<char>,
    text: Seq<char>,
)
    ensures
        marker::marker_row(indent, None, existing, label, text) is None,
        ({
            let row = marker::marker_row(indent, Some(syntax), existing, label, text);
            let line_kept = existing is Some && syntax.prefixes.contains(existing->0);
            let block_kept = existing is Some && !line_kept && syntax.block is Some
                && syntax.block->0.start == existing->0;
            let fresh = !line_kept && !block_kept;
            &&& line_kept ==> row == Some(line_comment(indent, existing->0, label, text))
            &&& block_kept ==> row == Some(block_comment(indent, syntax.block->0, label, text))
            &&& fresh && syntax.prefixes.len() > 0 ==> row == Some(
                line_comment(indent, syntax.prefixes[0], label, text),
            )
            &&& fresh && syntax.prefixes.len() == 0 && syntax.block is Some ==> row == Some(
                block_comment(indent, syntax.block->0, label, text),
            )
            &&& fresh && syntax.prefixes.len() == 0 && syntax.block is None ==> row is None
        }),
{
}

/// A comment is held back only where the row to write is a block comment that the
/// text would close; the terminator is then named. The row to write is a block
/// comment where it replaces one, and where the language has no line leader.
pub proof fn law_text_closes_only_a_block_comment(
    syntax: scope::ScopeView,
    existing: Option<Seq<char>>,
    text: Seq<char>,
)
    ensures
        marker::early_end(None, existing, text) is None,
        ({
            let line_kept = existing is Some && syntax.prefixes.contains(existing->0);
            let block_kept = existing is Some && syntax.block is Some && syntax.block->0.start
                == existing->0;
            let in_block = syntax.block is Some && !line_kept && (block_kept
                || syntax.prefixes.len() == 0);
            let early = marker::early_end(Some(syntax), existing, text);
            &&& !in_block ==> early is None
            &&& in_block ==> (early is Some <==> exists|at: int|
                0 <= at <= text.len() && syntax.block->0.end.is_prefix_of(#[trigger] text.skip(at)))
            &&& early is Some ==> early->0 == syntax.block->0.end
        }),
{
    if syntax.block is Some {
        let end = syntax.block->0.end;
        if text::contains_text(text, end) {
            let at = choose|at: int| text::occurs_at(text, end, at);
            searching::law_pattern_stands_where_the_rest_starts_with_it(text, end, at);
            assert(end.is_prefix_of(text.skip(at)));
        }
        if exists|at: int| 0 <= at <= text.len() && end.is_prefix_of(#[trigger] text.skip(at)) {
            let at = choose|at: int|
                0 <= at <= text.len() && end.is_prefix_of(#[trigger] text.skip(at));
            searching::law_pattern_stands_where_the_rest_starts_with_it(text, end, at);
            assert(text::occurs_at(text, end, at));
        }
    }
}

/// The label of the marker that a popup writes: the type that is selected in its
/// list, and its span.
pub open spec fn label_of(popup: ReviewAnnotationPopup) -> Seq<char> {
    marker::label_text(popup.types@[popup.type_index as int]@, popup.span_rows)
}

/// The text of the marker that a popup writes: what stands in its prompt.
pub open spec fn text_of(popup: ReviewAnnotationPopup) -> Seq<char> {
    comment::comment_of(popup.prompt_editor.text@)
}

/// The leader that a row has now, where it is a marker.
pub open spec fn leader_now(editor: Editor, row: int) -> Option<Seq<char>> {
    match selections::reading(editor.buffer.rows@[row], editor.settings) {
        Some(found) => Some(found.leader),
        None => None,
    }
}

/// Submitting writes what the popup holds on the row that its anchor is on, with
/// the indentation and in the comment syntax of that row as it is now. A row that
/// reads as a marker is replaced, from its start to its end; anywhere else the
/// marker goes in at the start of the row, with a newline behind it.
pub proof fn law_submitting_writes_what_the_popup_holds(
    editor: Editor,
    edit: buffer::EditView,
    indent: Seq<char>,
    rest: Seq<char>,
)
    requires
        editor.wf(),
        editor.submit_outcome() == SubmitOutcome::Written(edit),
        editor.buffer.rows@[editor.review_annotation_popup->0.anchor.row as int].text@ == indent
            + rest,
        trimming::blank(indent),
        trimming::visible_start(rest),
    ensures
        ({
            let popup = editor.review_annotation_popup->0;
            let at = popup.anchor.row;
            let row = editor.buffer.rows@[at as int];
            let written = marker::marker_row(
                indent,
                row.syntax(),
                leader_now(editor, at as int),
                label_of(popup),
                text_of(popup),
            );
            &&& written is Some
            &&& edit.start == Point { row: at, column: 0 }
            &&& leader_now(editor, at as int) is None ==> edit.end == edit.start && edit.text
                == written->0.push('\n')
            &&& leader_now(editor, at as int) is Some ==> edit.text == written->0 && edit.end
                == Point { row: at, column: vstd::utf8::encode_utf8(row.text@).len() as u32 }
        }),
{
    trimming::lemma_start_after_blank(indent, rest);
}

/// What a popup comes to when it is submitted. Where nothing but white space was
/// typed it closes. Otherwise the comment is refused, and each refusal gives its
/// reason: that the buffer is read-only, that the line is gone, that it is deleted,
/// that the text would close its comment, or that the language has no comments.
/// Where none of these holds it is written.
pub proof fn law_comment_is_refused_for_the_reason_given(editor: Editor)
    requires
        editor.wf(),
    ensures
        editor.review_annotation_popup is None ==> editor.submit_outcome()
            == SubmitOutcome::Ignored,
        editor.review_annotation_popup is Some ==> {
            let popup = editor.review_annotation_popup->0;
            let typed = !trimming::blank(popup.prompt_editor.text@);
            let row = editor.buffer.rows@[popup.anchor.row as int];
            let early = marker::early_end(
                row.syntax(),
                leader_now(editor, popup.anchor.row as int),
                text_of(popup),
            );
            let comments = row.syntax() is Some && (row.syntax()->0.prefixes.len() > 0
                || row.syntax()->0.block is Some);
            let outcome = editor.submit_outcome();
            let open = typed && !editor.read_only && popup.anchor.valid;
            &&& !typed ==> outcome == SubmitOutcome::Dismissed
            &&& typed && editor.read_only ==> outcome == SubmitOutcome::Refused(
                editor::READ_ONLY_NOTICE@,
            )
            &&& typed && !editor.read_only && !popup.anchor.valid ==> outcome
                == SubmitOutcome::Refused(editor::LINE_GONE_NOTICE@)
            &&& open && row.deleted ==> outcome == SubmitOutcome::Refused(
                editor::DELETED_LINE_NOTICE@,
            )
            &&& open && !row.deleted && !comments ==> outcome == SubmitOutcome::Refused(
                editor::NO_SYNTAX_NOTICE@,
            )
            &&& open && !row.deleted && early is Some ==> outcome == SubmitOutcome::Refused(
                "A review comment here cannot contain `"@ + early->0
                    + "`, which would close the comment early."@,
            )
            &&& open && !row.deleted && comments && early is None ==> outcome is Written
        },
{
    if editor.review_annotation_popup is Some {
        let popup = editor.review_annotation_popup->0;
        comments::law_comment_is_empty_only_when_nothing_was_typed(popup.prompt_editor.text@);
    }
}

/// What submitting leaves of the popup and asks of the window. A marker that is
/// written is one edit, and then the popup closes: its block is removed, and the
/// editor has the focus and is drawn again. An empty comment closes the popup the
/// same way without an edit. A refusal shows its notice, where there is a workspace
/// to show it, and keeps the popup as it is.
pub proof fn law_popup_closes_only_when_nothing_is_lost(
    before: Editor,
    after: Editor,
    outcome: SubmitOutcome,
)
    requires
        before.submits_as(after, outcome),
    ensures
        ({
            let popup = before.review_annotation_popup;
            let closing = seq![
                popup::EffectView::RemoveBlock(popup->0.block_id),
                popup::EffectView::FocusEditor,
                popup::EffectView::Notify,
            ];
            match outcome {
                SubmitOutcome::Ignored => {
                    &&& after.review_annotation_popup == popup
                    &&& after.requests() == before.requests()
                },
                SubmitOutcome::Dismissed => {
                    &&& after.review_annotation_popup is None
                    &&& after.requests() == before.requests() + closing
                },
                SubmitOutcome::Refused(message) => {
                    &&& after.review_annotation_popup == popup
                    &&& before.in_workspace ==> after.requests() == before.requests().push(
                        popup::EffectView::ShowToast(message),
                    )
                    &&& !before.in_workspace ==> after.requests() == before.requests()
                },
                SubmitOutcome::Written(edit) => {
                    &&& after.review_annotation_popup is None
                    &&& after.requests() == before.requests().push(popup::EffectView::Edit(edit))
                        + closing
                },
            }
        }),
{
    let popup = before.review_annotation_popup;
    match outcome {
        SubmitOutcome::Refused(message) => {
            if before.in_workspace {
                assert(before.requests() + before.notice(message) =~= before.requests().push(
                    popup::EffectView::ShowToast(message),
                ));
            } else {
                assert(before.requests() + before.notice(message) =~= before.requests());
            }
        },
        SubmitOutcome::Written(edit) => {
            assert(before.requests() + seq![popup::EffectView::Edit(edit)]
                =~= before.requests().push(popup::EffectView::Edit(edit)));
        },
        _ => {},
    }
}

/// The badge names the type that is selected in the popup, and the first default
/// where no popup is open.
pub proof fn law_badge_names_the_selected_type(popup: Option<ReviewAnnotationPopup>)
    ensures
        popup is Some ==> popup::badge_text(popup) == popup->0.types@[popup->0.type_index as int]@,
        popup is None ==> popup::badge_text(popup) == "ISSUE"@,
{
}

/// A notice is shown in the workspace that holds the editor, and nowhere else.
pub proof fn law_notice_is_shown_in_a_workspace(editor: Editor, message: Seq<char>)
    ensures
        editor.in_workspace ==> editor.notice(message) == seq![
            popup::EffectView::ShowToast(message),
        ],
        !editor.in_workspace ==> editor.notice(message).len() == 0,
{
}

} // verus!
