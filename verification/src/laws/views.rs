//! Laws of the views: what the contracts say of characters holds of the strings
//! and places that the library hands out.

use vstd::prelude::*;

use crate::buffer;
use crate::buffer::BufferEdit;
use crate::editor;
use crate::editor::Editor;
use crate::marker;
use crate::marker::ParsedAnnotation;
use crate::popup;
use crate::popup::{AnnotationTarget, Effect, PopupRequest};
use crate::text;

verus! {

/// A list of texts has the characters of its strings, in their order.
pub proof fn law_texts_are_those_of_the_strings(strings: Seq<String>)
    ensures
        text::texts(strings).len() == strings.len(),
        forall|i: int|
            0 <= i < strings.len() ==> #[trigger] text::texts(strings)[i] == strings[i]@,
{
}

/// The requests of an editor are those that it lists, in their order, and each says
/// what it holds.
pub proof fn law_requests_say_what_the_effects_hold(editor: Editor, i: int)
    requires
        0 <= i < editor.effects@.len(),
    ensures
        editor.requests().len() == editor.effects@.len(),
        (match editor.effects@[i] {
            Effect::ShowToast(message) => editor.requests()[i] == popup::EffectView::ShowToast(
                message@,
            ),
            Effect::FocusPrompt => editor.requests()[i] == popup::EffectView::FocusPrompt,
            Effect::FocusEditor => editor.requests()[i] == popup::EffectView::FocusEditor,
            Effect::RemoveBlock(id) => editor.requests()[i] == popup::EffectView::RemoveBlock(id),
            Effect::Edit(edit) => editor.requests()[i] == popup::EffectView::Edit(
                buffer::EditView { start: edit.start, end: edit.end, text: edit.text@ },
            ),
            Effect::SelectAndCenter(point) => editor.requests()[i]
                == popup::EffectView::SelectAndCenter(point),
            Effect::Notify => editor.requests()[i] == popup::EffectView::Notify,
        }),
{
}

/// An edit, a marker, a target and a popup to open are seen as what they hold.
pub proof fn law_values_are_seen_as_they_are(
    edit: BufferEdit,
    found: ParsedAnnotation,
    target: AnnotationTarget,
    request: PopupRequest,
)
    ensures
        edit@ == (buffer::EditView { start: edit.start, end: edit.end, text: edit.text@ }),
        found@ == (marker::AnnotationView {
            type_label: found.type_label@,
            span_rows: found.span_rows,
            text: found.text@,
            leader: found.leader@,
        }),
        marker::annotation_view(Some(found)) == Some(found@),
        marker::annotation_view(None) is None,
        target@.row == target.row,
        target@.span_rows == target.span_rows,
        target.existing is Some ==> target@.existing == Some(target.existing->0@),
        target.existing is None ==> target@.existing is None,
        request@.block == request.block,
        request@.placeholder == request.prompt_editor.placeholder@,
        request@.text == request.prompt_editor.text@,
        request@.anchor == request.anchor,
        request@.types == text::texts(request.types@),
        request@.type_index == request.type_index,
        request@.span_rows == request.span_rows,
{
}

/// What the notices say.
pub proof fn law_notices_say_what_is_the_matter()
    ensures
        editor::READ_ONLY_NOTICE@
            == "Review annotations need a writable buffer; this view is read-only."@,
        editor::DELETED_LINE_NOTICE@
            == "Cannot annotate a deleted line; move to a line that exists in the working copy."@,
        editor::NO_SYNTAX_NOTICE@
            == "This language has no comment syntax, so a review marker would not be valid here."@,
        editor::LINE_GONE_NOTICE@
            == "The annotated line is no longer open; reopen the file and add the comment again."@,
        editor::NONE_BELOW_NOTICE@ == "No review annotation below the cursor."@,
        editor::NONE_ABOVE_NOTICE@ == "No review annotation above the cursor."@,
        editor::BASE_TEXT_NOTICE@
            == "This line is deleted base text, not part of the working copy."@,
        editor::NOT_A_MARKER_NOTICE@ == "This line is not a review annotation."@,
        popup::PLACEHOLDER@ == "Add a review comment…"@,
{
}

} // verus!
