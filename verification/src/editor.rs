//! The editor's side of review annotations: opening the popup, writing,
//! deleting and visiting markers.

use vstd::prelude::*;

use crate::buffer;
use crate::buffer::{row_text, scope_for_row, BufferEdit, MultiBufferSnapshot, Point};
use crate::comment;
use crate::labels;
use crate::labels::{configured_types, EditorSettings};
use crate::laws;
use crate::marker;
use crate::marker::parse_annotation_line;
use crate::popup;
use crate::popup::{
    Anchor, AnnotationTarget, Bias, BlockPlacement, BlockProperties, BlockStyle, CustomBlockId, Effect,
    PopupRequest, PromptAction, PromptEditor, ReviewAnnotationPopup,
};
use crate::scope;
use crate::scope::has_comment_syntax;
use crate::text;

verus! {

pub const READ_ONLY_NOTICE: &'static str = "Review annotations need a writable buffer; this view is read-only.";

pub const DELETED_LINE_NOTICE: &'static str = "Cannot annotate a deleted line; move to a line that exists in the working copy.";

pub const NO_SYNTAX_NOTICE: &'static str = "This language has no comment syntax, so a review marker would not be valid here.";

pub const LINE_GONE_NOTICE: &'static str = "The annotated line is no longer open; reopen the file and add the comment again.";

pub const NONE_BELOW_NOTICE: &'static str = "No review annotation below the cursor.";

pub const NONE_ABOVE_NOTICE: &'static str = "No review annotation above the cursor.";

pub const BASE_TEXT_NOTICE: &'static str = "This line is deleted base text, not part of the working copy.";

pub const NOT_A_MARKER_NOTICE: &'static str = "This line is not a review annotation.";

/// The newest selection, in buffer places.
#[derive(Clone, Copy, PartialEq, Eq, Structural, Debug)]
pub struct SelectionPoints {
    /// The place of the first column of the display row the selection starts on.
    pub start: Point,
    /// The place where the selection ends.
    pub end: Point,
}

/// An editor, as far as review annotations are concerned.
pub struct Editor {
    pub read_only: bool,
    /// Whether a workspace holds the editor. Notices are shown there.
    pub in_workspace: bool,
    pub settings: EditorSettings,
    pub buffer: MultiBufferSnapshot,
    pub selection: SelectionPoints,
    pub review_annotation_popup: Option<ReviewAnnotationPopup>,
    /// What the window around the editor is still to carry out.
    pub effects: Vec<Effect>,
}

// ---------------------------------------------------------------------------
// What the editor's state says
// ---------------------------------------------------------------------------

/// The rows in `first..end` that are not base text of a deleted hunk.
pub open spec fn live_count(snapshot: MultiBufferSnapshot, first: int, end: int) -> nat
    decreases end - first,
{
    if end <= first {
        0
    } else if snapshot.rows@[end - 1].deleted {
        live_count(snapshot, first, end - 1)
    } else {
        live_count(snapshot, first, end - 1) + 1
    }
}

/// The rows from `first` to `last` beyond the first, deleted ones left out.
pub open spec fn live_span(snapshot: MultiBufferSnapshot, first: int, last: int) -> nat {
    let count = live_count(snapshot, first, last + 1);
    if count == 0 {
        0
    } else {
        (count - 1) as nat
    }
}

/// Whether a marker can be written on the target row, or why not.
pub ghost enum Resolution {
    Refused(Seq<char>),
    Target(popup::TargetView),
}

/// What submitting the popup comes to.
pub ghost enum SubmitOutcome {
    /// No popup is open.
    Ignored,
    /// Nothing was typed: the popup closes.
    Dismissed,
    /// A notice is shown, and the popup stays open.
    Refused(Seq<char>),
    /// The marker is written, and the popup closes.
    Written(buffer::EditView),
}

/// What deleting the marker at the cursor comes to.
pub ghost enum DeleteOutcome {
    Refused(Seq<char>),
    Deleted(buffer::EditView),
}

/// The notice that the comment holds the terminator `end`.
pub open spec fn early_end_notice(end: Seq<char>) -> Seq<char> {
    "A review comment here cannot contain `"@ + end + "`, which would close the comment early."@
}

impl Editor {
    pub open spec fn wf(self) -> bool {
        &&& self.buffer.wf()
        &&& self.buffer.has_row(self.selection.start.row)
        &&& self.buffer.has_row(self.selection.end.row)
        &&& match self.review_annotation_popup {
            Some(popup) => popup.wf() && (popup.anchor.valid ==> self.buffer.has_row(
                popup.anchor.row,
            )),
            None => true,
        }
    }

    /// The comment types on offer.
    pub open spec fn types(self) -> Seq<Seq<char>> {
        labels::normalized(text::texts(self.settings.review_annotation_types@))
    }

    /// The requests made so far.
    pub open spec fn requests(self) -> Seq<popup::EffectView> {
        popup::effect_views(self.effects@)
    }

    /// The requests that show a notice: none outside of a workspace.
    pub open spec fn notice(self, message: Seq<char>) -> Seq<popup::EffectView> {
        if self.in_workspace {
            seq![popup::EffectView::ShowToast(message)]
        } else {
            seq![]
        }
    }

    /// Everything but the popup and the requests is as in `other`.
    pub open spec fn same_document(self, other: Editor) -> bool {
        &&& self.read_only == other.read_only
        &&& self.in_workspace == other.in_workspace
        &&& self.settings == other.settings
        &&& self.buffer == other.buffer
        &&& self.selection == other.selection
    }

    /// Everything but the requests is as in `other`.
    pub open spec fn same_state(self, other: Editor) -> bool {
        &&& self.same_document(other)
        &&& self.review_annotation_popup == other.review_annotation_popup
    }

    pub open spec fn line(self, row: int) -> Seq<char> {
        self.buffer.rows@[row].text@
    }

    pub open spec fn syntax(self, row: int) -> Option<scope::ScopeView> {
        self.buffer.rows@[row].syntax()
    }

    pub open spec fn is_deleted(self, row: int) -> bool {
        self.buffer.rows@[row].deleted
    }

    /// The marker that a row is, where it is one.
    pub open spec fn marker_at(self, row: int) -> Option<marker::AnnotationView> {
        marker::parsed(self.line(row), self.syntax(row), self.types())
    }

    /// The first and last row the selection touches. One that ends at column
    /// zero stops on the row before.
    pub open spec fn touched_rows(self) -> (u32, u32) {
        let start = self.selection.start.row;
        let end = self.selection.end;
        if end.column == 0 && end.row > start {
            (start, (end.row - 1) as u32)
        } else if end.row > start {
            (start, end.row)
        } else {
            (start, start)
        }
    }

    /// Where a new comment would go, or why it cannot.
    pub open spec fn resolution(self) -> Resolution {
        let (row, last_row) = self.touched_rows();
        let existing = self.marker_at(row as int);
        if self.read_only {
            Resolution::Refused(READ_ONLY_NOTICE@)
        } else if self.is_deleted(row as int) {
            Resolution::Refused(DELETED_LINE_NOTICE@)
        } else if !scope::can_comment(self.syntax(row as int)) {
            Resolution::Refused(NO_SYNTAX_NOTICE@)
        } else {
            Resolution::Target(
                popup::TargetView {
                    row,
                    span_rows: match existing {
                        Some(existing) => existing.span_rows,
                        None => live_span(self.buffer, row as int, last_row as int) as u32,
                    },
                    existing,
                },
            )
        }
    }

    /// The popup that opens on `target`.
    pub open spec fn request_for(self, target: popup::TargetView) -> popup::RequestView {
        popup::RequestView {
            block: BlockProperties {
                style: BlockStyle::Sticky,
                placement: BlockPlacement::Below {
                    point: Point {
                        row: target.row,
                        column: buffer::byte_len(self.line(target.row as int)) as u32,
                    },
                    bias: Bias::Right,
                },
                height: Some(2u32),
                priority: 0,
            },
            placeholder: popup::PLACEHOLDER@,
            text: match target.existing {
                Some(existing) => existing.text,
                None => seq![],
            },
            anchor: Anchor { row: target.row, valid: true, bias: Bias::Left },
            types: self.types(),
            type_index: match target.existing {
                Some(existing) => match self.types().index_of_first(existing.type_label) {
                    Some(i) => i,
                    None => 0,
                },
                None => 0,
            },
            span_rows: target.span_rows,
        }
    }

    /// The requests that close a popup.
    pub open spec fn closing(popup: ReviewAnnotationPopup) -> Seq<popup::EffectView> {
        seq![
            popup::EffectView::RemoveBlock(popup.block_id),
            popup::EffectView::FocusEditor,
            popup::EffectView::Notify,
        ]
    }

    /// The edit that puts `marker` on `row`: in place of a marker that is there
    /// already, else on a row of its own above it.
    pub open spec fn writing(self, row: u32, marker: Seq<char>) -> buffer::EditView {
        let start = Point { row, column: 0 };
        if self.marker_at(row as int) is Some {
            buffer::EditView {
                start,
                end: Point { row, column: buffer::byte_len(self.line(row as int)) as u32 },
                text: marker,
            }
        } else {
            buffer::EditView { start, end: start, text: marker.push('\n') }
        }
    }

    /// What becomes of the comment of `popup` on `row`.
    pub open spec fn submitted_on(self, popup: ReviewAnnotationPopup, row: u32) -> SubmitOutcome {
        let line = self.line(row as int);
        let syntax = self.syntax(row as int);
        if self.is_deleted(row as int) {
            SubmitOutcome::Refused(DELETED_LINE_NOTICE@)
        } else {
            match marker::early_end(
                syntax,
                marker::leader_of(self.marker_at(row as int)),
                popup.comment(),
            ) {
                Some(end) => SubmitOutcome::Refused(early_end_notice(end)),
                None => match marker::marker_row(
                    text::indent_of(line),
                    syntax,
                    marker::leader_of(self.marker_at(row as int)),
                    popup.label(),
                    popup.comment(),
                ) {
                    Some(marker) => SubmitOutcome::Written(self.writing(row, marker)),
                    None => SubmitOutcome::Refused(NO_SYNTAX_NOTICE@),
                },
            }
        }
    }

    /// What submitting the popup comes to.
    pub open spec fn submit_outcome(self) -> SubmitOutcome {
        match self.review_annotation_popup {
            None => SubmitOutcome::Ignored,
            Some(popup) => if popup.comment().len() == 0 {
                SubmitOutcome::Dismissed
            } else if self.read_only {
                SubmitOutcome::Refused(READ_ONLY_NOTICE@)
            } else if !popup.anchor.valid {
                SubmitOutcome::Refused(LINE_GONE_NOTICE@)
            } else {
                self.submitted_on(popup, popup.anchor.row)
            },
        }
    }

    /// Whether `after` is this editor once the popup was submitted with the given
    /// outcome.
    pub open spec fn submits_as(self, after: Editor, outcome: SubmitOutcome) -> bool {
        match outcome {
            SubmitOutcome::Ignored => {
                &&& after.same_state(self)
                &&& after.requests() == self.requests()
            },
            SubmitOutcome::Dismissed => {
                &&& after.review_annotation_popup is None
                &&& after.requests() == self.requests() + Editor::closing(
                    self.review_annotation_popup->0,
                )
            },
            SubmitOutcome::Refused(message) => {
                &&& after.same_state(self)
                &&& after.requests() == self.requests() + self.notice(message)
            },
            SubmitOutcome::Written(edit) => {
                &&& after.review_annotation_popup is None
                &&& after.requests() == self.requests() + seq![popup::EffectView::Edit(edit)]
                    + Editor::closing(self.review_annotation_popup->0)
            },
        }
    }

    /// What deleting the marker at the cursor comes to. The row goes with its
    /// newline, but the last row has none.
    pub open spec fn delete_outcome(self) -> DeleteOutcome {
        let row = self.touched_rows().0;
        if self.read_only {
            DeleteOutcome::Refused(READ_ONLY_NOTICE@)
        } else if self.is_deleted(row as int) {
            DeleteOutcome::Refused(BASE_TEXT_NOTICE@)
        } else if self.marker_at(row as int) is None {
            DeleteOutcome::Refused(NOT_A_MARKER_NOTICE@)
        } else {
            DeleteOutcome::Deleted(
                buffer::EditView {
                    start: Point { row, column: 0 },
                    end: if row + 1 < self.buffer.rows@.len() {
                        Point { row: (row + 1) as u32, column: 0 }
                    } else {
                        Point { row, column: buffer::byte_len(self.line(row as int)) as u32 }
                    },
                    text: seq![],
                },
            )
        }
    }

    /// Whether a row of the working copy is a marker.
    pub open spec fn is_stop(self, row: int) -> bool {
        !self.is_deleted(row) && self.marker_at(row) is Some
    }

    /// The first marker in `from..end`.
    pub open spec fn first_stop(self, from: int, end: int) -> Option<u32>
        decreases end - from,
    {
        if end <= from {
            None
        } else if self.is_stop(from) {
            Some(from as u32)
        } else {
            self.first_stop(from + 1, end)
        }
    }

    /// The last marker before `end`.
    pub open spec fn last_stop(self, end: int) -> Option<u32>
        decreases end,
    {
        if end <= 0 {
            None
        } else if self.is_stop(end - 1) {
            Some((end - 1) as u32)
        } else {
            self.last_stop(end - 1)
        }
    }

    /// The nearest marker below or above the cursor.
    pub open spec fn nearest_stop(self, forward: bool) -> Option<u32> {
        let row = self.touched_rows().0;
        if forward {
            let from = if row == u32::MAX {
                row as int
            } else {
                row + 1
            };
            self.first_stop(from, self.buffer.rows@.len() as int)
        } else {
            self.last_stop(row as int)
        }
    }

    /// The requests that visit the nearest marker, or say that there is none.
    pub open spec fn visiting(self, forward: bool) -> Seq<popup::EffectView> {
        match self.nearest_stop(forward) {
            Some(row) => seq![popup::EffectView::SelectAndCenter(Point { row, column: 0 })],
            None => self.notice(
                if forward {
                    NONE_BELOW_NOTICE@
                } else {
                    NONE_ABOVE_NOTICE@
                },
            ),
        }
    }
}

// ---------------------------------------------------------------------------
// What the editor does
// ---------------------------------------------------------------------------

impl Editor {
    /// Whether the editor's rows, selection and popup fit together. Every other
    /// operation is for an editor of which this holds.
    pub fn is_valid(&self) -> (r: bool)
        ensures
            r == self.wf(),
    {
        if !self.buffer.is_valid() {
            return false;
        }
        let max_row: u32 = self.buffer.max_row();
        if self.selection.start.row > max_row || self.selection.end.row > max_row {
            return false;
        }
        match &self.review_annotation_popup {
            Some(popup) => popup.is_valid() && (!popup.anchor.valid || popup.anchor.row
                <= max_row),
            None => true,
        }
    }

    fn request(&mut self, effect: Effect)
        ensures
            final(self).same_state(*old(self)),
            final(self).requests() == old(self).requests().push(effect@),
    {
        let ghost before = self.effects@;
        self.effects.push(effect);
        assert(popup::effect_views(self.effects@) =~= popup::effect_views(before).push(effect@));
    }

    /// Shows a notice, where a workspace holds the editor.
    pub fn notify_review_annotation(&mut self, message: String)
        ensures
            final(self).same_state(*old(self)),
            final(self).requests() == old(self).requests() + old(self).notice(message@),
    {
        if self.in_workspace {
            self.request(Effect::ShowToast(message));
        }
        assert(self.requests() =~= old(self).requests() + old(self).notice(message@));
    }

    /// The row of the cursor.
    pub fn cursor_row(&self) -> (r: u32)
        ensures
            r == self.touched_rows().0,
            r == self.selection.start.row,
    {
        self.selected_rows().0
    }

    /// The first and last buffer row the newest selection touches. A selection
    /// ending at column zero stops on the previous row, so dragging onto the
    /// next line does not silently widen the comment.
    pub fn selected_rows(&self) -> (r: (u32, u32))
        ensures
            r == self.touched_rows(),
    {
        let start: u32 = self.selection.start.row;
        let end_point = self.selection.end;
        let end: u32 = if end_point.column == 0 && end_point.row > start {
            end_point.row - 1
        } else {
            end_point.row
        };
        if end > start {
            (start, end)
        } else {
            (start, start)
        }
    }

    /// True when the row is base text shown by an expanded diff hunk. Such a
    /// row has no working-copy position, and an edit aimed at it is dropped
    /// without a report.
    pub fn row_is_deleted(&self, snapshot: &MultiBufferSnapshot, row: u32) -> (r: bool)
        requires
            snapshot.has_row(row),
        ensures
            r == snapshot.rows@[row as int].deleted,
    {
        snapshot.rows[row as usize].deleted
    }

    /// Rows the comment covers beyond its first, counted in working-copy rows.
    /// Base rows shown between the selected lines occupy multibuffer rows but
    /// no file lines, so counting raw rows would export a range covering lines
    /// the user never selected.
    pub fn live_span_rows(&self, snapshot: &MultiBufferSnapshot, first: u32, last: u32) -> (r: u32)
        requires
            first <= last ==> snapshot.has_row(last),
        ensures
            r == live_span(*snapshot, first as int, last as int),
    {
        let mut count: u64 = 0;
        let mut row: u64 = first as u64;
        while row <= last as u64
            invariant
                first <= last ==> snapshot.has_row(last),
                first <= row,
                row <= last + 1 || count == 0 && row == first,
                count == live_count(*snapshot, first as int, row as int),
                count <= row - first,
            decreases last + 1 - row,
        {
            if !self.row_is_deleted(snapshot, row as u32) {
                count = count + 1;
            }
            row = row + 1;
        }
        if count == 0 {
            0
        } else {
            (count - 1) as u32
        }
    }

    /// Where a new comment would go. Every refusal shows a notice.
    pub fn resolve_annotation_target(&mut self) -> (r: Option<AnnotationTarget>)
        requires
            old(self).wf(),
        ensures
            final(self).same_state(*old(self)),
            final(self).wf(),
            (match old(self).resolution() {
                Resolution::Refused(message) => {
                    &&& r is None
                    &&& final(self).requests() == old(self).requests() + old(self).notice(message)
                },
                Resolution::Target(target) => {
                    &&& r is Some
                    &&& r->0@ == target
                    &&& r->0.row == old(self).selection.start.row
                    &&& final(self).requests() == old(self).requests()
                },
            }),
    {
        if self.read_only {
            self.notify_review_annotation(READ_ONLY_NOTICE.to_string());
            return None;
        }
        let (row, last_row) = self.selected_rows();
        if self.row_is_deleted(&self.buffer, row) {
            self.notify_review_annotation(DELETED_LINE_NOTICE.to_string());
            return None;
        }
        let line = row_text(&self.buffer, row);
        let scope = scope_for_row(&self.buffer, row, line.as_str());
        if !has_comment_syntax(scope) {
            self.notify_review_annotation(NO_SYNTAX_NOTICE.to_string());
            return None;
        }
        let types = configured_types(&self.settings);
        let existing = parse_annotation_line(line.as_str(), scope, types.as_slice());
        // Editing a marker keeps the span it already records; a fresh marker
        // takes the span from the selection.
        let span_rows: u32 = match &existing {
            Some(existing) => existing.span_rows,
            None => self.live_span_rows(&self.buffer, row, last_row),
        };
        Some(AnnotationTarget { row, span_rows, existing })
    }

    /// Prepares the review annotation popup for the newest selection's start
    /// row, or focuses the existing popup. A row that already holds a marker is
    /// edited in place. The popup opens with `open_review_annotation_popup`
    /// once its block is inserted.
    pub fn insert_review_annotation(&mut self) -> (r: Option<PopupRequest>)
        requires
            old(self).wf(),
        ensures
            final(self).same_state(*old(self)),
            final(self).wf(),
            old(self).review_annotation_popup is Some ==> {
                &&& r is None
                &&& final(self).requests() == old(self).requests().push(
                    popup::EffectView::FocusPrompt,
                )
            },
            old(self).review_annotation_popup is None ==> match old(self).resolution() {
                Resolution::Refused(message) => {
                    &&& r is None
                    &&& final(self).requests() == old(self).requests() + old(self).notice(message)
                },
                Resolution::Target(target) => {
                    &&& r is Some
                    &&& r->0@ == old(self).request_for(target)
                    &&& r->0.anchor.row == old(self).selection.start.row
                    &&& r->0.wf()
                    &&& old(self).buffer.has_row(r->0.anchor.row)
                    &&& final(self).requests() == old(self).requests()
                },
            },
    {
        if self.review_annotation_popup.is_some() {
            self.request(Effect::FocusPrompt);
            return None;
        }
        let target = match self.resolve_annotation_target() {
            Some(target) => target,
            None => {
                return None;
            },
        };
        let types = configured_types(&self.settings);
        proof {
            laws::types::law_types_are_valid(
                text::texts(self.settings.review_annotation_types@),
            );
        }
        let type_index: usize = match &target.existing {
            Some(existing) => match labels::position_of(
                types.as_slice(),
                existing.type_label.as_str(),
            ) {
                Some(i) => i,
                None => 0,
            },
            None => 0,
        };
        let row: u32 = target.row;
        let end = Point { row, column: self.buffer.line_len(row) };
        let block = BlockProperties {
            style: BlockStyle::Sticky,
            placement: BlockPlacement::Below { point: end, bias: Bias::Right },
            height: Some(2),
            priority: 0,
        };
        let span_rows: u32 = target.span_rows;
        let prompt_text = match target.existing {
            Some(existing) => existing.text,
            None => String::new(),
        };
        let prompt_editor = PromptEditor {
            placeholder: popup::PLACEHOLDER.to_string(),
            text: prompt_text,
        };
        let request = PopupRequest {
            block,
            prompt_editor,
            anchor: Anchor { row, valid: true, bias: Bias::Left },
            types,
            type_index,
            span_rows,
        };
        assert(request@.text =~= self.request_for(target@).text);
        Some(request)
    }

    /// Opens a popup whose block was inserted as `block_id`, and gives it the
    /// focus. Without a block nothing opens.
    pub fn open_review_annotation_popup(
        &mut self,
        request: PopupRequest,
        block_id: Option<CustomBlockId>,
    ) -> (opened: bool)
        requires
            old(self).wf(),
            old(self).review_annotation_popup is None,
            request.wf(),
            request.anchor.valid ==> old(self).buffer.has_row(request.anchor.row),
        ensures
            opened == block_id is Some,
            final(self).same_document(*old(self)),
            final(self).wf(),
            block_id is None ==> final(self).same_state(*old(self)) && final(self).requests()
                == old(self).requests(),
            block_id is Some ==> {
                &&& final(self).review_annotation_popup == Some(
                    ReviewAnnotationPopup {
                        block_id: block_id->0,
                        prompt_editor: request.prompt_editor,
                        anchor: request.anchor,
                        types: request.types,
                        type_index: request.type_index,
                        span_rows: request.span_rows,
                    },
                )
                &&& final(self).requests() == old(self).requests() + seq![
                    popup::EffectView::FocusPrompt,
                    popup::EffectView::Notify,
                ]
            },
    {
        match block_id {
            Some(block_id) => {
                self.review_annotation_popup = Some(
                    ReviewAnnotationPopup {
                        block_id,
                        prompt_editor: request.prompt_editor,
                        anchor: request.anchor,
                        types: request.types,
                        type_index: request.type_index,
                        span_rows: request.span_rows,
                    },
                );
                self.request(Effect::FocusPrompt);
                self.request(Effect::Notify);
                assert(self.requests() =~= old(self).requests() + seq![
                    popup::EffectView::FocusPrompt,
                    popup::EffectView::Notify,
                ]);
                true
            },
            None => false,
        }
    }

    /// Selects the next comment type in list order, or the one before, and
    /// wraps around at the ends.
    pub fn cycle_review_annotation_kind(&mut self, reverse: bool)
        requires
            old(self).wf(),
        ensures
            final(self).same_document(*old(self)),
            final(self).wf(),
            (match old(self).review_annotation_popup {
                Some(popup) => {
                    &&& final(self).review_annotation_popup == Some(
                        ReviewAnnotationPopup {
                            type_index: popup::cycled(
                                popup.type_index as int,
                                popup.types@.len() as int,
                                reverse,
                            ) as usize,
                            ..popup
                        },
                    )
                    &&& final(self).requests() == old(self).requests().push(
                        popup::EffectView::Notify,
                    )
                },
                None => final(self).same_state(*old(self)) && final(self).requests() == old(
                    self,
                ).requests(),
            }),
    {
        match self.review_annotation_popup.take() {
            Some(mut popup) => {
                let len: usize = popup.types.len();
                let index: usize = popup.type_index;
                popup.type_index = if reverse {
                    if index == 0 {
                        len - 1
                    } else {
                        index - 1
                    }
                } else {
                    if index == len - 1 {
                        0
                    } else {
                        index + 1
                    }
                };
                proof {
                    popup::lemma_cycled(index as int, len as int, reverse);
                }
                self.review_annotation_popup = Some(popup);
                self.request(Effect::Notify);
            },
            None => {},
        }
    }

    /// Closes the popup and gives the focus back to the editor.
    pub fn dismiss_review_annotation_popup(&mut self)
        requires
            old(self).wf(),
        ensures
            final(self).same_document(*old(self)),
            final(self).wf(),
            final(self).review_annotation_popup is None,
            (match old(self).review_annotation_popup {
                Some(popup) => final(self).requests() == old(self).requests() + Editor::closing(
                    popup,
                ),
                None => final(self).requests() == old(self).requests(),
            }),
    {
        match self.review_annotation_popup.take() {
            Some(popup) => {
                self.request(Effect::RemoveBlock(popup.block_id));
                self.request(Effect::FocusEditor);
                self.request(Effect::Notify);
                assert(self.requests() =~= old(self).requests() + Editor::closing(popup));
            },
            None => {},
        }
    }

    /// Writes `text` under `label` on a row that the working copy holds.
    fn submit_on(&mut self, row: u32, label: String, text: String)
        requires
            old(self).wf(),
            old(self).buffer.has_row(row),
            !old(self).is_deleted(row as int),
            old(self).review_annotation_popup is Some,
            label@ == old(self).review_annotation_popup->0.label(),
            text@ == old(self).review_annotation_popup->0.comment(),
        ensures
            final(self).same_document(*old(self)),
            final(self).wf(),
            old(self).submits_as(
                *final(self),
                old(self).submitted_on(old(self).review_annotation_popup->0, row),
            ),
    {
        let line = row_text(&self.buffer, row);
        let indent = text::leading_whitespace(line.as_str());
        let scope = scope_for_row(&self.buffer, row, line.as_str());
        // Whether this replaces the row is decided from the row as it stands
        // now, not from what it held when the popup opened. If the marker was
        // deleted meanwhile, the anchor has slid onto ordinary code, and
        // trusting the old answer would overwrite it.
        let types = configured_types(&self.settings);
        let existing = parse_annotation_line(line.as_str(), scope, types.as_slice());
        if let Some(end) = marker::closes_early(scope, &existing, text.as_str()) {
            let mut message = "A review comment here cannot contain `".to_string();
            message.append(end);
            message.append("`, which would close the comment early.");
            self.notify_review_annotation(message);
            return;
        }
        let marker = marker::render_marker(indent, scope, &existing, label.as_str(), text.as_str());
        let mut marker = match marker {
            Some(marker) => marker,
            None => {
                self.notify_review_annotation(NO_SYNTAX_NOTICE.to_string());
                return;
            },
        };
        let start = Point { row, column: 0 };
        let end = if existing.is_some() {
            Point { row, column: self.buffer.line_len(row) }
        } else {
            proof {
                reveal_strlit("\n");
            }
            let ghost written = marker@;
            marker.append("\n");
            assert(marker@ =~= written.push('\n'));
            start
        };
        let edit = BufferEdit { start, end, text: marker };
        let ghost view = edit@;
        let ghost popup = self.review_annotation_popup->0;
        self.request(Effect::Edit(edit));
        self.dismiss_review_annotation_popup();
        assert(self.requests() =~= old(self).requests() + seq![popup::EffectView::Edit(view)]
            + Editor::closing(popup));
    }

    /// Writes the marker and closes the popup. A refusal leaves the popup open
    /// so the typed comment survives.
    pub fn submit_review_annotation(&mut self)
        requires
            old(self).wf(),
        ensures
            final(self).same_document(*old(self)),
            final(self).wf(),
            old(self).submits_as(*final(self), old(self).submit_outcome()),
    {
        let (text, label, anchor) = match &self.review_annotation_popup {
            Some(popup) => (
                comment::comment_text(popup.prompt_editor.text.as_str()),
                marker::marker_label(popup.selected_type(), popup.span_rows),
                popup.anchor,
            ),
            None => {
                return;
            },
        };
        if text.as_str().is_empty() {
            self.dismiss_review_annotation_popup();
            return;
        }
        if self.read_only {
            self.notify_review_annotation(READ_ONLY_NOTICE.to_string());
            return;
        }
        // A removed excerpt (a diff refresh, a file closed in a multibuffer)
        // leaves the anchor resolving to a neighbouring position rather than
        // failing, which would put the marker on an unrelated line.
        if !anchor.valid {
            self.notify_review_annotation(LINE_GONE_NOTICE.to_string());
            return;
        }
        if self.row_is_deleted(&self.buffer, anchor.row) {
            self.notify_review_annotation(DELETED_LINE_NOTICE.to_string());
            return;
        }
        self.submit_on(anchor.row, label, text);
    }

    /// Carries out what the user does in the prompt: Newline submits, Tab
    /// and Backtab change the comment type, Cancel closes the popup.
    pub fn handle_prompt_action(&mut self, action: PromptAction)
        requires
            old(self).wf(),
        ensures
            final(self).same_document(*old(self)),
            final(self).wf(),
            action == PromptAction::Newline ==> old(self).submits_as(
                *final(self),
                old(self).submit_outcome(),
            ),
            action == PromptAction::Cancel ==> {
                &&& final(self).review_annotation_popup is None
                &&& final(self).requests() == (match old(self).review_annotation_popup {
                    Some(popup) => old(self).requests() + Editor::closing(popup),
                    None => old(self).requests(),
                })
            },
            action == PromptAction::Tab || action == PromptAction::Backtab ==> match old(
                self,
            ).review_annotation_popup {
                Some(popup) => {
                    &&& final(self).review_annotation_popup == Some(
                        ReviewAnnotationPopup {
                            type_index: popup::cycled(
                                popup.type_index as int,
                                popup.types@.len() as int,
                                action == PromptAction::Backtab,
                            ) as usize,
                            ..popup
                        },
                    )
                    &&& final(self).requests() == old(self).requests().push(
                        popup::EffectView::Notify,
                    )
                },
                None => final(self).same_state(*old(self)) && final(self).requests() == old(
                    self,
                ).requests(),
            },
    {
        match action {
            PromptAction::Newline => self.submit_review_annotation(),
            PromptAction::Tab => self.cycle_review_annotation_kind(false),
            PromptAction::Backtab => self.cycle_review_annotation_kind(true),
            PromptAction::Cancel => self.dismiss_review_annotation_popup(),
        }
    }

    /// Visits the nearest marker below the cursor.
    pub fn go_to_next_review_annotation(&mut self)
        requires
            old(self).wf(),
        ensures
            final(self).same_state(*old(self)),
            final(self).wf(),
            final(self).requests() == old(self).requests() + old(self).visiting(true),
    {
        self.move_to_review_annotation(true);
    }

    /// Visits the nearest marker above the cursor.
    pub fn go_to_previous_review_annotation(&mut self)
        requires
            old(self).wf(),
        ensures
            final(self).same_state(*old(self)),
            final(self).wf(),
            final(self).requests() == old(self).requests() + old(self).visiting(false),
    {
        self.move_to_review_annotation(false);
    }

    /// Whether a row of the working copy is a marker. Base text shown by an
    /// expanded hunk can hold a marker that no longer exists in the working
    /// copy; landing on one offers an edit that could not be written.
    fn stops_at(&self, row: u32, types: &Vec<String>) -> (r: bool)
        requires
            self.buffer.has_row(row),
            text::texts(types@) == self.types(),
        ensures
            r == self.is_stop(row as int),
    {
        if self.row_is_deleted(&self.buffer, row) {
            return false;
        }
        let line = row_text(&self.buffer, row);
        let scope = scope_for_row(&self.buffer, row, line.as_str());
        parse_annotation_line(line.as_str(), scope, types.as_slice()).is_some()
    }

    /// The nearest marker below or above the cursor. Stops at the first hit, so
    /// a large buffer costs only the rows between the cursor and the marker.
    pub fn find_review_annotation(&self, forward: bool) -> (r: Option<u32>)
        requires
            self.wf(),
        ensures
            r == self.nearest_stop(forward),
            r is Some ==> self.buffer.has_row(r->0) && !self.is_deleted(r->0 as int)
                && self.marker_at(r->0 as int) is Some,
    {
        let row: u32 = self.cursor_row();
        let types = configured_types(&self.settings);
        if forward {
            let max_row: u32 = self.buffer.max_row();
            let mut next: u64 = row.saturating_add(1) as u64;
            let ghost end = self.buffer.rows@.len() as int;
            while next <= max_row as u64
                invariant
                    self.buffer.wf(),
                    max_row == self.buffer.rows@.len() - 1,
                    end == self.buffer.rows@.len(),
                    text::texts(types@) == self.types(),
                    next <= u32::MAX + 1,
                    self.nearest_stop(forward) == self.first_stop(next as int, end),
                decreases max_row + 1 - next,
            {
                if self.stops_at(next as u32, &types) {
                    return Some(next as u32);
                }
                next = next + 1;
            }
            None
        } else {
            let mut end: u32 = row;
            while end > 0
                invariant
                    self.buffer.wf(),
                    end <= row,
                    self.buffer.has_row(row),
                    text::texts(types@) == self.types(),
                    self.nearest_stop(forward) == self.last_stop(end as int),
                decreases end,
            {
                if self.stops_at(end - 1, &types) {
                    return Some(end - 1);
                }
                end = end - 1;
            }
            None
        }
    }

    /// Visits the nearest marker below or above the cursor, or says that there
    /// is none.
    pub fn move_to_review_annotation(&mut self, forward: bool)
        requires
            old(self).wf(),
        ensures
            final(self).same_state(*old(self)),
            final(self).wf(),
            final(self).requests() == old(self).requests() + old(self).visiting(forward),
    {
        match self.find_review_annotation(forward) {
            Some(row) => {
                let destination = Point { row, column: 0 };
                self.request(Effect::SelectAndCenter(destination));
                assert(self.requests() =~= old(self).requests() + old(self).visiting(forward));
            },
            None => {
                let message = if forward {
                    NONE_BELOW_NOTICE
                } else {
                    NONE_ABOVE_NOTICE
                };
                self.notify_review_annotation(message.to_string());
            },
        }
    }

    /// Deletes the marker on the cursor's row, whole line, in one transaction.
    pub fn delete_review_annotation(&mut self)
        requires
            old(self).wf(),
        ensures
            final(self).same_state(*old(self)),
            final(self).wf(),
            final(self).requests() == old(self).requests() + (match old(self).delete_outcome() {
                DeleteOutcome::Refused(message) => old(self).notice(message),
                DeleteOutcome::Deleted(edit) => seq![popup::EffectView::Edit(edit)],
            }),
    {
        if self.read_only {
            self.notify_review_annotation(READ_ONLY_NOTICE.to_string());
            return;
        }
        let row: u32 = self.cursor_row();
        if self.row_is_deleted(&self.buffer, row) {
            self.notify_review_annotation(BASE_TEXT_NOTICE.to_string());
            return;
        }
        let types = configured_types(&self.settings);
        if !self.stops_at(row, &types) {
            self.notify_review_annotation(NOT_A_MARKER_NOTICE.to_string());
            return;
        }
        let max_row: u32 = self.buffer.max_row();
        let end = if row < max_row {
            Point { row: row + 1, column: 0 }
        } else {
            Point { row, column: self.buffer.line_len(row) }
        };
        let edit = BufferEdit { start: Point { row, column: 0 }, end, text: String::new() };
        let ghost view = edit@;
        self.request(Effect::Edit(edit));
        assert(self.requests() =~= old(self).requests() + seq![popup::EffectView::Edit(view)]);
    }

    /// The prompt of the open popup.
    pub fn review_annotation_prompt_editor(&self) -> (r: Option<&PromptEditor>)
        ensures
            r == (match self.review_annotation_popup {
                Some(popup) => Some(&popup.prompt_editor),
                None => None,
            }),
    {
        match &self.review_annotation_popup {
            Some(popup) => Some(&popup.prompt_editor),
            None => None,
        }
    }
}

} // verus!
