//! The input popup, and what the editor asks of the window around it.

use vstd::prelude::*;

use crate::buffer;
use crate::buffer::{BufferEdit, Point};
use crate::labels;
use crate::marker;
use crate::marker::ParsedAnnotation;
use crate::text;

verus! {

/// Shown in the prompt while it is empty.
pub const PLACEHOLDER: &'static str = "Add a review comment…";

/// Names a block inserted between the rows of an editor.
#[derive(Clone, Copy, PartialEq, Eq, Structural, Debug)]
pub struct CustomBlockId(pub usize);

/// Which side of its place an anchor sticks to when text is put in right there.
#[derive(Clone, Copy, PartialEq, Eq, Structural, Debug)]
pub enum Bias {
    /// The anchor stays before the new text.
    Left,
    /// The anchor moves behind the new text.
    Right,
}

/// A place that moves with the text around it.
#[derive(Clone, Copy, PartialEq, Eq, Structural, Debug)]
pub struct Anchor {
    /// The row the anchor resolves to now.
    pub row: u32,
    /// False once the excerpt that held the place is gone. The anchor then
    /// resolves to a neighbouring place.
    pub valid: bool,
    pub bias: Bias,
}

/// How a block keeps its place while the editor scrolls sideways.
#[derive(Clone, Copy, PartialEq, Eq, Structural, Debug)]
pub enum BlockStyle {
    Sticky,
}

/// Where a block goes: below the row of a place that moves with the text.
#[derive(Clone, Copy, PartialEq, Eq, Structural, Debug)]
pub enum BlockPlacement {
    Below { point: Point, bias: Bias },
}

/// A block to insert between the rows of an editor.
#[derive(Clone, Copy, PartialEq, Eq, Structural, Debug)]
pub struct BlockProperties {
    pub style: BlockStyle,
    pub placement: BlockPlacement,
    pub height: Option<u32>,
    pub priority: usize,
}

/// The single-line editor the comment is typed into.
pub struct PromptEditor {
    pub placeholder: String,
    pub text: String,
}

/// Where a marker will go. Resolved before the popup opens so that every
/// refusal happens while the comment is still unwritten.
pub struct AnnotationTarget {
    pub row: u32,
    pub span_rows: u32,
    pub existing: Option<ParsedAnnotation>,
}

/// A target, as characters.
pub ghost struct TargetView {
    pub row: u32,
    pub span_rows: u32,
    pub existing: Option<marker::AnnotationView>,
}

impl View for AnnotationTarget {
    type V = TargetView;

    open spec fn view(&self) -> TargetView {
        TargetView {
            row: self.row,
            span_rows: self.span_rows,
            existing: marker::annotation_view(self.existing),
        }
    }
}

/// A popup that is ready to open, once its block is inserted.
pub struct PopupRequest {
    pub block: BlockProperties,
    pub prompt_editor: PromptEditor,
    pub anchor: Anchor,
    pub types: Vec<String>,
    pub type_index: usize,
    pub span_rows: u32,
}

/// A popup that is ready to open, as characters.
pub ghost struct RequestView {
    pub block: BlockProperties,
    pub placeholder: Seq<char>,
    pub text: Seq<char>,
    pub anchor: Anchor,
    pub types: Seq<Seq<char>>,
    pub type_index: int,
    pub span_rows: u32,
}

impl PopupRequest {
    /// The types can be on offer, and one of them is selected.
    pub open spec fn wf(self) -> bool {
        &&& labels::valid_types(text::texts(self.types@))
        &&& self.type_index < self.types@.len()
    }
}

impl View for PopupRequest {
    type V = RequestView;

    open spec fn view(&self) -> RequestView {
        RequestView {
            block: self.block,
            placeholder: self.prompt_editor.placeholder@,
            text: self.prompt_editor.text@,
            anchor: self.anchor,
            types: text::texts(self.types@),
            type_index: self.type_index as int,
            span_rows: self.span_rows,
        }
    }
}

/// The active annotation input popup. At most one per editor.
pub struct ReviewAnnotationPopup {
    pub block_id: CustomBlockId,
    pub prompt_editor: PromptEditor,
    /// Tracks the start of the annotated row across concurrent edits.
    pub anchor: Anchor,
    pub types: Vec<String>,
    pub type_index: usize,
    /// Extra rows the comment covers beyond the annotated line.
    pub span_rows: u32,
}

impl ReviewAnnotationPopup {
    /// The types can be on offer, and one of them is selected.
    pub open spec fn wf(self) -> bool {
        &&& labels::valid_types(text::texts(self.types@))
        &&& self.type_index < self.types@.len()
    }

    /// Whether the types can be on offer and one of them is selected.
    pub fn is_valid(&self) -> (r: bool)
        ensures
            r == self.wf(),
    {
        labels::are_valid_types(self.types.as_slice()) && self.type_index < self.types.len()
    }

    /// The selected comment type, as characters.
    pub open spec fn selected(self) -> Seq<char> {
        self.types@[self.type_index as int]@
    }

    /// The text of the comment typed so far.
    pub open spec fn comment(self) -> Seq<char> {
        crate::comment::comment_of(self.prompt_editor.text@)
    }

    /// The bracketed part of the marker to write.
    pub open spec fn label(self) -> Seq<char> {
        marker::label_text(self.selected(), self.span_rows)
    }

    /// The selected comment type.
    pub fn selected_type(&self) -> (r: &str)
        requires
            self.type_index < self.types@.len(),
        ensures
            r@ == self.selected(),
    {
        self.types[self.type_index].as_str()
    }
}

/// The position after `index` in a list of `len`, or before it, around the ends.
pub open spec fn cycled(index: int, len: int, reverse: bool) -> int {
    let step = if reverse {
        len - 1
    } else {
        1
    };
    (index + step) % len
}

pub proof fn lemma_cycled(index: int, len: int, reverse: bool)
    requires
        0 <= index < len,
    ensures
        cycled(index, len, reverse) == (if reverse {
            if index == 0 {
                len - 1
            } else {
                index - 1
            }
        } else {
            if index == len - 1 {
                0
            } else {
                index + 1
            }
        }),
{
    if reverse {
        if index == 0 {
            vstd::arithmetic::div_mod::lemma_small_mod((len - 1) as nat, len as nat);
        } else {
            vstd::arithmetic::div_mod::lemma_mod_add_multiples_vanish(index - 1, len);
            vstd::arithmetic::div_mod::lemma_small_mod((index - 1) as nat, len as nat);
        }
    } else {
        if index == len - 1 {
            vstd::arithmetic::div_mod::lemma_mod_self_0(len);
        } else {
            vstd::arithmetic::div_mod::lemma_small_mod((index + 1) as nat, len as nat);
        }
    }
}

/// What the user does in the prompt.
#[derive(Clone, Copy, PartialEq, Eq, Structural, Debug)]
pub enum PromptAction {
    Newline,
    Tab,
    Backtab,
    Cancel,
}

/// What the editor asks of the window around it. The requests are carried out
/// in order.
pub enum Effect {
    /// Show a notice in place of the one shown before.
    ShowToast(String),
    /// Give the focus to the prompt of the popup.
    FocusPrompt,
    /// Give the focus to the editor.
    FocusEditor,
    /// Take a block out from between the rows.
    RemoveBlock(CustomBlockId),
    /// Change the buffer, in one transaction.
    Edit(BufferEdit),
    /// Put the cursor at a place and scroll it to the center.
    SelectAndCenter(Point),
    /// Draw the editor again.
    Notify,
}

/// A request, as characters.
pub ghost enum EffectView {
    ShowToast(Seq<char>),
    FocusPrompt,
    FocusEditor,
    RemoveBlock(CustomBlockId),
    Edit(buffer::EditView),
    SelectAndCenter(Point),
    Notify,
}

impl View for Effect {
    type V = EffectView;

    open spec fn view(&self) -> EffectView {
        match *self {
            Effect::ShowToast(message) => EffectView::ShowToast(message@),
            Effect::FocusPrompt => EffectView::FocusPrompt,
            Effect::FocusEditor => EffectView::FocusEditor,
            Effect::RemoveBlock(id) => EffectView::RemoveBlock(id),
            Effect::Edit(edit) => EffectView::Edit(edit@),
            Effect::SelectAndCenter(point) => EffectView::SelectAndCenter(point),
            Effect::Notify => EffectView::Notify,
        }
    }
}

/// A list of requests, as characters.
pub open spec fn effect_views(effects: Seq<Effect>) -> Seq<EffectView> {
    Seq::new(effects.len(), |i: int| effects[i]@)
}

/// The type that the popup's badge names: the selected one, or the first
/// default where no popup is open.
pub open spec fn badge_text(popup: Option<ReviewAnnotationPopup>) -> Seq<char> {
    match popup {
        Some(popup) => popup.selected(),
        None => labels::default_labels()[0],
    }
}

/// The type that the popup's badge names, and its colour.
pub fn badge<C: Copy>(
    popup: &Option<ReviewAnnotationPopup>,
    status: &labels::StatusColors<C>,
) -> (r: (String, C))
    requires
        *popup is Some ==> popup->0.type_index < popup->0.types@.len(),
    ensures
        r.0@ == badge_text(*popup),
        r.1 == labels::color_of(badge_text(*popup), *status),
{
    let label = match popup {
        Some(popup) => popup.selected_type().to_string(),
        None => "ISSUE".to_string(),
    };
    let color = labels::type_color(label.as_str(), status);
    (label, color)
}

} // verus!
