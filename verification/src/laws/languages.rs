//! Laws of the language at a row: which comment syntax a row is read and written
//! with.

use vstd::prelude::*;

use crate::buffer;
use crate::buffer::{BufferRow, ScopeSpan};
use crate::laws::trimming;
use crate::scope;
use crate::scope::LanguageScope;

verus! {

/// The language is looked up at the first character that is not white space: the
/// column is the length of the indentation in UTF-8, however deep it is.
pub proof fn law_language_is_looked_up_where_the_text_starts(indent: Seq<char>, rest: Seq<char>)
    requires
        trimming::blank(indent),
        trimming::visible_start(rest),
        vstd::utf8::encode_utf8(indent).len() <= u32::MAX,
    ensures
        buffer::text_column(indent + rest) == vstd::utf8::encode_utf8(indent).len(),
{
    trimming::lemma_start_after_blank(indent, rest);
}

proof fn lemma_scope_at(spans: Seq<ScopeSpan>, column: u32, k: int)
    requires
        -1 <= k < spans.len(),
        k >= 0 ==> spans[k].start <= column,
        forall|j: int| k < j < spans.len() ==> (#[trigger] spans[j]).start > column,
    ensures
        k < 0 ==> buffer::scope_at(spans, column) is None,
        k >= 0 ==> buffer::scope_at(spans, column) == (match spans[k].scope {
            Some(scope) => Some(scope@),
            None => None,
        }),
    decreases spans.len(),
{
    if spans.len() > 0 && k < spans.len() - 1 {
        assert(spans[spans.len() - 1].start > column);
        let before = spans.drop_last();
        assert forall|j: int| k < j < before.len() implies (#[trigger] before[j]).start
            > column by {
            assert(before[j] == spans[j]);
        }
        lemma_scope_at(before, column, k);
    }
}

/// A place belongs to the span that starts there or before it while the spans
/// behind that one start after it.
pub proof fn law_place_belongs_to_the_span_that_covers_it(
    spans: Seq<ScopeSpan>,
    column: u32,
    k: int,
)
    requires
        0 <= k < spans.len(),
        spans[k].start <= column,
        forall|j: int| k < j < spans.len() ==> (#[trigger] spans[j]).start > column,
    ensures
        buffer::scope_at(spans, column) == (match spans[k].scope {
            Some(scope) => Some(scope@),
            None => None,
        }),
{
    lemma_scope_at(spans, column, k);
}

/// Before the first span there is no language.
pub proof fn law_no_language_before_the_first_span(spans: Seq<ScopeSpan>, column: u32)
    requires
        forall|j: int| 0 <= j < spans.len() ==> (#[trigger] spans[j]).start > column,
    ensures
        buffer::scope_at(spans, column) is None,
{
    lemma_scope_at(spans, column, -1);
}

/// A row has the comment syntax of the span that covers its first character that
/// is not white space, whatever language the row starts in.
pub proof fn law_row_has_the_syntax_of_its_text(
    row: BufferRow,
    indent: Seq<char>,
    rest: Seq<char>,
    k: int,
)
    requires
        row.text@ == indent + rest,
        trimming::blank(indent),
        trimming::visible_start(rest),
        vstd::utf8::encode_utf8(indent).len() <= u32::MAX,
        0 <= k < row.scopes@.len(),
        row.scopes@[k].start <= vstd::utf8::encode_utf8(indent).len(),
        forall|j: int|
            k < j < row.scopes@.len() ==> (#[trigger] row.scopes@[j]).start
                > vstd::utf8::encode_utf8(indent).len(),
    ensures
        row.syntax() == (match row.scopes@[k].scope {
            Some(scope) => Some(scope@),
            None => None,
        }),
{
    law_language_is_looked_up_where_the_text_starts(indent, rest);
    lemma_scope_at(row.scopes@, vstd::utf8::encode_utf8(indent).len() as u32, k);
}

/// A row whose text starts before every span has no comment syntax.
pub proof fn law_row_before_every_span_has_no_syntax(
    row: BufferRow,
    indent: Seq<char>,
    rest: Seq<char>,
)
    requires
        row.text@ == indent + rest,
        trimming::blank(indent),
        trimming::visible_start(rest),
        vstd::utf8::encode_utf8(indent).len() <= u32::MAX,
        forall|j: int|
            0 <= j < row.scopes@.len() ==> (#[trigger] row.scopes@[j]).start
                > vstd::utf8::encode_utf8(indent).len(),
    ensures
        row.syntax() is None,
{
    law_language_is_looked_up_where_the_text_starts(indent, rest);
    lemma_scope_at(row.scopes@, vstd::utf8::encode_utf8(indent).len() as u32, -1);
}

/// The comment syntax of a language is its line leaders, in their order, and its
/// block comment.
pub proof fn law_syntax_is_that_of_the_language(language: LanguageScope)
    ensures
        scope::scope_view(None) is None,
        scope::scope_view(Some(&language)) == Some(language@),
        language@.prefixes.len() == language.line_comment_prefixes@.len(),
        forall|i: int|
            0 <= i < language.line_comment_prefixes@.len() ==> #[trigger] language@.prefixes[i]
                == language.line_comment_prefixes@[i]@,
        (match language.block_comment {
            Some(block) => language@.block == Some(
                scope::BlockView { start: block.start@, end: block.end@ },
            ),
            None => language@.block is None,
        }),
{
}

/// Comments can be written exactly where the language has a line leader or a
/// block comment.
pub proof fn law_comments_need_a_syntax(syntax: Option<scope::ScopeView>)
    ensures
        scope::can_comment(syntax) <==> exists|written: scope::ScopeView|
            syntax == Some(written) && (written.prefixes != Seq::<Seq<char>>::empty()
                || written.block != None::<scope::BlockView>),
{
    if let Some(written) = syntax {
        assert(written.prefixes.len() == 0 ==> written.prefixes =~= Seq::<Seq<char>>::empty());
    }
}

} // verus!
