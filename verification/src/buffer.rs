//! What the annotations read of a buffer: its rows, their comment syntax, and
//! the edits made to them.

use vstd::prelude::*;

use crate::scope;
use crate::scope::LanguageScope;
use crate::text;

verus! {

/// A place in a buffer. Columns count bytes.
#[derive(Clone, Copy, PartialEq, Eq, Structural, Debug)]
pub struct Point {
    pub row: u32,
    pub column: u32,
}

/// The comment syntax of a row from some column on.
pub struct ScopeSpan {
    /// The first column the span covers. It ends where the next span starts.
    pub start: u32,
    pub scope: Option<LanguageScope>,
}

/// A row of a buffer.
pub struct BufferRow {
    /// The text of the row, without its newline.
    pub text: String,
    /// True when the row is base text shown by an expanded diff hunk. Only the
    /// region that holds the row's first place counts: one that begins where
    /// the row ends does not.
    pub deleted: bool,
    /// The languages on the row, from left to right.
    pub scopes: Vec<ScopeSpan>,
}

/// The rows of a buffer at one moment.
pub struct MultiBufferSnapshot {
    pub rows: Vec<BufferRow>,
}

/// A replacement of the text between two places.
pub struct BufferEdit {
    pub start: Point,
    pub end: Point,
    pub text: String,
}

/// An edit, as characters.
pub ghost struct EditView {
    pub start: Point,
    pub end: Point,
    pub text: Seq<char>,
}

impl View for BufferEdit {
    type V = EditView;

    open spec fn view(&self) -> EditView {
        EditView { start: self.start, end: self.end, text: self.text@ }
    }
}

/// How many bytes `s` takes in UTF-8.
pub open spec fn byte_len(s: Seq<char>) -> nat {
    vstd::utf8::encode_utf8(s).len()
}

/// The comment syntax at `column`: that of the last span that starts there or
/// before.
pub open spec fn scope_at(spans: Seq<ScopeSpan>, column: u32) -> Option<scope::ScopeView>
    decreases spans.len(),
{
    if spans.len() == 0 {
        None
    } else if spans.last().start <= column {
        match spans.last().scope {
            Some(scope) => Some(scope@),
            None => None,
        }
    } else {
        scope_at(spans.drop_last(), column)
    }
}

/// The column of the first character of `line` that is not white space.
pub open spec fn text_column(line: Seq<char>) -> u32 {
    byte_len(text::indent_of(line)) as u32
}

/// How many characters of `line` stand before a column.
pub open spec fn chars_before(line: Seq<char>, column: u32) -> int {
    choose|n: int| 0 <= n <= line.len() && byte_len(#[trigger] line.take(n)) == column
}

/// The rows of a buffer after an edit.
pub open spec fn edited(lines: Seq<Seq<char>>, edit: EditView) -> Seq<Seq<char>> {
    let first = lines[edit.start.row as int];
    let last = lines[edit.end.row as int];
    let middle = first.take(chars_before(first, edit.start.column)) + edit.text + last.skip(
        chars_before(last, edit.end.column),
    );
    lines.take(edit.start.row as int) + crate::comment::lines_of(middle) + lines.skip(
        edit.end.row + 1,
    )
}

impl BufferRow {
    /// The row holds no newline, and its columns fit in 32 bits.
    pub open spec fn wf(self) -> bool {
        &&& byte_len(self.text@) <= u32::MAX
        &&& text::single_line(self.text@)
    }

    /// Whether the row can be one of a buffer.
    pub fn is_valid(&self) -> (r: bool)
        ensures
            r == self.wf(),
    {
        self.text.as_str().as_bytes().len() as u64 <= 0xffff_ffff && text::is_single_line(
            self.text.as_str(),
        )
    }

    /// The comment syntax where the text of the row starts.
    pub open spec fn syntax(self) -> Option<scope::ScopeView> {
        scope_at(self.scopes@, text_column(self.text@))
    }
}

impl MultiBufferSnapshot {
    /// A buffer has at least one row, no row holds a newline, and rows and
    /// columns fit in 32 bits.
    pub open spec fn wf(self) -> bool {
        &&& 1 <= self.rows@.len() <= u32::MAX + 1
        &&& forall|i: int| 0 <= i < self.rows@.len() ==> (#[trigger] self.rows@[i]).wf()
    }

    pub open spec fn has_row(self, row: u32) -> bool {
        row < self.rows@.len()
    }

    /// The text of the rows.
    pub open spec fn lines(self) -> Seq<Seq<char>> {
        Seq::new(self.rows@.len(), |i: int| self.rows@[i].text@)
    }

    /// Whether the rows can be those of a buffer.
    pub fn is_valid(&self) -> (r: bool)
        ensures
            r == self.wf(),
    {
        let total: usize = self.rows.len();
        if total == 0 || total as u64 > 0x1_0000_0000 {
            return false;
        }
        let mut i: usize = 0;
        while i < total
            invariant
                i <= total,
                total == self.rows@.len(),
                forall|j: int| 0 <= j < i ==> (#[trigger] self.rows@[j]).wf(),
            decreases total - i,
        {
            if !self.rows[i].is_valid() {
                assert(!self.rows@[i as int].wf());
                return false;
            }
            i = i + 1;
        }
        true
    }

    /// The number of the last row.
    pub fn max_row(&self) -> (r: u32)
        requires
            self.wf(),
        ensures
            r == self.rows@.len() - 1,
    {
        (self.rows.len() - 1) as u32
    }

    /// The length of a row in bytes.
    pub fn line_len(&self, row: u32) -> (r: u32)
        requires
            self.wf(),
            self.has_row(row),
        ensures
            r == byte_len(self.rows@[row as int].text@),
    {
        assert(self.rows@[row as int].wf());
        self.rows[row as usize].text.as_str().as_bytes().len() as u32
    }

    /// The comment syntax at a place.
    pub fn language_scope_at(&self, point: Point) -> (r: Option<&LanguageScope>)
        requires
            self.has_row(point.row),
        ensures
            scope::scope_view(r) == scope_at(self.rows@[point.row as int].scopes@, point.column),
    {
        let spans = &self.rows[point.row as usize].scopes;
        let mut n: usize = spans.len();
        assert(spans@.take(n as int) =~= spans@);
        while n > 0
            invariant
                n <= spans@.len(),
                *spans == self.rows@[point.row as int].scopes,
                scope_at(spans@, point.column) == scope_at(spans@.take(n as int), point.column),
            decreases n,
        {
            let ghost prefix = spans@.take(n as int);
            assert(prefix.last() == spans@[n - 1]);
            assert(prefix.drop_last() =~= spans@.take(n - 1));
            if spans[n - 1].start <= point.column {
                return spans[n - 1].scope.as_ref();
            }
            n = n - 1;
        }
        None
    }
}

/// The text of a row.
pub fn row_text(snapshot: &MultiBufferSnapshot, row: u32) -> (r: String)
    requires
        snapshot.has_row(row),
    ensures
        r@ == snapshot.rows@[row as int].text@,
{
    snapshot.rows[row as usize].text.clone()
}

/// The language at the row's first non-whitespace column. Column zero reports
/// the outer language inside a Markdown fence or an HTML `<script>`, which
/// would pick the wrong comment leader.
pub fn scope_for_row<'a>(snapshot: &'a MultiBufferSnapshot, row: u32, line: &str) -> (r: Option<
    &'a LanguageScope,
>)
    requires
        snapshot.has_row(row),
    ensures
        scope::scope_view(r) == scope_at(snapshot.rows@[row as int].scopes@, text_column(line@)),
{
    let indent = text::leading_whitespace(line);
    let column: u32 = indent.as_bytes().len() as u32;
    snapshot.language_scope_at(Point { row, column })
}

} // verus!
