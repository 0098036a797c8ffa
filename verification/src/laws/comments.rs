//! Laws of the comment text.

use vstd::prelude::*;

use crate::comment;
use crate::laws::documents;
use crate::laws::trimming;
use crate::text;

verus! {

/// The characters of `s` that are not white space.
pub open spec fn visible(s: Seq<char>) -> Seq<char>
    decreases s.len(),
{
    if s.len() == 0 {
        Seq::<char>::empty()
    } else if text::is_white_space(s.last()) {
        visible(s.drop_last())
    } else {
        visible(s.drop_last()).push(s.last())
    }
}

proof fn lemma_visible_add(a: Seq<char>, b: Seq<char>)
    ensures
        visible(a + b) == visible(a) + visible(b),
    decreases b.len(),
{
    if b.len() == 0 {
        assert(a + b =~= a);
        assert(visible(a) + visible(b) =~= visible(a));
    } else {
        lemma_visible_add(a, b.drop_last());
        assert((a + b).drop_last() =~= a + b.drop_last());
        assert((a + b).last() == b.last());
        assert(visible(a) + visible(b.drop_last()).push(b.last()) =~= (visible(a) + visible(
            b.drop_last(),
        )).push(b.last()));
    }
}

proof fn lemma_visible_blank(s: Seq<char>)
    requires
        trimming::blank(s),
    ensures
        visible(s) == Seq::<char>::empty(),
    decreases s.len(),
{
    if s.len() > 0 {
        assert(text::is_white_space(s[s.len() - 1]));
        assert forall|i: int| 0 <= i < s.len() - 1 implies text::is_white_space(
            #[trigger] s.drop_last()[i],
        ) by {
            assert(text::is_white_space(s[i]));
        }
        lemma_visible_blank(s.drop_last());
    }
}

proof fn lemma_visible_trimmed(s: Seq<char>)
    ensures
        visible(text::trimmed(s)) == visible(s),
{
    let (front, back) = trimming::lemma_trimmed(s);
    lemma_visible_blank(front);
    lemma_visible_blank(back);
    lemma_visible_add(front + text::trimmed(s), back);
    lemma_visible_add(front, text::trimmed(s));
    assert(visible(s) =~= visible(text::trimmed(s)));
}

/// The text of all the lines, one after the other.
spec fn all_lines(lines: Seq<Seq<char>>) -> Seq<char>
    decreases lines.len(),
{
    if lines.len() == 0 {
        Seq::<char>::empty()
    } else {
        all_lines(lines.drop_last()) + lines.last()
    }
}

proof fn lemma_joined_push(parts: Seq<Seq<char>>, part: Seq<char>)
    ensures
        comment::joined(parts.push(part)) == (if parts.len() == 0 {
            part
        } else {
            comment::joined(parts) + seq![' '] + part
        }),
{
    assert(parts.push(part).drop_last() =~= parts);
}

proof fn lemma_filled_lines(lines: Seq<Seq<char>>)
    ensures
        forall|i: int|
            0 <= i < comment::filled_lines(lines).len() ==> trimming::clean(
                #[trigger] comment::filled_lines(lines)[i],
            ) && comment::filled_lines(lines)[i].len() > 0,
        (forall|i: int| 0 <= i < lines.len() ==> text::single_line(#[trigger] lines[i])) ==> forall|
            i: int,
        |
            0 <= i < comment::filled_lines(lines).len() ==> text::single_line(
                #[trigger] comment::filled_lines(lines)[i],
            ),
        visible(comment::joined(comment::filled_lines(lines))) == visible(all_lines(lines)),
    decreases lines.len(),
{
    if lines.len() == 0 {
        reveal(Seq::filter);
        assert(comment::filled_lines(lines) =~= Seq::<Seq<char>>::empty());
    } else {
        let before = lines.drop_last();
        let line = lines.last();
        lemma_filled_lines(before);
        comment::lemma_filled_lines_push(before, line);
        assert(before.push(line) =~= lines);
        let t = text::trimmed(line);
        let (front, back) = trimming::lemma_trimmed(line);
        let filled = comment::filled_lines(before);
        if forall|i: int| 0 <= i < lines.len() ==> text::single_line(#[trigger] lines[i]) {
            assert forall|i: int| 0 <= i < before.len() implies text::single_line(
                #[trigger] before[i],
            ) by {
                assert(before[i] == lines[i]);
            }
            assert(text::single_line(lines[lines.len() - 1]));
            assert forall|i: int| 0 <= i < t.len() implies #[trigger] t[i] != '\n' by {
                assert(t[i] == line[front.len() + i]);
            }
        }
        lemma_visible_add(all_lines(before), line);
        lemma_visible_trimmed(line);
        lemma_joined_push(filled, t);
        if t.len() > 0 {
            if filled.len() > 0 {
                lemma_visible_add(comment::joined(filled) + seq![' '], t);
                lemma_visible_add(comment::joined(filled), seq![' ']);
                lemma_visible_blank(seq![' ']);
            } else {
                assert(comment::joined(filled) =~= Seq::<char>::empty());
            }
        }
        assert(visible(comment::joined(comment::filled_lines(lines))) =~= visible(
            all_lines(lines),
        ));
    }
}

proof fn lemma_lines_of(s: Seq<char>)
    ensures
        comment::lines_of(s).len() > 0,
        forall|i: int|
            0 <= i < comment::lines_of(s).len() ==> text::single_line(#[trigger] comment::lines_of(s)[i]),
        visible(all_lines(comment::lines_of(s))) == visible(s),
        text::single_line(s) ==> comment::lines_of(s) == seq![s],
    decreases s.len(),
{
    let lines = comment::lines_of(s);
    if s.len() == 0 {
        assert(lines.drop_last() =~= Seq::<Seq<char>>::empty());
        assert(all_lines(lines.drop_last()) == Seq::<char>::empty());
        assert(all_lines(lines) =~= Seq::<char>::empty());
        assert(s =~= Seq::<char>::empty());
    } else {
        let before = comment::lines_of(s.drop_last());
        let c = s.last();
        lemma_lines_of(s.drop_last());
        lemma_visible_add(s.drop_last(), seq![c]);
        assert(s.drop_last() + seq![c] =~= s);
        if c == '\n' {
            assert(lines.drop_last() =~= before);
            assert(all_lines(lines) =~= all_lines(before));
        } else {
            assert(lines.drop_last() =~= before.drop_last());
            assert(all_lines(lines) =~= all_lines(before) + seq![c]);
            lemma_visible_add(all_lines(before), seq![c]);
            assert forall|i: int| 0 <= i < lines.len() implies text::single_line(#[trigger] lines[i]) by {
                if i < lines.len() - 1 {
                    assert(lines[i] == before[i]);
                } else {
                    assert(text::single_line(before[before.len() - 1]));
                }
            }
        }
        if text::single_line(s) {
            assert(s[s.len() - 1] != '\n');
            assert forall|i: int| 0 <= i < s.len() - 1 implies #[trigger] s.drop_last()[i]
                != '\n' by {
                assert(s[i] != '\n');
            }
            assert(lines =~= seq![s.drop_last().push(c)]);
            assert(s.drop_last().push(c) =~= s);
        }
    }
}

/// A single line is its only line.
pub proof fn lemma_single_line(s: Seq<char>)
    requires
        text::single_line(s),
    ensures
        comment::lines_of(s) == seq![s],
{
    lemma_lines_of(s);
}

proof fn lemma_joined(parts: Seq<Seq<char>>)
    requires
        forall|i: int|
            0 <= i < parts.len() ==> trimming::clean(#[trigger] parts[i]) && parts[i].len() > 0
                && text::single_line(parts[i]),
    ensures
        parts.len() > 0 ==> comment::joined(parts).len() > 0,
        trimming::clean(comment::joined(parts)),
        text::single_line(comment::joined(parts)),
    decreases parts.len(),
{
    if parts.len() == 1 {
        assert(trimming::clean(parts[0]));
    } else if parts.len() > 1 {
        let before = parts.drop_last();
        assert forall|i: int| 0 <= i < before.len() implies trimming::clean(#[trigger] before[i])
            && before[i].len() > 0 && text::single_line(before[i]) by {
            assert(before[i] == parts[i]);
        }
        lemma_joined(before);
        let a = comment::joined(before);
        let b = parts[parts.len() - 1];
        let r = comment::joined(parts);
        assert(r == a + seq![' '] + b);
        assert(r[0] == a[0]);
        assert(r[r.len() - 1] == b[b.len() - 1]);
        assert forall|i: int| 0 <= i < r.len() implies #[trigger] r[i] != '\n' by {
            if i < a.len() {
                assert(r[i] == a[i]);
            } else if i > a.len() {
                assert(r[i] == b[i - a.len() - 1]);
            }
        }
    }
}

/// The text of a comment is a single line with no white space around it.
pub proof fn law_comment_is_one_clean_line(typed: Seq<char>)
    ensures
        text::single_line(comment::comment_of(typed)),
        text::trimmed(comment::comment_of(typed)) == comment::comment_of(typed),
{
    lemma_lines_of(typed);
    lemma_filled_lines(comment::lines_of(typed));
    lemma_joined(comment::filled_lines(comment::lines_of(typed)));
    trimming::lemma_clean(comment::comment_of(typed));
}

/// Whatever the user typed is kept, in order, except for white space.
pub proof fn law_comment_keeps_what_was_typed(typed: Seq<char>)
    ensures
        visible(comment::comment_of(typed)) == visible(typed),
{
    lemma_lines_of(typed);
    lemma_filled_lines(comment::lines_of(typed));
}

/// Only where nothing but white space was typed is the comment empty.
pub proof fn law_comment_is_empty_only_when_nothing_was_typed(typed: Seq<char>)
    ensures
        comment::comment_of(typed).len() == 0 <==> trimming::blank(typed),
{
    law_comment_keeps_what_was_typed(typed);
    law_comment_is_one_clean_line(typed);
    let r = comment::comment_of(typed);
    trimming::lemma_clean(r);
    if trimming::blank(typed) {
        lemma_visible_blank(typed);
        if r.len() > 0 {
            assert(!text::is_white_space(r.last()));
            assert(visible(r).len() > 0);
        }
    }
    if r.len() == 0 {
        lemma_no_visible(typed);
    }
}

proof fn lemma_no_visible(s: Seq<char>)
    requires
        visible(s).len() == 0,
    ensures
        trimming::blank(s),
    decreases s.len(),
{
    if s.len() > 0 {
        lemma_no_visible(s.drop_last());
        assert forall|i: int| 0 <= i < s.len() implies text::is_white_space(#[trigger] s[i]) by {
            if i < s.len() - 1 {
                assert(text::is_white_space(s.drop_last()[i]));
            }
        }
    }
}

/// The text of a comment stands for itself when it is typed again.
pub proof fn law_comment_of_a_comment(typed: Seq<char>)
    ensures
        comment::comment_of(comment::comment_of(typed)) == comment::comment_of(typed),
{
    let r = comment::comment_of(typed);
    law_comment_is_one_clean_line(typed);
    lemma_comment_unchanged(r);
}

/// Text that is a single line with no white space around it is its own comment.
pub proof fn lemma_comment_unchanged(s: Seq<char>)
    requires
        text::single_line(s),
        text::trimmed(s) == s,
    ensures
        comment::comment_of(s) == s,
{
    lemma_lines_of(s);
    let none = Seq::<Seq<char>>::empty();
    assert(none.push(s) =~= seq![s]);
    comment::lemma_filled_lines_push(none, s);
    assert(comment::filled_lines(none) =~= none) by {
        reveal(Seq::filter);
    }
    assert(comment::joined(none) =~= Seq::<char>::empty());
    if s.len() > 0 {
        assert(comment::filled_lines(comment::lines_of(s)) =~= seq![s]);
    } else {
        assert(s =~= Seq::<char>::empty());
    }
}

proof fn lemma_filled_lines_add(a: Seq<Seq<char>>, b: Seq<Seq<char>>)
    ensures
        comment::filled_lines(a + b) == comment::filled_lines(a) + comment::filled_lines(b),
    decreases b.len(),
{
    if b.len() == 0 {
        assert(comment::filled_lines(b) =~= Seq::<Seq<char>>::empty()) by {
            reveal(Seq::filter);
        }
        assert(a + b =~= a);
        assert(comment::filled_lines(a) + comment::filled_lines(b) =~= comment::filled_lines(a));
    } else {
        let before = b.drop_last();
        lemma_filled_lines_add(a, before);
        comment::lemma_filled_lines_push(before, b.last());
        comment::lemma_filled_lines_push(a + before, b.last());
        assert(before.push(b.last()) =~= b);
        assert((a + before).push(b.last()) =~= a + b);
        assert(comment::filled_lines(a + b) =~= comment::filled_lines(a) + comment::filled_lines(b));
    }
}

proof fn lemma_joined_add(a: Seq<Seq<char>>, b: Seq<Seq<char>>)
    ensures
        comment::joined(a + b) == (if a.len() == 0 {
            comment::joined(b)
        } else if b.len() == 0 {
            comment::joined(a)
        } else {
            comment::joined(a) + seq![' '] + comment::joined(b)
        }),
    decreases b.len(),
{
    if a.len() == 0 {
        assert(a + b =~= b);
    } else if b.len() == 0 {
        assert(a + b =~= a);
    } else {
        let before = b.drop_last();
        lemma_joined_add(a, before);
        lemma_joined_push(before, b.last());
        lemma_joined_push(a + before, b.last());
        assert(before.push(b.last()) =~= b);
        assert((a + before).push(b.last()) =~= a + b);
        assert(comment::joined(a + b) =~= comment::joined(a) + seq![' '] + comment::joined(b));
    }
}

/// What was typed on one line is the comment, without the white space around it
/// and with all the white space inside it.
pub proof fn law_one_line_is_only_trimmed(typed: Seq<char>)
    requires
        text::single_line(typed),
    ensures
        comment::comment_of(typed) == text::trimmed(typed),
{
    lemma_lines_of(typed);
    let none = Seq::<Seq<char>>::empty();
    assert(none.push(typed) =~= seq![typed]);
    comment::lemma_filled_lines_push(none, typed);
    assert(comment::filled_lines(none) =~= none) by {
        reveal(Seq::filter);
    }
    assert(comment::joined(none) =~= Seq::<char>::empty());
    let t = text::trimmed(typed);
    if t.len() > 0 {
        assert(comment::filled_lines(comment::lines_of(typed)) =~= seq![t]);
    } else {
        assert(t =~= Seq::<char>::empty());
    }
}

/// A newline parts the comment in two: what comes of the one and what comes of the
/// other, with a single space between them, or either alone where the other is
/// blank.
pub proof fn law_lines_are_joined_by_one_space(above: Seq<char>, below: Seq<char>)
    ensures
        ({
            let first = comment::comment_of(above);
            let second = comment::comment_of(below);
            comment::comment_of(above.push('\n') + below) == (if trimming::blank(above) {
                second
            } else if trimming::blank(below) {
                first
            } else {
                first + seq![' '] + second
            })
        }),
{
    let a = comment::filled_lines(comment::lines_of(above));
    let b = comment::filled_lines(comment::lines_of(below));
    documents::lemma_lines_after_newline(above, below);
    lemma_filled_lines_add(comment::lines_of(above), comment::lines_of(below));
    lemma_joined_add(a, b);
    law_comment_is_empty_only_when_nothing_was_typed(above);
    law_comment_is_empty_only_when_nothing_was_typed(below);
    lemma_filled_is_typed(above);
    lemma_filled_is_typed(below);
    if a.len() == 0 && b.len() == 0 {
        assert(comment::joined(a) =~= comment::joined(b));
    }
}

proof fn lemma_filled_is_typed(typed: Seq<char>)
    ensures
        comment::filled_lines(comment::lines_of(typed)).len() > 0 <==> comment::comment_of(
            typed,
        ).len() > 0,
{
    lemma_lines_of(typed);
    lemma_filled_lines(comment::lines_of(typed));
    lemma_joined(comment::filled_lines(comment::lines_of(typed)));
}

/// The lines of text are what its newlines separate: text without one is a single
/// line, and a newline ends the lines before it.
pub proof fn law_lines_are_what_newlines_separate(line: Seq<char>, rest: Seq<char>)
    requires
        !line.contains('\n'),
    ensures
        comment::lines_of(line) == seq![line],
        comment::lines_of(line.push('\n') + rest) == seq![line] + comment::lines_of(rest),
{
    assert forall|i: int| 0 <= i < line.len() implies #[trigger] line[i] != '\n' by {
        assert(line.contains(line[i]));
    }
    lemma_single_line(line);
    documents::lemma_lines_after_newline(line, rest);
}

} // verus!
