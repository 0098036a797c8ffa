//! The text of a review comment: what the user typed, on one line.

use vstd::prelude::*;

use crate::text;

verus! {

/// The lines of `s`, which newlines separate.
pub open spec fn lines_of(s: Seq<char>) -> Seq<Seq<char>>
    decreases s.len(),
{
    if s.len() == 0 {
        seq![Seq::<char>::empty()]
    } else {
        let before = lines_of(s.drop_last());
        if s.last() == '\n' {
            before.push(Seq::<char>::empty())
        } else {
            before.drop_last().push(before.last().push(s.last()))
        }
    }
}

/// The lines without the white space around them, blank lines left out.
pub open spec fn filled_lines(lines: Seq<Seq<char>>) -> Seq<Seq<char>> {
    lines.map_values(|line: Seq<char>| text::trimmed(line)).filter(
        |line: Seq<char>| line.len() > 0,
    )
}

/// The parts with a space between each two.
pub open spec fn joined(parts: Seq<Seq<char>>) -> Seq<char>
    decreases parts.len(),
{
    if parts.len() == 0 {
        Seq::<char>::empty()
    } else if parts.len() == 1 {
        parts[0]
    } else {
        joined(parts.drop_last()) + seq![' '] + parts.last()
    }
}

/// The text of the comment that `typed` stands for: its lines, trimmed, blank
/// ones left out, joined by spaces.
pub open spec fn comment_of(typed: Seq<char>) -> Seq<char> {
    joined(filled_lines(lines_of(typed)))
}

pub proof fn lemma_filled_lines_push(lines: Seq<Seq<char>>, line: Seq<char>)
    ensures
        filled_lines(lines.push(line)) == (if text::trimmed(line).len() > 0 {
            filled_lines(lines).push(text::trimmed(line))
        } else {
            filled_lines(lines)
        }),
{
    let f = |line: Seq<char>| text::trimmed(line);
    let keep = |line: Seq<char>| line.len() > 0;
    let mapped = lines.push(line).map_values(f);
    assert(mapped =~= lines.map_values(f).push(f(line)));
    assert(mapped.drop_last() =~= lines.map_values(f));
    reveal(Seq::filter);
    assert(mapped.filter(keep) == (if keep(mapped.last()) {
        mapped.drop_last().filter(keep).push(mapped.last())
    } else {
        mapped.drop_last().filter(keep)
    }));
}

pub proof fn lemma_lines_of_push(s: Seq<char>, c: char)
    ensures
        lines_of(s).len() > 0,
        lines_of(s.push(c)) == (if c == '\n' {
            lines_of(s).push(Seq::<char>::empty())
        } else {
            lines_of(s).drop_last().push(lines_of(s).last().push(c))
        }),
    decreases s.len(),
{
    assert(s.push(c).drop_last() =~= s);
    if s.len() > 0 {
        lemma_lines_of_push(s.drop_last(), s.last());
        assert(s.drop_last().push(s.last()) =~= s);
    }
}

/// Adds the line that stands in `typed` from `start` to `end` to the comment
/// text read so far.
fn add_line(typed: &str, start: usize, end: usize, out: &mut String, empty: bool, Ghost(
    done,
): Ghost<Seq<Seq<char>>>) -> (still_empty: bool)
    requires
        start <= end <= typed@.len(),
        old(out)@ == joined(filled_lines(done)),
        empty == (filled_lines(done).len() == 0),
    ensures
        ({
            let now = filled_lines(done.push(typed@.subrange(start as int, end as int)));
            final(out)@ == joined(now) && still_empty == (now.len() == 0)
        }),
{
    let line = text::trim(typed.substring_char(start, end));
    proof {
        lemma_filled_lines_push(done, typed@.subrange(start as int, end as int));
    }
    if line.is_empty() {
        return empty;
    }
    let ghost before = filled_lines(done);
    assert(before.push(line@).drop_last() =~= before);
    if empty {
        assert(joined(before.push(line@)) == line@);
        out.append(line);
    } else {
        proof {
            reveal_strlit(" ");
        }
        out.append(" ");
        out.append(line);
        assert(" "@ =~= seq![' ']);
    }
    false
}

/// The text of the comment that `typed` stands for.
pub fn comment_text(typed: &str) -> (r: String)
    ensures
        r@ == comment_of(typed@),
{
    let chars = text::chars_of(typed);
    let total: usize = chars.len();
    let mut out = String::new();
    let mut empty: bool = true;
    let mut start: usize = 0;
    let mut i: usize = 0;
    let ghost mut done = Seq::<Seq<char>>::empty();
    assert(typed@.take(0) =~= Seq::<char>::empty());
    assert(typed@.subrange(0, 0) =~= Seq::<char>::empty());
    assert(lines_of(typed@.take(0)) =~= done.push(typed@.subrange(0, 0)));
    assert(filled_lines(done) =~= Seq::<Seq<char>>::empty()) by {
        reveal(Seq::filter);
    }
    while i < total
        invariant
            start <= i <= total,
            total == typed@.len(),
            chars@ == typed@,
            lines_of(typed@.take(i as int)) == done.push(typed@.subrange(start as int, i as int)),
            out@ == joined(filled_lines(done)),
            empty == (filled_lines(done).len() == 0),
        decreases total - i,
    {
        let ghost line = typed@.subrange(start as int, i as int);
        proof {
            lemma_lines_of_push(typed@.take(i as int), typed@[i as int]);
            assert(typed@.take(i as int).push(typed@[i as int]) =~= typed@.take(i + 1));
            assert(done.push(line).drop_last() =~= done);
        }
        if chars[i] == '\n' {
            empty = add_line(typed, start, i, &mut out, empty, Ghost(done));
            proof {
                done = done.push(line);
            }
            start = i + 1;
            assert(typed@.subrange(start as int, i + 1) =~= Seq::<char>::empty());
        } else {
            assert(typed@.subrange(start as int, i + 1) =~= line.push(typed@[i as int]));
        }
        i = i + 1;
    }
    assert(typed@.take(total as int) =~= typed@);
    let _ = add_line(typed, start, total, &mut out, empty, Ghost(done));
    out
}

} // verus!
