//! Laws of searching in text, in terms of the parts that text is put together
//! from.

use vstd::prelude::*;

use crate::text;

verus! {

/// A single line is text without a newline.
pub proof fn law_single_line_holds_no_newline(s: Seq<char>)
    ensures
        text::single_line(s) <==> !s.contains('\n'),
{
    if !text::single_line(s) {
        let i = choose|i: int| 0 <= i < s.len() && !(#[trigger] s[i] != '\n');
        assert(s[i] == '\n');
    }
}

/// A pattern stands at a place exactly where what follows the place starts with it.
pub proof fn law_pattern_stands_where_the_rest_starts_with_it(
    s: Seq<char>,
    pattern: Seq<char>,
    at: int,
)
    requires
        0 <= at <= s.len(),
    ensures
        text::occurs_at(s, pattern, at) <==> pattern.is_prefix_of(s.skip(at)),
{
    let rest = s.skip(at);
    if at + pattern.len() <= s.len() {
        assert(rest.subrange(0, pattern.len() as int) =~= s.subrange(at, at + pattern.len()));
    }
}

/// Text starts with a pattern exactly where it is the pattern and something else,
/// which is then what follows it.
pub proof fn law_prefix_is_taken_off(s: Seq<char>, pattern: Seq<char>, rest: Seq<char>)
    ensures
        text::after_prefix(s, pattern) == Some(rest) <==> s == pattern + rest,
        text::starts_with(s, pattern) <==> pattern.is_prefix_of(s),
        text::starts_with(s, pattern) <==> text::after_prefix(s, pattern) is Some,
{
    if text::starts_with(s, pattern) {
        assert(s =~= pattern + s.skip(pattern.len() as int));
    }
    if s == pattern + rest {
        assert(s.subrange(0, pattern.len() as int) =~= pattern);
        assert(s.skip(pattern.len() as int) =~= rest);
    }
}

/// Text ends with a pattern exactly where it is something else and the pattern;
/// that is then what precedes it.
pub proof fn law_suffix_is_taken_off(s: Seq<char>, pattern: Seq<char>, body: Seq<char>)
    ensures
        text::before_suffix(s, pattern) == Some(body) <==> s == body + pattern,
        text::ends_with(s, pattern) <==> text::before_suffix(s, pattern) is Some,
{
    if text::ends_with(s, pattern) {
        assert(s =~= s.take(s.len() - pattern.len()) + pattern);
    }
    if s == body + pattern {
        assert(s.subrange(s.len() - pattern.len(), s.len() as int) =~= pattern);
        assert(s.take(s.len() - pattern.len()) =~= body);
    }
}

/// A pattern between two parts is found.
pub proof fn law_text_between_is_found(before: Seq<char>, pattern: Seq<char>, after: Seq<char>)
    ensures
        text::contains_text(before + pattern + after, pattern),
{
    let s = before + pattern + after;
    let at = before.len() as int;
    assert(s.subrange(at, at + pattern.len()) =~= pattern);
    assert(text::occurs_at(s, pattern, at));
}

/// A pattern that is found stands between two parts.
pub proof fn law_found_text_stands_between(s: Seq<char>, pattern: Seq<char>) -> (parts: (
    Seq<char>,
    Seq<char>,
))
    requires
        text::contains_text(s, pattern),
    ensures
        s == parts.0 + pattern + parts.1,
{
    let at = choose|at: int| text::occurs_at(s, pattern, at);
    let parts = (s.take(at), s.skip(at + pattern.len()));
    assert(s =~= parts.0 + pattern + parts.1);
    parts
}

/// Text is split at the first place of the pattern: the parts with the pattern
/// between them give back the text, and the pattern stands nowhere before. Text
/// that is not split holds the pattern nowhere.
pub proof fn law_split_is_at_the_first_pattern(s: Seq<char>, pattern: Seq<char>)
    ensures
        (match text::split_at_first(s, pattern) {
            Some((before, after)) => {
                &&& s == before + pattern + after
                &&& forall|at: int|
                    0 <= at < before.len() ==> !pattern.is_prefix_of(#[trigger] s.skip(at))
            },
            None => forall|at: int|
                0 <= at <= s.len() ==> !pattern.is_prefix_of(#[trigger] s.skip(at)),
        }),
{
    if exists|at: int| text::first_at(s, pattern, at) {
        let found = choose|at: int| text::first_at(s, pattern, at);
        assert(text::occurs_at(s, pattern, found));
        assert(s =~= s.take(found) + pattern + s.skip(found + pattern.len()));
        assert forall|at: int| 0 <= at < found implies !pattern.is_prefix_of(
            #[trigger] s.skip(at),
        ) by {
            law_pattern_stands_where_the_rest_starts_with_it(s, pattern, at);
        }
    } else {
        assert forall|at: int| 0 <= at <= s.len() implies !pattern.is_prefix_of(
            #[trigger] s.skip(at),
        ) by {
            law_pattern_stands_where_the_rest_starts_with_it(s, pattern, at);
            if text::occurs_at(s, pattern, at) {
                lemma_first_occurrence(s, pattern, at);
            }
        }
    }
}

/// Where a pattern stands in text, it stands there a first time.
pub proof fn lemma_first_occurrence(s: Seq<char>, pattern: Seq<char>, at: int)
    requires
        text::occurs_at(s, pattern, at),
    ensures
        exists|first: int| text::first_at(s, pattern, first),
    decreases at,
{
    if text::first_at(s, pattern, at) {
    } else {
        let other = choose|other: int|
            #[trigger] text::occurs_at(s, pattern, other) && !(at <= other);
        lemma_first_occurrence(s, pattern, other);
    }
}

} // verus!
