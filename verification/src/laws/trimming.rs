//! How trimming acts on text that is put together from parts.

use vstd::prelude::*;

use crate::text;

verus! {

/// Nothing but white space.
pub open spec fn blank(s: Seq<char>) -> bool {
    forall|i: int| 0 <= i < s.len() ==> text::is_white_space(#[trigger] s[i])
}

/// No white space at the start.
pub open spec fn visible_start(s: Seq<char>) -> bool {
    s.len() > 0 ==> !text::is_white_space(s[0])
}

/// No white space at the end.
pub open spec fn visible_end(s: Seq<char>) -> bool {
    s.len() > 0 ==> !text::is_white_space(s[s.len() - 1])
}

/// No white space at either end.
pub open spec fn clean(s: Seq<char>) -> bool {
    s.len() > 0 ==> !text::is_white_space(s[0]) && !text::is_white_space(s[s.len() - 1])
}

/// Text is unchanged by trimming its start exactly where it does not start with
/// white space.
pub proof fn lemma_start_unchanged(s: Seq<char>)
    ensures
        text::trimmed_start(s) == s <==> (s.len() > 0 ==> !text::is_white_space(s[0])),
{
    text::lemma_leading_count(s);
    if s.len() > 0 && text::is_white_space(s[0]) {
        assert(text::trimmed_start(s).len() < s.len());
    } else {
        text::lemma_leading_count_is(s, 0);
        assert(s.skip(0) =~= s);
    }
}

/// Text is unchanged by trimming its end exactly where it does not end with
/// white space.
pub proof fn lemma_end_unchanged(s: Seq<char>)
    ensures
        text::trimmed_end(s) == s <==> (s.len() > 0 ==> !text::is_white_space(s[s.len() - 1])),
{
    text::lemma_trailing_count(s);
    if s.len() > 0 && text::is_white_space(s[s.len() - 1]) {
        assert(text::trimmed_end(s).len() < s.len());
    } else {
        text::lemma_trailing_count_is(s, 0);
        assert(s.take(s.len() as int) =~= s);
    }
}

/// White space in front of text is trimmed off.
pub proof fn lemma_start_after_blank(front: Seq<char>, s: Seq<char>)
    requires
        blank(front),
        s.len() > 0 ==> !text::is_white_space(s[0]),
    ensures
        text::leading_count(front + s) == front.len(),
        text::indent_of(front + s) == front,
        text::trimmed_start(front + s) == s,
{
    let whole = front + s;
    assert forall|i: int| 0 <= i < front.len() implies text::is_white_space(#[trigger] whole[i]) by {
        assert(whole[i] == front[i]);
    }
    if front.len() < whole.len() {
        assert(whole[front.len() as int] == s[0]);
    }
    text::lemma_leading_count_is(whole, front.len() as int);
    assert(whole.take(front.len() as int) =~= front);
    assert(whole.skip(front.len() as int) =~= s);
}

/// White space behind text is trimmed off.
pub proof fn lemma_end_before_blank(s: Seq<char>, back: Seq<char>)
    requires
        blank(back),
        s.len() > 0 ==> !text::is_white_space(s[s.len() - 1]),
    ensures
        text::trimmed_end(s + back) == s,
{
    let whole = s + back;
    let n = back.len() as int;
    assert forall|i: int| whole.len() - n <= i < whole.len() implies text::is_white_space(
        #[trigger] whole[i],
    ) by {
        assert(whole[i] == back[i - s.len()]);
    }
    if n < whole.len() {
        assert(whole[whole.len() - n - 1] == s[s.len() - 1]);
    }
    text::lemma_trailing_count_is(whole, n);
    assert(whole.take(whole.len() - n) =~= s);
}

/// Clean text is unchanged by trimming, and no other.
pub proof fn lemma_clean(s: Seq<char>)
    ensures
        clean(s) <==> text::trimmed(s) == s,
{
    lemma_start_unchanged(s);
    lemma_end_unchanged(s);
    lemma_trimmed(s);
}

/// What trimming leaves is clean, and the text is it with white space around.
pub proof fn lemma_trimmed(s: Seq<char>) -> (parts: (Seq<char>, Seq<char>))
    ensures
        clean(text::trimmed(s)),
        blank(parts.0),
        blank(parts.1),
        s == parts.0 + text::trimmed(s) + parts.1,
{
    text::lemma_leading_count(s);
    let n = text::leading_count(s) as int;
    let t = text::trimmed_start(s);
    text::lemma_trailing_count(t);
    let m = t.len() - text::trailing_count(t);
    let front = s.take(n);
    let back = t.skip(m);
    assert forall|i: int| 0 <= i < front.len() implies text::is_white_space(#[trigger] front[i]) by {
        assert(front[i] == s[i]);
    }
    assert forall|i: int| 0 <= i < back.len() implies text::is_white_space(#[trigger] back[i]) by {
        assert(back[i] == t[m + i]);
    }
    assert(s =~= front + text::trimmed(s) + back);
    let r = text::trimmed(s);
    if r.len() > 0 {
        assert(r[0] == s[n]);
        assert(r[r.len() - 1] == t[m - 1]);
    }
    (front, back)
}

/// White space around clean text is trimmed off.
pub proof fn lemma_trimmed_between_blanks(front: Seq<char>, s: Seq<char>, back: Seq<char>)
    requires
        blank(front),
        blank(back),
        clean(s),
    ensures
        text::trimmed(front + s + back) == s,
{
    if s.len() > 0 {
        let t = s + back;
        assert(t[0] == s[0]);
        lemma_start_after_blank(front, t);
        assert(front + t =~= front + s + back);
        lemma_end_before_blank(s, back);
    } else {
        let whole = front + s + back;
        assert forall|i: int| 0 <= i < whole.len() implies text::is_white_space(
            #[trigger] whole[i],
        ) by {
            if i < front.len() {
                assert(whole[i] == front[i]);
            } else {
                assert(whole[i] == back[i - front.len()]);
            }
        }
        lemma_start_after_blank(whole, s);
        assert(whole + s =~= whole);
        text::lemma_trailing_count_is(s, 0);
        assert(text::trimmed_end(s) =~= s);
    }
}

} // verus!
