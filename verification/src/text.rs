//! Text operations on strings seen as sequences of characters: trimming,
//! searching and splitting.

use vstd::prelude::*;

verus! {

/// The characters of every string of a list.
pub open spec fn texts(strings: Seq<String>) -> Seq<Seq<char>> {
    Seq::new(strings.len(), |i: int| strings[i]@)
}

// ---------------------------------------------------------------------------
// White space
// ---------------------------------------------------------------------------

/// The characters with the Unicode property White_Space.
pub open spec fn is_white_space(c: char) -> bool {
    let u = c as u32;
    ||| 0x9 <= u <= 0xd
    ||| u == 0x20
    ||| u == 0x85
    ||| u == 0xa0
    ||| u == 0x1680
    ||| 0x2000 <= u <= 0x200a
    ||| u == 0x2028
    ||| u == 0x2029
    ||| u == 0x202f
    ||| u == 0x205f
    ||| u == 0x3000
}

/// How many white space characters `s` starts with.
pub open spec fn leading_count(s: Seq<char>) -> nat
    decreases s.len(),
{
    if s.len() > 0 && is_white_space(s.first()) {
        1 + leading_count(s.drop_first())
    } else {
        0
    }
}

/// How many white space characters `s` ends with.
pub open spec fn trailing_count(s: Seq<char>) -> nat
    decreases s.len(),
{
    if s.len() > 0 && is_white_space(s.last()) {
        1 + trailing_count(s.drop_last())
    } else {
        0
    }
}

/// The white space that `s` starts with.
pub open spec fn indent_of(s: Seq<char>) -> Seq<char> {
    s.take(leading_count(s) as int)
}

/// `s` without the white space it starts with.
pub open spec fn trimmed_start(s: Seq<char>) -> Seq<char> {
    s.skip(leading_count(s) as int)
}

/// `s` without the white space it ends with.
pub open spec fn trimmed_end(s: Seq<char>) -> Seq<char> {
    s.take(s.len() - trailing_count(s))
}

/// `s` without the white space at either end.
pub open spec fn trimmed(s: Seq<char>) -> Seq<char> {
    trimmed_end(trimmed_start(s))
}

pub proof fn lemma_leading_count(s: Seq<char>)
    ensures
        leading_count(s) <= s.len(),
        forall|i: int| 0 <= i < leading_count(s) ==> is_white_space(#[trigger] s[i]),
        leading_count(s) < s.len() ==> !is_white_space(s[leading_count(s) as int]),
    decreases s.len(),
{
    if s.len() > 0 && is_white_space(s.first()) {
        let t = s.drop_first();
        lemma_leading_count(t);
        assert forall|i: int| 0 <= i < leading_count(s) implies is_white_space(#[trigger] s[i]) by {
            if i > 0 {
                assert(s[i] == t[i - 1]);
            }
        }
        if leading_count(s) < s.len() {
            assert(s[leading_count(s) as int] == t[leading_count(t) as int]);
        }
    }
}

pub proof fn lemma_leading_count_is(s: Seq<char>, n: int)
    requires
        0 <= n <= s.len(),
        forall|i: int| 0 <= i < n ==> is_white_space(#[trigger] s[i]),
        n < s.len() ==> !is_white_space(s[n]),
    ensures
        leading_count(s) == n,
{
    lemma_leading_count(s);
    let k = leading_count(s) as int;
    if k < n {
        assert(is_white_space(s[k]));
    } else if n < k {
        assert(is_white_space(s[n]));
    }
}

pub proof fn lemma_trailing_count(s: Seq<char>)
    ensures
        trailing_count(s) <= s.len(),
        forall|i: int| s.len() - trailing_count(s) <= i < s.len() ==> is_white_space(#[trigger] s[i]),
        trailing_count(s) < s.len() ==> !is_white_space(s[s.len() - trailing_count(s) - 1]),
    decreases s.len(),
{
    if s.len() > 0 && is_white_space(s.last()) {
        let t = s.drop_last();
        lemma_trailing_count(t);
        assert forall|i: int| s.len() - trailing_count(s) <= i < s.len() implies is_white_space(
            #[trigger] s[i],
        ) by {
            if i < s.len() - 1 {
                assert(s[i] == t[i]);
            }
        }
    }
}

pub proof fn lemma_trailing_count_is(s: Seq<char>, n: int)
    requires
        0 <= n <= s.len(),
        forall|i: int| s.len() - n <= i < s.len() ==> is_white_space(#[trigger] s[i]),
        n < s.len() ==> !is_white_space(s[s.len() - n - 1]),
    ensures
        trailing_count(s) == n,
{
    lemma_trailing_count(s);
    let k = trailing_count(s) as int;
    if k < n {
        assert(is_white_space(s[s.len() - k - 1]));
    } else if n < k {
        assert(is_white_space(s[s.len() - n - 1]));
    }
}

/// Whether `c` has the Unicode property White_Space.
pub fn is_whitespace(c: char) -> (r: bool)
    ensures
        r == is_white_space(c),
{
    let u: u32 = c as u32;
    (0x9 <= u && u <= 0xd) || u == 0x20 || u == 0x85 || u == 0xa0 || u == 0x1680 || (0x2000 <= u
        && u <= 0x200a) || u == 0x2028 || u == 0x2029 || u == 0x202f || u == 0x205f || u == 0x3000
}

/// The characters of `s`, in order.
pub fn chars_of(s: &str) -> (r: Vec<char>)
    ensures
        r@ == s@,
{
    let mut out: Vec<char> = Vec::new();
    for c in it: s.chars()
        invariant
            it.seq() == s@,
            out@ == s@.take(it.index() as int),
    {
        out.push(c);
    }
    out
}

fn count_leading(chars: &Vec<char>) -> (n: usize)
    ensures
        n == leading_count(chars@),
        n <= chars@.len(),
{
    let mut n: usize = 0;
    while n < chars.len() && is_whitespace(chars[n])
        invariant
            n <= chars@.len(),
            forall|i: int| 0 <= i < n ==> is_white_space(#[trigger] chars@[i]),
        decreases chars@.len() - n,
    {
        n = n + 1;
    }
    proof {
        lemma_leading_count_is(chars@, n as int);
    }
    n
}

fn count_trailing(chars: &Vec<char>) -> (n: usize)
    ensures
        n == trailing_count(chars@),
        n <= chars@.len(),
{
    let mut n: usize = 0;
    while n < chars.len() && is_whitespace(chars[chars.len() - n - 1])
        invariant
            n <= chars@.len(),
            forall|i: int| chars@.len() - n <= i < chars@.len() ==> is_white_space(#[trigger] chars@[i]),
        decreases chars@.len() - n,
    {
        n = n + 1;
    }
    proof {
        lemma_trailing_count_is(chars@, n as int);
    }
    n
}

/// The white space that `line` starts with.
pub fn leading_whitespace(line: &str) -> (r: &str)
    ensures
        r@ == indent_of(line@),
{
    let chars = chars_of(line);
    let n: usize = count_leading(&chars);
    line.substring_char(0, n)
}

/// `s` without the white space it starts with.
pub fn trim_start(s: &str) -> (r: &str)
    ensures
        r@ == trimmed_start(s@),
{
    let chars = chars_of(s);
    let n: usize = count_leading(&chars);
    s.substring_char(n, chars.len())
}

/// `s` without the white space it ends with.
pub fn trim_end(s: &str) -> (r: &str)
    ensures
        r@ == trimmed_end(s@),
{
    let chars = chars_of(s);
    let n: usize = count_trailing(&chars);
    s.substring_char(0, chars.len() - n)
}

/// `s` without the white space at either end.
pub fn trim(s: &str) -> (r: &str)
    ensures
        r@ == trimmed(s@),
{
    trim_end(trim_start(s))
}

/// Whether the first character of `s` is white space.
pub fn starts_with_whitespace(s: &str) -> (r: bool)
    ensures
        r == (s@.len() > 0 && is_white_space(s@[0])),
{
    let chars = chars_of(s);
    chars.len() > 0 && is_whitespace(chars[0])
}

// ---------------------------------------------------------------------------
// Newlines
// ---------------------------------------------------------------------------

/// No newline in `s`.
pub open spec fn single_line(s: Seq<char>) -> bool {
    forall|i: int| 0 <= i < s.len() ==> #[trigger] s[i] != '\n'
}

/// Whether `s` holds no newline.
pub fn is_single_line(s: &str) -> (r: bool)
    ensures
        r == single_line(s@),
{
    let chars = chars_of(s);
    let mut i: usize = 0;
    while i < chars.len()
        invariant
            i <= chars@.len(),
            chars@ == s@,
            forall|j: int| 0 <= j < i ==> #[trigger] chars@[j] != '\n',
        decreases chars@.len() - i,
    {
        if chars[i] == '\n' {
            assert(s@[i as int] == '\n');
            return false;
        }
        i = i + 1;
    }
    true
}

// ---------------------------------------------------------------------------
// Equality, prefixes and suffixes
// ---------------------------------------------------------------------------

/// Whether `pattern` stands in `s` at position `at`.
pub open spec fn occurs_at(s: Seq<char>, pattern: Seq<char>, at: int) -> bool {
    &&& 0 <= at
    &&& at + pattern.len() <= s.len()
    &&& s.subrange(at, at + pattern.len()) == pattern
}

/// Whether `s` starts with `pattern`.
pub open spec fn starts_with(s: Seq<char>, pattern: Seq<char>) -> bool {
    occurs_at(s, pattern, 0)
}

/// Whether `s` ends with `pattern`.
pub open spec fn ends_with(s: Seq<char>, pattern: Seq<char>) -> bool {
    occurs_at(s, pattern, s.len() - pattern.len())
}

/// What follows `pattern` in `s`, where `s` starts with it.
pub open spec fn after_prefix(s: Seq<char>, pattern: Seq<char>) -> Option<Seq<char>> {
    if starts_with(s, pattern) {
        Some(s.skip(pattern.len() as int))
    } else {
        None
    }
}

/// What precedes `pattern` in `s`, where `s` ends with it.
pub open spec fn before_suffix(s: Seq<char>, pattern: Seq<char>) -> Option<Seq<char>> {
    if ends_with(s, pattern) {
        Some(s.take(s.len() - pattern.len()))
    } else {
        None
    }
}

fn pattern_at(chars: &Vec<char>, pattern: &Vec<char>, at: usize) -> (r: bool)
    requires
        at <= chars@.len(),
    ensures
        r == occurs_at(chars@, pattern@, at as int),
{
    let total: usize = chars.len();
    if pattern.len() > total - at {
        return false;
    }
    let mut i: usize = 0;
    while i < pattern.len()
        invariant
            i <= pattern@.len(),
            total == chars@.len(),
            at + pattern@.len() <= total,
            forall|j: int| 0 <= j < i ==> chars@[at + j] == #[trigger] pattern@[j],
        decreases pattern@.len() - i,
    {
        if chars[at + i] != pattern[i] {
            assert(chars@.subrange(at as int, at + pattern@.len())[i as int] != pattern@[i as int]);
            return false;
        }
        i = i + 1;
    }
    assert(chars@.subrange(at as int, at + pattern@.len()) =~= pattern@);
    true
}

/// Whether `a` and `b` hold the same characters.
pub fn same_text(a: &str, b: &str) -> (r: bool)
    ensures
        r == (a@ == b@),
{
    let x = chars_of(a);
    let y = chars_of(b);
    if x.len() != y.len() {
        return false;
    }
    let r = pattern_at(&x, &y, 0);
    assert(x@.subrange(0, x@.len() as int) =~= x@);
    r
}

/// What follows `pattern` in `s`; `None` where `s` does not start with it.
pub fn strip_prefix<'a>(s: &'a str, pattern: &str) -> (r: Option<&'a str>)
    ensures
        (match r {
            Some(rest) => after_prefix(s@, pattern@) == Some(rest@),
            None => after_prefix(s@, pattern@) is None,
        }),
{
    let chars = chars_of(s);
    let wanted = chars_of(pattern);
    if pattern_at(&chars, &wanted, 0) {
        Some(s.substring_char(wanted.len(), chars.len()))
    } else {
        None
    }
}

/// What precedes `pattern` in `s`; `None` where `s` does not end with it.
pub fn strip_suffix<'a>(s: &'a str, pattern: &str) -> (r: Option<&'a str>)
    ensures
        (match r {
            Some(rest) => before_suffix(s@, pattern@) == Some(rest@),
            None => before_suffix(s@, pattern@) is None,
        }),
{
    let chars = chars_of(s);
    let wanted = chars_of(pattern);
    if wanted.len() > chars.len() {
        return None;
    }
    let at: usize = chars.len() - wanted.len();
    if pattern_at(&chars, &wanted, at) {
        Some(s.substring_char(0, at))
    } else {
        None
    }
}

// ---------------------------------------------------------------------------
// Searching
// ---------------------------------------------------------------------------

/// Whether `pattern` stands anywhere in `s`.
pub open spec fn contains_text(s: Seq<char>, pattern: Seq<char>) -> bool {
    exists|at: int| occurs_at(s, pattern, at)
}

/// Whether `at` is the first position of `pattern` in `s`.
pub open spec fn first_at(s: Seq<char>, pattern: Seq<char>, at: int) -> bool {
    &&& occurs_at(s, pattern, at)
    &&& forall|other: int| #[trigger] occurs_at(s, pattern, other) ==> at <= other
}

/// What stands before and after the first `pattern` in `s`.
pub open spec fn split_at_first(s: Seq<char>, pattern: Seq<char>) -> Option<(Seq<char>, Seq<char>)> {
    if exists|at: int| first_at(s, pattern, at) {
        let at = choose|at: int| first_at(s, pattern, at);
        Some((s.take(at), s.skip(at + pattern.len())))
    } else {
        None
    }
}

pub proof fn lemma_split_at_first(s: Seq<char>, pattern: Seq<char>, at: int)
    requires
        first_at(s, pattern, at),
    ensures
        split_at_first(s, pattern) == Some((s.take(at), s.skip(at + pattern.len()))),
{
    let chosen = choose|k: int| first_at(s, pattern, k);
    assert(occurs_at(s, pattern, chosen));
    assert(occurs_at(s, pattern, at));
}

pub proof fn lemma_split_at_none(s: Seq<char>, pattern: Seq<char>)
    requires
        !contains_text(s, pattern),
    ensures
        split_at_first(s, pattern) is None,
{
    if exists|at: int| first_at(s, pattern, at) {
        let at = choose|k: int| first_at(s, pattern, k);
        assert(occurs_at(s, pattern, at));
    }
}

fn find(chars: &Vec<char>, pattern: &Vec<char>) -> (r: Option<usize>)
    ensures
        (match r {
            Some(at) => first_at(chars@, pattern@, at as int) && at + pattern@.len() <= chars@.len(),
            None => !contains_text(chars@, pattern@),
        }),
{
    let mut at: usize = 0;
    while at < chars.len()
        invariant
            at <= chars@.len(),
            forall|i: int| #[trigger] occurs_at(chars@, pattern@, i) ==> at <= i,
        decreases chars@.len() - at,
    {
        if pattern_at(chars, pattern, at) {
            return Some(at);
        }
        at = at + 1;
    }
    if pattern_at(chars, pattern, at) {
        Some(at)
    } else {
        None
    }
}

/// Whether `pattern` stands anywhere in `s`.
pub fn contains(s: &str, pattern: &str) -> (r: bool)
    ensures
        r == contains_text(s@, pattern@),
{
    let chars = chars_of(s);
    let wanted = chars_of(pattern);
    find(&chars, &wanted).is_some()
}

/// What stands before and after the first `pattern` in `s`.
pub fn split_once<'a>(s: &'a str, pattern: &str) -> (r: Option<(&'a str, &'a str)>)
    ensures
        (match r {
            Some((before, after)) => split_at_first(s@, pattern@) == Some((before@, after@)),
            None => split_at_first(s@, pattern@) is None,
        }),
{
    let chars = chars_of(s);
    let wanted = chars_of(pattern);
    match find(&chars, &wanted) {
        Some(at) => {
            proof {
                lemma_split_at_first(s@, pattern@, at as int);
            }
            let total: usize = chars.len();
            Some((s.substring_char(0, at), s.substring_char(at + wanted.len(), total)))
        },
        None => {
            proof {
                lemma_split_at_none(s@, pattern@);
            }
            None
        },
    }
}

} // verus!
