//! The comment syntax of a language, and the comment leader of a row.

use vstd::prelude::*;

use crate::text;

verus! {

/// The delimiters of a block comment.
pub struct BlockComment {
    pub start: String,
    pub end: String,
}

/// The comment syntax of the language at some place of a buffer.
pub struct LanguageScope {
    /// The leaders of a line comment, the preferred one first.
    pub line_comment_prefixes: Vec<String>,
    pub block_comment: Option<BlockComment>,
}

/// The delimiters of a block comment, as characters.
pub ghost struct BlockView {
    pub start: Seq<char>,
    pub end: Seq<char>,
}

/// A comment syntax, as characters.
pub ghost struct ScopeView {
    pub prefixes: Seq<Seq<char>>,
    pub block: Option<BlockView>,
}

impl View for BlockComment {
    type V = BlockView;

    open spec fn view(&self) -> BlockView {
        BlockView { start: self.start@, end: self.end@ }
    }
}

impl View for LanguageScope {
    type V = ScopeView;

    open spec fn view(&self) -> ScopeView {
        ScopeView {
            prefixes: text::texts(self.line_comment_prefixes@),
            block: match self.block_comment {
                Some(block) => Some(block@),
                None => None,
            },
        }
    }
}

/// The syntax of a scope that may be missing.
pub open spec fn scope_view(scope: Option<&LanguageScope>) -> Option<ScopeView> {
    match scope {
        Some(scope) => Some(scope@),
        None => None,
    }
}

/// Whether a comment can be written in `scope`.
pub open spec fn can_comment(scope: Option<ScopeView>) -> bool {
    match scope {
        Some(scope) => scope.prefixes.len() > 0 || scope.block is Some,
        None => false,
    }
}

/// Which comment leader opened a row, which decides whether a trailing block
/// terminator belongs to the comment or to the text.
#[derive(Clone, Copy, PartialEq, Eq, Structural, Debug)]
pub enum Leader {
    Line,
    Block,
}

/// Whether `leader` is the longest of `prefixes` that `s` starts with.
pub open spec fn is_line_leader(s: Seq<char>, prefixes: Seq<Seq<char>>, leader: Seq<char>) -> bool {
    &&& prefixes.contains(leader)
    &&& text::starts_with(s, leader)
    &&& forall|i: int|
        0 <= i < prefixes.len() && text::starts_with(s, #[trigger] prefixes[i])
            ==> prefixes[i].len() <= leader.len()
}

/// The longest of `prefixes` that `s` starts with.
pub open spec fn line_leader(s: Seq<char>, prefixes: Seq<Seq<char>>) -> Option<Seq<char>> {
    if exists|leader: Seq<char>| is_line_leader(s, prefixes, leader) {
        Some(choose|leader: Seq<char>| is_line_leader(s, prefixes, leader))
    } else {
        None
    }
}

pub proof fn lemma_line_leader(s: Seq<char>, prefixes: Seq<Seq<char>>, leader: Seq<char>)
    requires
        is_line_leader(s, prefixes, leader),
    ensures
        line_leader(s, prefixes) == Some(leader),
{
    let chosen = choose|l: Seq<char>| is_line_leader(s, prefixes, l);
    let i = choose|i: int| 0 <= i < prefixes.len() && prefixes[i] == leader;
    let j = choose|j: int| 0 <= j < prefixes.len() && prefixes[j] == chosen;
    assert(text::starts_with(s, prefixes[i]));
    assert(text::starts_with(s, prefixes[j]));
    assert(leader.len() == chosen.len());
}

pub proof fn lemma_no_line_leader(s: Seq<char>, prefixes: Seq<Seq<char>>)
    requires
        forall|i: int| 0 <= i < prefixes.len() ==> !text::starts_with(s, #[trigger] prefixes[i]),
    ensures
        line_leader(s, prefixes) is None,
{
    if exists|leader: Seq<char>| is_line_leader(s, prefixes, leader) {
        let chosen = choose|l: Seq<char>| is_line_leader(s, prefixes, l);
        let j = choose|j: int| 0 <= j < prefixes.len() && prefixes[j] == chosen;
        assert(!text::starts_with(s, prefixes[j]));
    }
}

/// The commented text of a row, with the leader that opens it. A line leader
/// goes before a block leader, and a longer line leader before a shorter one.
pub open spec fn commented(line: Seq<char>, scope: Option<ScopeView>) -> Option<
    (Seq<char>, Leader, Seq<char>),
> {
    let s = text::trimmed_start(line);
    match scope {
        None => None,
        Some(scope) => match line_leader(s, scope.prefixes) {
            Some(leader) => Some(
                (text::trimmed_start(s.skip(leader.len() as int)), Leader::Line, leader),
            ),
            None => match scope.block {
                Some(block) => if text::starts_with(s, block.start) {
                    Some(
                        (
                            text::trimmed_start(s.skip(block.start.len() as int)),
                            Leader::Block,
                            block.start,
                        ),
                    )
                } else {
                    None
                },
                None => None,
            },
        },
    }
}

/// Whether a comment can be written in `scope`.
pub fn has_comment_syntax(scope: Option<&LanguageScope>) -> (r: bool)
    ensures
        r == can_comment(scope_view(scope)),
{
    match scope {
        Some(scope) => scope.line_comment_prefixes.len() > 0 || scope.block_comment.is_some(),
        None => false,
    }
}

/// The position of the longest of `prefixes` that `s` starts with.
fn longest_prefix(s: &str, prefixes: &Vec<String>) -> (r: Option<usize>)
    ensures
        (match r {
            Some(i) => i < prefixes@.len() && is_line_leader(
                s@,
                text::texts(prefixes@),
                prefixes@[i as int]@,
            ),
            None => forall|i: int|
                0 <= i < prefixes@.len() ==> !text::starts_with(
                    s@,
                    #[trigger] text::texts(prefixes@)[i],
                ),
        }),
{
    let ghost all = text::texts(prefixes@);
    let mut best: Option<usize> = None;
    let mut best_len: usize = 0;
    let mut i: usize = 0;
    while i < prefixes.len()
        invariant
            i <= prefixes@.len(),
            all == text::texts(prefixes@),
            match best {
                Some(b) => {
                    &&& b < i
                    &&& best_len == all[b as int].len()
                    &&& text::starts_with(s@, all[b as int])
                    &&& forall|j: int|
                        0 <= j < i && text::starts_with(s@, #[trigger] all[j]) ==> all[j].len()
                            <= best_len
                },
                None => forall|j: int|
                    0 <= j < i ==> !text::starts_with(s@, #[trigger] all[j]),
            },
        decreases prefixes@.len() - i,
    {
        let prefix = prefixes[i].as_str();
        assert(all[i as int] == prefix@);
        if text::strip_prefix(s, prefix).is_some() {
            let len: usize = prefix.unicode_len();
            let better: bool = match best {
                Some(_) => len > best_len,
                None => true,
            };
            if better {
                best = Some(i);
                best_len = len;
            }
        }
        i = i + 1;
    }
    best
}

/// Strips the row's indentation and comment leader, leaving the commented text.
/// A row with no comment leader is not a comment, so it yields nothing: the
/// popup only ever writes markers behind a leader, and treating bare `[NOTE]`
/// prose as a marker would let the delete and strip paths eat ordinary lines.
pub fn strip_comment_leader<'a>(line: &'a str, scope: Option<&LanguageScope>) -> (r: Option<
    (&'a str, Leader, &'a str),
>)
    ensures
        (match r {
            Some((rest, kind, leader)) => commented(line@, scope_view(scope)) == Some(
                (rest@, kind, leader@),
            ),
            None => commented(line@, scope_view(scope)) is None,
        }),
{
    let s = text::trim_start(line);
    match scope {
        None => None,
        Some(scope) => {
            let ghost prefixes = text::texts(scope.line_comment_prefixes@);
            match longest_prefix(s, &scope.line_comment_prefixes) {
                Some(i) => {
                    let prefix = scope.line_comment_prefixes[i].as_str();
                    let len: usize = prefix.unicode_len();
                    proof {
                        lemma_line_leader(s@, prefixes, prefix@);
                    }
                    let leader = s.substring_char(0, len);
                    let rest = s.substring_char(len, s.unicode_len());
                    assert(leader@ =~= prefix@);
                    assert(rest@ =~= s@.skip(len as int));
                    Some((text::trim_start(rest), Leader::Line, leader))
                },
                None => {
                    proof {
                        lemma_no_line_leader(s@, prefixes);
                    }
                    match &scope.block_comment {
                        Some(block) => {
                            let start = block.start.as_str();
                            match text::strip_prefix(s, start) {
                                Some(rest) => {
                                    let leader = s.substring_char(0, start.unicode_len());
                                    assert(leader@ =~= start@);
                                    Some((text::trim_start(rest), Leader::Block, leader))
                                },
                                None => None,
                            }
                        },
                        None => None,
                    }
                },
            }
        },
    }
}

} // verus!
