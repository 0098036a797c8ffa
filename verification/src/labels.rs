//! The comment types: which labels a marker may carry, how the configured ones
//! are normalized, and how each is coloured.

use vstd::prelude::*;

use crate::text;

verus! {

/// The settings that the annotations read.
pub struct EditorSettings {
    /// The comment types to offer, as the user wrote them.
    pub review_annotation_types: Vec<String>,
}

// ---------------------------------------------------------------------------
// Upper case
// ---------------------------------------------------------------------------

pub open spec fn is_ascii_text(s: Seq<char>) -> bool {
    forall|i: int| 0 <= i < s.len() ==> #[trigger] s[i] as u32 <= 0x7f
}

/// The ASCII character `c` in upper case.
pub open spec fn ascii_upper(c: char) -> char {
    if 0x61 <= c as u32 <= 0x7a {
        (c as u32 - 0x20) as char
    } else {
        c
    }
}

pub open spec fn ascii_uppercase(s: Seq<char>) -> Seq<char> {
    Seq::new(s.len(), |i: int| ascii_upper(s[i]))
}

/// What `str::to_uppercase` makes of `s`, by the Unicode case mappings.
pub uninterp spec fn unicode_uppercase(s: Seq<char>) -> Seq<char>;

/// `s` in upper case: letter by letter where `s` is ASCII, by the Unicode case
/// mappings elsewhere.
pub open spec fn uppercased(s: Seq<char>) -> Seq<char> {
    if is_ascii_text(s) {
        ascii_uppercase(s)
    } else {
        unicode_uppercase(s)
    }
}

/// Calls `str::to_uppercase`. Trusted: on ASCII text it maps `a` to `z` to `A`
/// to `Z` and keeps every other character; on any other text the result depends
/// on the text alone, and `unicode_uppercase` names it.
#[verifier::external_body]
fn to_uppercase(s: &str) -> (r: String)
    ensures
        r@ == (if is_ascii_text(s@) {
            ascii_uppercase(s@)
        } else {
            unicode_uppercase(s@)
        }),
{
    s.to_uppercase()
}

// ---------------------------------------------------------------------------
// Usable labels
// ---------------------------------------------------------------------------

/// Upper case letters, digits, underscore and dash.
pub open spec fn is_label_char(c: char) -> bool {
    ||| 0x41 <= c as u32 <= 0x5a
    ||| 0x30 <= c as u32 <= 0x39
    ||| c == '_'
    ||| c == '-'
}

/// A label is usable when it is not empty and holds label characters only.
pub open spec fn is_usable(label: Seq<char>) -> bool {
    &&& label.len() > 0
    &&& forall|i: int| 0 <= i < label.len() ==> is_label_char(#[trigger] label[i])
}

/// The usable ones among `labels`, each once, in the order of their first
/// appearance.
pub open spec fn usable_distinct(labels: Seq<Seq<char>>) -> Seq<Seq<char>>
    decreases labels.len(),
{
    if labels.len() == 0 {
        Seq::<Seq<char>>::empty()
    } else {
        let before = usable_distinct(labels.drop_last());
        if is_usable(labels.last()) && !before.contains(labels.last()) {
            before.push(labels.last())
        } else {
            before
        }
    }
}

/// The types offered where none is configured.
pub open spec fn default_labels() -> Seq<Seq<char>> {
    seq!["ISSUE"@, "SUGGESTION"@, "NOTE"@, "PRAISE"@]
}

/// The types that a list of normalized labels stands for.
pub open spec fn offered(labels: Seq<Seq<char>>) -> Seq<Seq<char>> {
    if usable_distinct(labels).len() == 0 {
        default_labels()
    } else {
        usable_distinct(labels)
    }
}

/// A configured label without the white space around it, in upper case.
pub open spec fn normalized_label(label: Seq<char>) -> Seq<char> {
    uppercased(text::trimmed(label))
}

/// The types that a list of configured labels stands for.
pub open spec fn normalized(configured: Seq<Seq<char>>) -> Seq<Seq<char>> {
    offered(configured.map_values(|label: Seq<char>| normalized_label(label)))
}

/// What every list of types on offer is: not empty, each type usable, none twice.
pub open spec fn valid_types(types: Seq<Seq<char>>) -> bool {
    &&& types.len() > 0
    &&& types.no_duplicates()
    &&& forall|i: int| 0 <= i < types.len() ==> is_usable(#[trigger] types[i])
}

/// A label is usable only when it survives round-tripping through `[LABEL]`
/// and through the shell tools that read the markers back. That means letters,
/// digits, underscore, and dash: a bracket would end the label early, and `:`
/// or `+` would collide with the `:+N` span suffix.
pub fn is_usable_type(label: &str) -> (r: bool)
    ensures
        r == is_usable(label@),
{
    let chars = text::chars_of(label);
    if chars.len() == 0 {
        return false;
    }
    let mut i: usize = 0;
    while i < chars.len()
        invariant
            i <= chars@.len(),
            chars@ == label@,
            forall|j: int| 0 <= j < i ==> is_label_char(#[trigger] chars@[j]),
        decreases chars@.len() - i,
    {
        let c: char = chars[i];
        let u: u32 = c as u32;
        if !((0x41 <= u && u <= 0x5a) || (0x30 <= u && u <= 0x39) || c == '_' || c == '-') {
            assert(!is_label_char(label@[i as int]));
            return false;
        }
        i = i + 1;
    }
    true
}

/// The first position of `label` in `types`.
pub fn position_of(types: &[String], label: &str) -> (r: Option<usize>)
    ensures
        (match r {
            Some(i) => {
                &&& i < types@.len()
                &&& text::texts(types@).index_of_first(label@) == Some(i as int)
                &&& text::texts(types@)[i as int] == label@
            },
            None => {
                &&& text::texts(types@).index_of_first(label@) is None
                &&& !text::texts(types@).contains(label@)
            },
        }),
{
    proof {
        text::texts(types@).index_of_first_ensures(label@);
    }
    let mut i: usize = 0;
    while i < types.len()
        invariant
            i <= types@.len(),
            forall|j: int| 0 <= j < i ==> #[trigger] text::texts(types@)[j] != label@,
        decreases types@.len() - i,
    {
        if text::same_text(types[i].as_str(), label) {
            proof {
                text::texts(types@).index_of_first_ensures(label@);
                assert(text::texts(types@)[i as int] == label@);
            }
            return Some(i);
        }
        i = i + 1;
    }
    None
}

/// Whether `types` can be on offer: not empty, each type usable, none twice.
pub fn are_valid_types(types: &[String]) -> (r: bool)
    ensures
        r == valid_types(text::texts(types@)),
{
    let ghost all = text::texts(types@);
    let mut i: usize = 0;
    while i < types.len()
        invariant
            i <= types@.len(),
            all == text::texts(types@),
            forall|j: int| 0 <= j < i ==> is_usable(#[trigger] all[j]),
            forall|j: int| 0 <= j < i ==> all.index_of_first(#[trigger] all[j]) == Some(j),
        decreases types@.len() - i,
    {
        assert(all[i as int] == types@[i as int]@);
        if !is_usable_type(types[i].as_str()) {
            return false;
        }
        match position_of(types, types[i].as_str()) {
            Some(at) => {
                if at != i {
                    assert(all[at as int] == all[i as int]);
                    return false;
                }
            },
            None => {
                assert(all.contains(all[i as int]));
            },
        }
        i = i + 1;
    }
    assert forall|a: int, b: int| 0 <= a < b < all.len() implies all[a] != all[b] by {
        assert(all.index_of_first(all[a]) == Some(a));
        assert(all.index_of_first(all[b]) == Some(b));
    }
    types.len() > 0
}

/// The types offered where none is configured. The first is selected at first.
pub fn default_types() -> (r: Vec<String>)
    ensures
        text::texts(r@) == default_labels(),
{
    let mut types: Vec<String> = Vec::new();
    types.push("ISSUE".to_string());
    types.push("SUGGESTION".to_string());
    types.push("NOTE".to_string());
    types.push("PRAISE".to_string());
    assert(text::texts(types@) =~= default_labels());
    types
}

/// The types that `labels`, normalized already, stand for: the usable ones,
/// each once, or the defaults where no label is usable.
pub fn offered_types(labels: &[String]) -> (r: Vec<String>)
    ensures
        text::texts(r@) == offered(text::texts(labels@)),
{
    let mut types: Vec<String> = Vec::new();
    let mut i: usize = 0;
    let ghost all = text::texts(labels@);
    assert(text::texts(types@) =~= usable_distinct(all.take(0)));
    while i < labels.len()
        invariant
            i <= labels@.len(),
            all == text::texts(labels@),
            text::texts(types@) == usable_distinct(all.take(i as int)),
        decreases labels@.len() - i,
    {
        let label = labels[i].as_str();
        let ghost before = types@;
        assert(all.take(i + 1).drop_last() =~= all.take(i as int));
        assert(all.take(i + 1).last() == label@);
        if is_usable_type(label) {
            match position_of(types.as_slice(), label) {
                Some(at) => {
                    assert(text::texts(types@).contains(label@));
                },
                None => {
                    types.push(label.to_string());
                    assert(text::texts(types@) =~= text::texts(before).push(label@));
                },
            }
        }
        i = i + 1;
    }
    assert(all.take(i as int) =~= all);
    if types.len() == 0 {
        default_types()
    } else {
        types
    }
}

/// The types that the configured labels stand for: trimmed, in upper case, the
/// usable ones, each once; the defaults where no label is usable.
pub fn normalized_types(configured: &[String]) -> (r: Vec<String>)
    ensures
        text::texts(r@) == normalized(text::texts(configured@)),
{
    let mut labels: Vec<String> = Vec::new();
    let mut i: usize = 0;
    while i < configured.len()
        invariant
            i <= configured@.len(),
            labels@.len() == i,
            forall|j: int|
                0 <= j < i ==> #[trigger] labels@[j]@ == normalized_label(configured@[j]@),
        decreases configured@.len() - i,
    {
        let label = to_uppercase(text::trim(configured[i].as_str()));
        labels.push(label);
        i = i + 1;
    }
    assert(text::texts(labels@) =~= text::texts(configured@).map_values(
        |label: Seq<char>| normalized_label(label),
    ));
    offered_types(labels.as_slice())
}

/// The comment types offered by the popup, from `review_annotation_types`.
/// The first entry is initially selected; Tab cycles in list order.
pub fn configured_types(settings: &EditorSettings) -> (r: Vec<String>)
    ensures
        text::texts(r@) == normalized(text::texts(settings.review_annotation_types@)),
{
    normalized_types(settings.review_annotation_types.as_slice())
}

// ---------------------------------------------------------------------------
// Colours
// ---------------------------------------------------------------------------

/// The colours of a theme that stand for a status.
pub struct StatusColors<C> {
    pub hint: C,
    pub info: C,
    pub error: C,
    pub success: C,
}

/// The colour that marks a comment type.
pub open spec fn color_of<C>(label: Seq<char>, status: StatusColors<C>) -> C {
    if label == "NOTE"@ {
        status.hint
    } else if label == "SUGGESTION"@ {
        status.info
    } else if label == "ISSUE"@ {
        status.error
    } else if label == "PRAISE"@ {
        status.success
    } else {
        status.info
    }
}

/// The colour that marks a comment type.
pub fn type_color<C: Copy>(label: &str, status: &StatusColors<C>) -> (r: C)
    ensures
        r == color_of(label@, *status),
{
    if text::same_text(label, "NOTE") {
        status.hint
    } else if text::same_text(label, "SUGGESTION") {
        status.info
    } else if text::same_text(label, "ISSUE") {
        status.error
    } else if text::same_text(label, "PRAISE") {
        status.success
    } else {
        status.info
    }
}

} // verus!
