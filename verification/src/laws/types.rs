//! Laws of the comment types.

use vstd::prelude::*;

use crate::labels;
use crate::laws::trimming;

verus! {

proof fn lemma_usable_distinct(labels: Seq<Seq<char>>)
    ensures
        labels::usable_distinct(labels).no_duplicates(),
        forall|i: int|
            0 <= i < labels::usable_distinct(labels).len() ==> labels::is_usable(
                #[trigger] labels::usable_distinct(labels)[i],
            ),
        forall|i: int|
            0 <= i < labels.len() && labels::is_usable(#[trigger] labels[i])
                ==> labels::usable_distinct(labels).contains(labels[i]),
        forall|label: Seq<char>| #[trigger]
            labels::usable_distinct(labels).contains(label) ==> labels.contains(label),
    decreases labels.len(),
{
    if labels.len() > 0 {
        let before = labels.drop_last();
        lemma_usable_distinct(before);
        let old = labels::usable_distinct(before);
        let new = labels::usable_distinct(labels);
        assert forall|i: int|
            0 <= i < labels.len() && labels::is_usable(#[trigger] labels[i]) implies new.contains(
            labels[i],
        ) by {
            if i < before.len() {
                assert(labels[i] == before[i]);
                assert(old.contains(before[i]));
                let k = choose|k: int| 0 <= k < old.len() && old[k] == before[i];
                assert(new[k] == before[i]);
            } else if !old.contains(labels.last()) {
                assert(new[new.len() - 1] == labels.last());
            }
        }
        assert forall|label: Seq<char>| #[trigger] new.contains(label) implies labels.contains(
            label,
        ) by {
            let k = choose|k: int| 0 <= k < new.len() && new[k] == label;
            if k < old.len() {
                assert(old[k] == label);
                assert(old.contains(label));
                assert(before.contains(label));
                let j = choose|j: int| 0 <= j < before.len() && before[j] == label;
                assert(labels[j] == label);
            } else {
                assert(labels[labels.len() - 1] == label);
            }
        }
    }
}

proof fn lemma_usable_distinct_fixed(labels: Seq<Seq<char>>)
    requires
        labels.no_duplicates(),
        forall|i: int| 0 <= i < labels.len() ==> labels::is_usable(#[trigger] labels[i]),
    ensures
        labels::usable_distinct(labels) == labels,
    decreases labels.len(),
{
    if labels.len() > 0 {
        let before = labels.drop_last();
        assert forall|i: int| 0 <= i < before.len() implies labels::is_usable(
            #[trigger] before[i],
        ) by {
            assert(before[i] == labels[i]);
        }
        lemma_usable_distinct_fixed(before);
        assert(labels::is_usable(labels[labels.len() - 1]));
        assert(!before.contains(labels.last()));
        assert(before.push(labels.last()) =~= labels);
    }
}

proof fn lemma_default_labels()
    ensures
        labels::default_labels().len() == 4,
        labels::default_labels().no_duplicates(),
        forall|i: int|
            0 <= i < 4 ==> labels::is_usable(#[trigger] labels::default_labels()[i]),
{
    reveal_strlit("ISSUE");
    reveal_strlit("SUGGESTION");
    reveal_strlit("NOTE");
    reveal_strlit("PRAISE");
    let all = labels::default_labels();
    assert(all[0].len() == 5 && all[1].len() == 10 && all[2].len() == 4 && all[3].len() == 6);
}

/// The types on offer are never none, each is usable, and none comes twice.
pub proof fn law_types_are_valid(configured: Seq<Seq<char>>)
    ensures
        labels::valid_types(labels::normalized(configured)),
        forall|label: Seq<char>| #[trigger]
            labels::normalized(configured).contains(label) ==> labels::is_usable(label),
{
    let mapped = configured.map_values(|label: Seq<char>| labels::normalized_label(label));
    lemma_usable_distinct(mapped);
    lemma_default_labels();
    let types = labels::normalized(configured);
    assert forall|label: Seq<char>| #[trigger] types.contains(label) implies labels::is_usable(
        label,
    ) by {
        let k = choose|k: int| 0 <= k < types.len() && types[k] == label;
        if labels::usable_distinct(mapped).len() == 0 {
            assert(labels::is_usable(labels::default_labels()[k]));
        } else {
            assert(labels::is_usable(labels::usable_distinct(mapped)[k]));
        }
    }
}

/// Every configured label that normalizes to a usable one is on offer, and where
/// there is such a label nothing else is on offer.
pub proof fn law_types_are_the_usable_configured_ones(configured: Seq<Seq<char>>, label: Seq<char>)
    requires
        exists|i: int|
            0 <= i < configured.len() && labels::is_usable(
                labels::normalized_label(#[trigger] configured[i]),
            ),
    ensures
        labels::normalized(configured).contains(label) <==> labels::is_usable(label) && exists|
            i: int,
        |
            0 <= i < configured.len() && labels::normalized_label(#[trigger] configured[i])
                == label,
{
    let mapped = configured.map_values(|label: Seq<char>| labels::normalized_label(label));
    lemma_usable_distinct(mapped);
    law_types_are_valid(configured);
    let i = choose|i: int|
        0 <= i < configured.len() && labels::is_usable(
            labels::normalized_label(#[trigger] configured[i]),
        );
    assert(labels::is_usable(mapped[i]));
    assert(labels::usable_distinct(mapped).contains(mapped[i]));
    if labels::normalized(configured).contains(label) {
        assert(mapped.contains(label));
        let j = choose|j: int| 0 <= j < mapped.len() && mapped[j] == label;
        assert(labels::normalized_label(configured[j]) == label);
    }
    if labels::is_usable(label) && exists|j: int|
        0 <= j < configured.len() && labels::normalized_label(#[trigger] configured[j]) == label {
        let j = choose|j: int|
            0 <= j < configured.len() && labels::normalized_label(#[trigger] configured[j])
                == label;
        assert(mapped[j] == label);
        assert(labels::is_usable(mapped[j]));
    }
}

/// Where no configured label normalizes to a usable one, the defaults are on
/// offer.
pub proof fn law_types_fall_back_to_defaults(configured: Seq<Seq<char>>)
    requires
        forall|i: int|
            0 <= i < configured.len() ==> !labels::is_usable(
                labels::normalized_label(#[trigger] configured[i]),
            ),
    ensures
        labels::normalized(configured) == labels::default_labels(),
{
    let mapped = configured.map_values(|label: Seq<char>| labels::normalized_label(label));
    lemma_usable_distinct(mapped);
    let kept = labels::usable_distinct(mapped);
    if kept.len() > 0 {
        assert(kept.contains(kept[0]));
        assert(mapped.contains(kept[0]));
        let j = choose|j: int| 0 <= j < mapped.len() && mapped[j] == kept[0];
        assert(!labels::is_usable(labels::normalized_label(configured[j])));
    }
}

/// A usable label is unchanged by normalizing.
pub proof fn law_usable_label_is_normalized(label: Seq<char>)
    requires
        labels::is_usable(label),
    ensures
        labels::normalized_label(label) == label,
{
    assert(labels::is_label_char(label[0]));
    assert(labels::is_label_char(label[label.len() - 1]));
    trimming::lemma_clean(label);
    assert forall|i: int| 0 <= i < label.len() implies #[trigger] label[i] as u32 <= 0x7f by {
        assert(labels::is_label_char(label[i]));
    }
    assert(labels::ascii_uppercase(label) =~= label) by {
        assert forall|i: int| 0 <= i < label.len() implies labels::ascii_upper(
            #[trigger] label[i],
        ) == label[i] by {
            assert(labels::is_label_char(label[i]));
        }
    }
}

/// Normalizing the types on offer changes nothing.
pub proof fn law_normalizing_twice(configured: Seq<Seq<char>>)
    ensures
        labels::normalized(labels::normalized(configured)) == labels::normalized(configured),
{
    let types = labels::normalized(configured);
    law_types_are_valid(configured);
    let mapped = types.map_values(|label: Seq<char>| labels::normalized_label(label));
    assert forall|i: int| 0 <= i < types.len() implies #[trigger] mapped[i] == types[i] by {
        assert(types.contains(types[i]));
        law_usable_label_is_normalized(types[i]);
    }
    assert(mapped =~= types);
    assert forall|i: int| 0 <= i < types.len() implies labels::is_usable(#[trigger] types[i]) by {
        assert(types.contains(types[i]));
    }
    lemma_usable_distinct_fixed(types);
}

/// A label is usable exactly where it has a character and every one of them is an
/// upper case letter, a digit, an underscore or a dash.
pub proof fn law_label_characters_are_these(label: Seq<char>)
    ensures
        labels::is_usable(label) <==> label.len() > 0 && forall|i: int|
            0 <= i < label.len() ==> "ABCDEFGHIJKLMNOPQRSTUVWXYZ0123456789_-"@.contains(
                #[trigger] label[i],
            ),
{
    assert forall|i: int| 0 <= i < label.len() implies labels::is_label_char(#[trigger] label[i])
        == "ABCDEFGHIJKLMNOPQRSTUVWXYZ0123456789_-"@.contains(label[i]) by {
        lemma_label_char(label[i]);
    }
}

proof fn lemma_label_char(c: char)
    ensures
        labels::is_label_char(c) <==> "ABCDEFGHIJKLMNOPQRSTUVWXYZ0123456789_-"@.contains(c),
{
    reveal_strlit("ABCDEFGHIJKLMNOPQRSTUVWXYZ0123456789_-");
    let all = "ABCDEFGHIJKLMNOPQRSTUVWXYZ0123456789_-"@;
    if labels::is_label_char(c) {
        let k = if c == '_' {
            36
        } else if c == '-' {
            37
        } else if c as u32 >= 0x41 {
            c as u32 - 0x41
        } else {
            c as u32 - 0x30 + 26
        };
        assert(all[k] == c);
    }
}

/// Each small letter goes to the capital letter at the same place of the alphabet,
/// and every other character stays.
pub proof fn law_capitals_stand_for_small_letters(c: char)
    ensures
        forall|k: int|
            0 <= k < 26 && "abcdefghijklmnopqrstuvwxyz"@[k] == c ==> labels::ascii_upper(c)
                == #[trigger] "ABCDEFGHIJKLMNOPQRSTUVWXYZ"@[k],
        !"abcdefghijklmnopqrstuvwxyz"@.contains(c) ==> labels::ascii_upper(c) == c,
{
    reveal_strlit("abcdefghijklmnopqrstuvwxyz");
    reveal_strlit("ABCDEFGHIJKLMNOPQRSTUVWXYZ");
    let small = "abcdefghijklmnopqrstuvwxyz"@;
    if 0x61 <= c as u32 <= 0x7a {
        assert(small[c as u32 - 0x61] == c);
    }
}

/// A configured label stands for itself without the white space around it, in
/// upper case: letter by letter where it is ASCII, by the Unicode case mappings
/// elsewhere.
pub proof fn law_label_is_trimmed_and_in_upper_case(
    front: Seq<char>,
    label: Seq<char>,
    back: Seq<char>,
)
    requires
        trimming::blank(front),
        trimming::blank(back),
        trimming::clean(label),
    ensures
        ({
            let normalized = labels::normalized_label(front + label + back);
            let ascii = forall|i: int| 0 <= i < label.len() ==> (#[trigger] label[i] as u32) < 0x80;
            &&& ascii ==> normalized.len() == label.len()
            &&& ascii ==> forall|i: int|
                0 <= i < label.len() ==> #[trigger] normalized[i] == labels::ascii_upper(label[i])
            &&& !ascii ==> normalized == labels::unicode_uppercase(label)
        }),
{
    trimming::lemma_trimmed_between_blanks(front, label, back);
}

proof fn lemma_usable_distinct_add(a: Seq<Seq<char>>, b: Seq<Seq<char>>)
    ensures
        labels::usable_distinct(a).is_prefix_of(labels::usable_distinct(a + b)),
    decreases b.len(),
{
    let first = labels::usable_distinct(a);
    if b.len() == 0 {
        assert(a + b =~= a);
        assert(first =~= first.subrange(0, first.len() as int));
    } else {
        lemma_usable_distinct_add(a, b.drop_last());
        assert((a + b).drop_last() =~= a + b.drop_last());
        let before = labels::usable_distinct(a + b.drop_last());
        let all = labels::usable_distinct(a + b);
        assert(all.subrange(0, first.len() as int) =~= before.subrange(0, first.len() as int));
    }
}

/// The types come in the order of the setting: labels that are put behind others
/// leave the types of those where they are.
pub proof fn law_types_keep_their_order(configured: Seq<Seq<char>>, more: Seq<Seq<char>>)
    requires
        exists|i: int|
            0 <= i < configured.len() && labels::is_usable(
                labels::normalized_label(#[trigger] configured[i]),
            ),
    ensures
        labels::normalized(configured).is_prefix_of(labels::normalized(configured + more)),
{
    let f = |label: Seq<char>| labels::normalized_label(label);
    let mapped = configured.map_values(f);
    let i = choose|i: int|
        0 <= i < configured.len() && labels::is_usable(
            labels::normalized_label(#[trigger] configured[i]),
        );
    lemma_usable_distinct(mapped);
    assert(labels::is_usable(mapped[i]));
    assert(labels::usable_distinct(mapped).contains(mapped[i]));
    lemma_usable_distinct_add(mapped, more.map_values(f));
    assert((configured + more).map_values(f) =~= mapped + more.map_values(f));
}

/// Notes have the colour of hints, issues that of errors, praise that of success,
/// and every other type that of information.
pub proof fn law_color_tells_the_type<C>(label: Seq<char>, status: labels::StatusColors<C>)
    ensures
        label == "NOTE"@ ==> labels::color_of(label, status) == status.hint,
        label == "ISSUE"@ ==> labels::color_of(label, status) == status.error,
        label == "PRAISE"@ ==> labels::color_of(label, status) == status.success,
        label != "NOTE"@ && label != "ISSUE"@ && label != "PRAISE"@ ==> labels::color_of(
            label,
            status,
        ) == status.info,
{
    reveal_strlit("NOTE");
    reveal_strlit("SUGGESTION");
    reveal_strlit("ISSUE");
    reveal_strlit("PRAISE");
    assert("NOTE"@.len() == 4 && "SUGGESTION"@.len() == 10 && "ISSUE"@.len() == 5
        && "PRAISE"@.len() == 6);
}

} // verus!
