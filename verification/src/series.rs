//! Series: what tells them apart and how they are labelled.
use vstd::prelude::*;
use vstd::relations::sorted_by;
use vstd::seq_lib::lemma_sorted_unique;

use crate::dogstatsd::tags_view;
use crate::order::{
    ints, lemma_map_keeps_multiset, pair_le, pair_order, pairs_are_totally_ordered, pairs_view,
    positions, slot_le, slot_order, slots_are_totally_ordered, sort_slots, sorted_positions,
    PairView,
};
use crate::text::{
    chars_of, join, join_strings, lemma_find_unique, lemma_split_of_join, split, strings_view,
};

verus! {

/// The tags in the one order that does not depend on how they were given.
pub open spec fn canonical(tags: Seq<PairView>) -> Seq<PairView> {
    tags.sort_by(pair_order())
}

/// A name followed by tags.
pub open spec fn key_text(name: Seq<char>, tags: Seq<PairView>) -> Seq<char>
    decreases tags.len(),
{
    if tags.len() == 0 {
        name
    } else {
        key_text(name, tags.drop_last()) + seq!['|'] + tags.last().0 + seq!['='] + tags.last().1
    }
}

/// The key of the series of a metric with these tags.
pub open spec fn key_of(name: Seq<char>, tags: Seq<PairView>) -> Seq<char> {
    key_text(name, canonical(tags))
}

/// A tag as it is shown: the key alone where the value is empty.
pub open spec fn tag_label(tag: PairView) -> Seq<char> {
    if tag.1.len() == 0 {
        tag.0
    } else {
        tag.0 + seq![':'] + tag.1
    }
}

/// Tags as they are shown, with commas between them.
pub open spec fn tag_list(tags: Seq<PairView>) -> Seq<char> {
    join(tags.map_values(|tag: PairView| tag_label(tag)), ", "@)
}

/// The label of the series of a metric with these tags; empty where there are none.
pub open spec fn label_of(tags: Seq<PairView>) -> Seq<char> {
    if tags.len() == 0 {
        seq![]
    } else {
        seq!['['] + tag_list(canonical(tags)) + seq![']']
    }
}

/// The pairs taken in the order of their sorted places are the sorted pairs.
proof fn lemma_sorted_positions_sort(pairs: Seq<PairView>)
    ensures
        sorted_positions(pairs).map_values(|i: int| pairs[i]) == pairs.sort_by(pair_order()),
{
    let slots = sorted_positions(pairs);
    let all = positions(pairs.len());
    let pick = |i: int| pairs[i];
    let picked = slots.map_values(pick);
    slots_are_totally_ordered(pairs);
    pairs_are_totally_ordered();
    all.lemma_sort_by_ensures(slot_order(pairs));
    pairs.lemma_sort_by_ensures(pair_order());
    lemma_map_keeps_multiset(slots, all, pick);
    assert(all.map_values(pick) =~= pairs);
    let order = pair_order();
    assert forall|a: int, b: int| 0 <= a < b < picked.len() implies #[trigger] order(
        picked[a],
        picked[b],
    ) by {
        assert(slot_order(pairs)(slots[a], slots[b]));
        assert(slot_le(pairs, slots[a], slots[b]));
        assert(order(picked[a], picked[a]));
    }
    lemma_sorted_unique(picked, pairs.sort_by(order), order);
}

/// The tags in the one order that does not depend on how they were given.
pub fn canonical_tags(tags: &[(String, String)]) -> (sorted: Vec<(String, String)>)
    ensures
        tags_view(sorted@) == canonical(tags_view(tags@)),
        sorted@.len() == tags@.len(),
{
    let ghost views = tags_view(tags@);
    let mut pairs: Vec<(Vec<char>, Vec<char>)> = Vec::new();
    let mut i: usize = 0;
    while i < tags.len()
        invariant
            i <= tags@.len(),
            views == tags_view(tags@),
            pairs@.len() == i,
            pairs_view(pairs@) == views.take(i as int),
        decreases tags@.len() - i,
    {
        let ghost before = pairs@;
        pairs.push((chars_of(tags[i].0.as_str()), chars_of(tags[i].1.as_str())));
        assert(pairs_view(pairs@) == pairs_view(before).push(views[i as int]));
        i += 1;
        assert(views.take(i as int) == views.take(i - 1).push(views[i - 1]));
    }
    assert(views.take(i as int) == views);
    let slots: Vec<usize> = sort_slots(&pairs);
    let mut sorted: Vec<(String, String)> = Vec::new();
    let ghost picked = sorted_positions(views).map_values(|i: int| views[i]);
    let mut j: usize = 0;
    while j < slots.len()
        invariant
            j <= slots@.len(),
            slots@.len() == tags@.len(),
            views == tags_view(tags@),
            ints(slots@) == sorted_positions(views),
            picked == sorted_positions(views).map_values(|i: int| views[i]),
            forall|k: int| 0 <= k < slots@.len() ==> (#[trigger] slots@[k]) < tags@.len(),
            sorted@.len() == j,
            tags_view(sorted@) == picked.take(j as int),
        decreases slots@.len() - j,
    {
        let ghost before = sorted@;
        let slot: usize = slots[j];
        sorted.push((tags[slot].0.clone(), tags[slot].1.clone()));
        assert(ints(slots@)[j as int] == slot);
        assert(tags_view(sorted@) == tags_view(before).push(views[slot as int]));
        j += 1;
        assert(picked.take(j as int) == picked.take(j - 1).push(picked[j - 1]));
    }
    proof {
        assert(picked.take(j as int) == picked);
        lemma_sorted_positions_sort(views);
    }
    sorted
}

/// The key of the series of a metric with these tags.
pub fn series_key(name: &str, tags: &[(String, String)]) -> (key: String)
    ensures
        key@ == key_of(name@, tags_view(tags@)),
{
    let mut key: String = name.to_owned();
    let sorted: Vec<(String, String)> = canonical_tags(tags);
    let ghost views = tags_view(sorted@);
    let mut i: usize = 0;
    while i < sorted.len()
        invariant
            i <= sorted@.len(),
            views == tags_view(sorted@),
            key@ == key_text(name@, views.take(i as int)),
        decreases sorted@.len() - i,
    {
        key.push('|');
        key.append(sorted[i].0.as_str());
        key.push('=');
        key.append(sorted[i].1.as_str());
        i += 1;
        proof {
            let taken = views.take(i as int);
            assert(taken.drop_last() == views.take(i - 1));
            assert(taken.last() == views[i - 1]);
            assert(key@ == key_text(name@, taken));
        }
    }
    assert(views.take(i as int) == views);
    key
}

/// A tag as it is shown.
fn tag_label_text(tag: &(String, String)) -> (label: String)
    ensures
        label@ == tag_label((tag.0@, tag.1@)),
{
    let mut label: String = tag.0.clone();
    if !tag.1.as_str().is_empty() {
        label.push(':');
        label.append(tag.1.as_str());
        assert(label@ == tag.0@ + seq![':'] + tag.1@);
    }
    label
}

/// Tags as they are shown, with commas between them.
pub fn format_tags_full(tags: &[(String, String)]) -> (list: String)
    ensures
        list@ == tag_list(tags_view(tags@)),
{
    let ghost views = tags_view(tags@);
    let ghost shown = views.map_values(|tag: PairView| tag_label(tag));
    let mut labels: Vec<String> = Vec::new();
    let mut i: usize = 0;
    while i < tags.len()
        invariant
            i <= tags@.len(),
            views == tags_view(tags@),
            shown == views.map_values(|tag: PairView| tag_label(tag)),
            strings_view(labels@) == shown.take(i as int),
        decreases tags@.len() - i,
    {
        let ghost before = labels@;
        labels.push(tag_label_text(&tags[i]));
        assert(strings_view(labels@) == strings_view(before).push(shown[i as int]));
        i += 1;
        assert(shown.take(i as int) == shown.take(i - 1).push(shown[i - 1]));
    }
    assert(shown.take(i as int) == shown);
    join_strings(&labels, ", ")
}

/// The label of the series of a metric with these tags; empty where there are none.
pub fn labels_text(tags: &[(String, String)]) -> (label: String)
    ensures
        label@ == label_of(tags_view(tags@)),
{
    let sorted: Vec<(String, String)> = canonical_tags(tags);
    if sorted.len() == 0 {
        return String::new();
    }
    let mut label: String = String::new();
    label.push('[');
    label.append(format_tags_full(sorted.as_slice()).as_str());
    label.push(']');
    assert(label@ == label_of(tags_view(tags@)));
    label
}

/// The canonical order holds the same tags, sorted.
pub proof fn canonical_tags_are_sorted(tags: Seq<PairView>)
    ensures
        canonical(tags).to_multiset() == tags.to_multiset(),
        canonical(tags).len() == tags.len(),
        sorted_by(canonical(tags), pair_order()),
{
    pairs_are_totally_ordered();
    tags.lemma_sort_by_ensures(pair_order());
    vstd::seq_lib::to_multiset_len(tags);
    vstd::seq_lib::to_multiset_len(canonical(tags));
}

/// The order in which tags are given makes no difference to the series they belong to, nor to its
/// label.
pub proof fn tag_order_makes_no_difference(
    name: Seq<char>,
    left: Seq<PairView>,
    right: Seq<PairView>,
)
    requires
        left.to_multiset() == right.to_multiset(),
    ensures
        canonical(left) == canonical(right),
        key_of(name, left) == key_of(name, right),
        label_of(left) == label_of(right),
{
    pairs_are_totally_ordered();
    canonical_tags_are_sorted(left);
    canonical_tags_are_sorted(right);
    lemma_sorted_unique(canonical(left), canonical(right), pair_order());
}

/// A series has a label if and only if its metric has tags.
pub proof fn label_is_empty_without_tags(tags: Seq<PairView>)
    ensures
        label_of(tags).len() == 0 <==> tags.len() == 0,
{
}

/// A tag as it stands in a key.
pub open spec fn tag_in_key(tag: PairView) -> Seq<char> {
    tag.0 + seq!['='] + tag.1
}

/// Whether a tag holds none of the characters that end it in a key.
pub open spec fn is_plain_in_key(tag: PairView) -> bool {
    &&& !tag.0.contains('|') && !tag.0.contains('=')
    &&& !tag.1.contains('|')
}

/// A key is the name and the tags with bars between them.
proof fn lemma_key_text_is_join(name: Seq<char>, tags: Seq<PairView>)
    ensures
        key_text(name, tags) == join(
            seq![name] + tags.map_values(|tag: PairView| tag_in_key(tag)),
            seq!['|'],
        ),
    decreases tags.len(),
{
    let pieces = seq![name] + tags.map_values(|tag: PairView| tag_in_key(tag));
    if tags.len() == 0 {
        assert(pieces == seq![name]);
    } else {
        let rest = tags.drop_last();
        lemma_key_text_is_join(name, rest);
        assert(pieces.drop_last() == seq![name] + rest.map_values(
            |tag: PairView| tag_in_key(tag),
        ));
        assert(pieces.last() == tag_in_key(tags.last()));
        assert(key_text(name, tags) == key_text(name, rest) + seq!['|'] + tag_in_key(tags.last()));
    }
}

/// A key starts with the name, and the rest depends on the tags alone.
proof fn lemma_key_text_starts_with_name(name: Seq<char>, tags: Seq<PairView>)
    ensures
        key_text(name, tags) == name + key_text(seq![], tags),
    decreases tags.len(),
{
    if tags.len() > 0 {
        lemma_key_text_starts_with_name(name, tags.drop_last());
        let rest = key_text(seq![], tags.drop_last());
        assert(key_text(name, tags) == name + (rest + seq!['|'] + tags.last().0 + seq!['=']
            + tags.last().1));
    } else {
        assert(name + Seq::<char>::empty() == name);
    }
}

/// A tag is known by its text in a key.
proof fn lemma_tag_in_key_is_injective(left: PairView, right: PairView)
    requires
        is_plain_in_key(left),
        is_plain_in_key(right),
        tag_in_key(left) == tag_in_key(right),
    ensures
        left == right,
{
    let text = tag_in_key(left);
    assert forall|i: int| 0 <= i < left.0.len() implies text[i] != '=' by {
        assert(left.0.contains(left.0[i]));
        assert(text[i] == left.0[i]);
    }
    lemma_find_unique(text, '=', left.0.len());
    assert forall|i: int| 0 <= i < right.0.len() implies tag_in_key(right)[i] != '=' by {
        assert(right.0.contains(right.0[i]));
        assert(tag_in_key(right)[i] == right.0[i]);
    }
    lemma_find_unique(tag_in_key(right), '=', right.0.len());
    let at = left.0.len() as int;
    assert(left.0 == text.take(at));
    assert(right.0 == tag_in_key(right).take(at));
    assert(left.1 == text.skip(at + 1));
    assert(right.1 == tag_in_key(right).skip(at + 1));
}

/// The pieces of a key hold no bar.
proof fn lemma_key_pieces_lack_bars(name: Seq<char>, tags: Seq<PairView>)
    requires
        !name.contains('|'),
        forall|i: int| 0 <= i < tags.len() ==> is_plain_in_key(#[trigger] tags[i]),
    ensures
        split(key_text(name, tags), '|') == seq![name] + tags.map_values(
            |tag: PairView| tag_in_key(tag),
        ),
{
    let pieces = seq![name] + tags.map_values(|tag: PairView| tag_in_key(tag));
    lemma_key_text_is_join(name, tags);
    assert forall|i: int| 0 <= i < pieces.len() implies !(#[trigger] pieces[i]).contains('|') by {
        if i > 0 {
            let tag = tags[i - 1];
            assert(is_plain_in_key(tag));
            assert(pieces[i] == tag_in_key(tag));
            if pieces[i].contains('|') {
                let k = choose|k: int| 0 <= k < pieces[i].len() && pieces[i][k] == '|';
                if k < tag.0.len() {
                    assert(tag.0[k] == '|');
                } else if k > tag.0.len() {
                    assert(tag.1[k - tag.0.len() - 1] == '|');
                }
            }
        }
    }
    lemma_split_of_join(pieces, '|');
}

/// The name and the tags are known by the key.
proof fn lemma_key_text_is_injective(
    name: Seq<char>,
    left: Seq<PairView>,
    other_name: Seq<char>,
    right: Seq<PairView>,
)
    requires
        !name.contains('|'),
        !other_name.contains('|'),
        forall|i: int| 0 <= i < left.len() ==> is_plain_in_key(#[trigger] left[i]),
        forall|i: int| 0 <= i < right.len() ==> is_plain_in_key(#[trigger] right[i]),
        key_text(name, left) == key_text(other_name, right),
    ensures
        name == other_name,
        left == right,
{
    lemma_key_pieces_lack_bars(name, left);
    lemma_key_pieces_lack_bars(other_name, right);
    let pieces = seq![name] + left.map_values(|tag: PairView| tag_in_key(tag));
    let others = seq![other_name] + right.map_values(|tag: PairView| tag_in_key(tag));
    assert(pieces == others);
    assert(pieces[0] == name && others[0] == other_name);
    assert(left.len() == pieces.len() - 1 && right.len() == others.len() - 1);
    assert forall|i: int| 0 <= i < left.len() implies left[i] == right[i] by {
        assert(pieces[i + 1] == tag_in_key(left[i]));
        assert(others[i + 1] == tag_in_key(right[i]));
        lemma_tag_in_key_is_injective(left[i], right[i]);
    }
    assert(left =~= right);
}

/// Whether all of the tags are plain stays the same when they are sorted.
proof fn lemma_canonical_is_plain(tags: Seq<PairView>)
    requires
        forall|i: int| 0 <= i < tags.len() ==> is_plain_in_key(#[trigger] tags[i]),
    ensures
        forall|i: int|
            0 <= i < canonical(tags).len() ==> is_plain_in_key(#[trigger] canonical(tags)[i]),
{
    broadcast use vstd::seq_lib::group_to_multiset_ensures;

    canonical_tags_are_sorted(tags);
    assert forall|i: int| 0 <= i < canonical(tags).len() implies is_plain_in_key(
        #[trigger] canonical(tags)[i],
    ) by {
        let tag = canonical(tags)[i];
        assert(canonical(tags).contains(tag));
        assert(tags.to_multiset().contains(tag));
        assert(tags.contains(tag));
        let k = choose|k: int| 0 <= k < tags.len() && tags[k] == tag;
        assert(is_plain_in_key(tags[k]));
    }
}

/// Metrics that differ in their name or in their tags are different series: their keys differ.
/// This holds of tags without bars and without equals signs in their keys, and of names without
/// bars or of one name.
pub proof fn different_tags_are_different_series(
    name: Seq<char>,
    left: Seq<PairView>,
    other_name: Seq<char>,
    right: Seq<PairView>,
)
    requires
        name == other_name || (!name.contains('|') && !other_name.contains('|')),
        forall|i: int| 0 <= i < left.len() ==> is_plain_in_key(#[trigger] left[i]),
        forall|i: int| 0 <= i < right.len() ==> is_plain_in_key(#[trigger] right[i]),
    ensures
        key_of(name, left) == key_of(other_name, right) <==> name == other_name
            && left.to_multiset() == right.to_multiset(),
{
    canonical_tags_are_sorted(left);
    canonical_tags_are_sorted(right);
    lemma_canonical_is_plain(left);
    lemma_canonical_is_plain(right);
    if key_of(name, left) == key_of(other_name, right) {
        if name == other_name {
            lemma_key_text_starts_with_name(name, canonical(left));
            lemma_key_text_starts_with_name(name, canonical(right));
            let empty = Seq::<char>::empty();
            let rest = key_text(empty, canonical(left));
            let other_rest = key_text(empty, canonical(right));
            assert(rest == key_of(name, left).skip(name.len() as int));
            assert(other_rest == key_of(name, right).skip(name.len() as int));
            lemma_key_text_is_injective(empty, canonical(left), empty, canonical(right));
        } else {
            lemma_key_text_is_injective(name, canonical(left), other_name, canonical(right));
        }
    }
    if left.to_multiset() == right.to_multiset() {
        tag_order_makes_no_difference(name, left, right);
    }
}

/// The key of a series is its name and, with bars between them, the key, an equals sign and the
/// value of each of its tags, sorted.
pub proof fn keys_list_the_sorted_tags(
    name: Seq<char>,
    tags: Seq<PairView>,
    sorted: Seq<PairView>,
    texts: Seq<Seq<char>>,
)
    requires
        sorted.to_multiset() == tags.to_multiset(),
        forall|i: int, j: int|
            0 <= i < j < sorted.len() ==> pair_le(#[trigger] sorted[i], #[trigger] sorted[j]),
        texts.len() == sorted.len(),
        forall|i: int|
            0 <= i < texts.len() ==> #[trigger] texts[i] == sorted[i].0 + seq!['='] + sorted[i].1,
    ensures
        key_of(name, tags) == join(seq![name] + texts, seq!['|']),
{
    lemma_sorted_tags_are_canonical(tags, sorted);
    lemma_key_text_is_join(name, sorted);
    assert(sorted.map_values(|tag: PairView| tag_in_key(tag)) == texts);
}

proof fn lemma_sorted_tags_are_canonical(tags: Seq<PairView>, sorted: Seq<PairView>)
    requires
        sorted.to_multiset() == tags.to_multiset(),
        forall|i: int, j: int|
            0 <= i < j < sorted.len() ==> pair_le(#[trigger] sorted[i], #[trigger] sorted[j]),
    ensures
        canonical(tags) == sorted,
{
    pairs_are_totally_ordered();
    canonical_tags_are_sorted(tags);
    let order = pair_order();
    assert forall|i: int, j: int| 0 <= i < j < sorted.len() implies #[trigger] order(
        sorted[i],
        sorted[j],
    ) by {
        assert(pair_le(sorted[i], sorted[j]));
    }
    lemma_sorted_unique(canonical(tags), sorted, order);
}

/// Tags are listed in their order with a comma and a blank between them, each as its key, and with
/// a colon and its value behind it where the value is not empty.
pub proof fn tags_are_listed_one_by_one(tags: Seq<PairView>, texts: Seq<Seq<char>>)
    requires
        texts.len() == tags.len(),
        forall|i: int|
            0 <= i < texts.len() ==> #[trigger] texts[i] == if tags[i].1.len() == 0 {
                tags[i].0
            } else {
                tags[i].0 + seq![':'] + tags[i].1
            },
    ensures
        tag_list(tags) == join(texts, seq![',', ' ']),
{
    reveal_strlit(", ");
    assert(", "@ =~= seq![',', ' ']);
    assert(tags.map_values(|tag: PairView| tag_label(tag)) =~= texts);
}

/// The label of a series with tags is the list of its sorted tags in square brackets.
pub proof fn labels_list_the_sorted_tags(
    tags: Seq<PairView>,
    sorted: Seq<PairView>,
    texts: Seq<Seq<char>>,
)
    requires
        tags.len() > 0,
        sorted.to_multiset() == tags.to_multiset(),
        forall|i: int, j: int|
            0 <= i < j < sorted.len() ==> pair_le(#[trigger] sorted[i], #[trigger] sorted[j]),
        texts.len() == sorted.len(),
        forall|i: int|
            0 <= i < texts.len() ==> #[trigger] texts[i] == if sorted[i].1.len() == 0 {
                sorted[i].0
            } else {
                sorted[i].0 + seq![':'] + sorted[i].1
            },
    ensures
        label_of(tags) == seq!['['] + join(texts, seq![',', ' ']) + seq![']'],
{
    lemma_sorted_tags_are_canonical(tags, sorted);
    tags_are_listed_one_by_one(sorted, texts);
}

} // verus!
