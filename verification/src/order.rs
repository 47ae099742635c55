//! The order of texts and of pairs of texts, and a sort by it.
use vstd::prelude::*;
use vstd::relations::{sorted_by, total_ordering};
use vstd::seq_lib::lemma_sorted_unique;
use vstd::slice::slice_subrange;

verus! {

/// Two texts, such as the key and the value of a tag.
pub type PairView = (Seq<char>, Seq<char>);

/// Whether `a` comes before `b` in the dictionary, or is `b`: at the first place where they differ
/// the smaller code point comes first, and a text comes before its extensions.
pub open spec fn text_le(a: Seq<char>, b: Seq<char>) -> bool
    decreases a.len(),
{
    if a.len() == 0 {
        true
    } else if b.len() == 0 {
        false
    } else if a[0] == b[0] {
        text_le(a.drop_first(), b.drop_first())
    } else {
        (a[0] as int) < (b[0] as int)
    }
}

/// Pairs are ordered by their first text, and by the second where the first ones are equal.
pub open spec fn pair_le(a: PairView, b: PairView) -> bool {
    if a.0 == b.0 {
        text_le(a.1, b.1)
    } else {
        text_le(a.0, b.0)
    }
}

/// Whether the pair at `i` comes before the one at `j` when `pairs` are sorted and equal pairs
/// keep their places.
pub open spec fn slot_le(pairs: Seq<PairView>, i: int, j: int) -> bool {
    if pairs[i] == pairs[j] {
        i <= j
    } else {
        pair_le(pairs[i], pairs[j])
    }
}

/// `pair_le` as a relation.
pub open spec fn pair_order() -> spec_fn(PairView, PairView) -> bool {
    |a: PairView, b: PairView| pair_le(a, b)
}

/// `slot_le` as a relation.
pub open spec fn slot_order(pairs: Seq<PairView>) -> spec_fn(int, int) -> bool {
    |i: int, j: int| slot_le(pairs, i, j)
}

/// The positions in a list of `len` elements.
pub open spec fn positions(len: nat) -> Seq<int> {
    Seq::new(len, |i: int| i)
}

/// The positions of `pairs` in the order of the pairs; equal pairs keep their places.
pub open spec fn sorted_positions(pairs: Seq<PairView>) -> Seq<int> {
    positions(pairs.len()).sort_by(slot_order(pairs))
}

/// The positions in a vector of machine numbers, as integers.
pub open spec fn ints(slots: Seq<usize>) -> Seq<int> {
    slots.map_values(|slot: usize| slot as int)
}

/// The texts of a list of pairs of character lists.
pub open spec fn pairs_view(pairs: Seq<(Vec<char>, Vec<char>)>) -> Seq<PairView> {
    pairs.map_values(|pair: (Vec<char>, Vec<char>)| (pair.0@, pair.1@))
}

proof fn lemma_text_le_reflexive(a: Seq<char>)
    ensures
        text_le(a, a),
    decreases a.len(),
{
    if a.len() > 0 {
        lemma_text_le_reflexive(a.drop_first());
    }
}

pub proof fn lemma_text_le_antisymmetric(a: Seq<char>, b: Seq<char>)
    requires
        text_le(a, b),
        text_le(b, a),
    ensures
        a == b,
    decreases a.len(),
{
    if a.len() > 0 && b.len() > 0 {
        lemma_text_le_antisymmetric(a.drop_first(), b.drop_first());
        assert(a == seq![a[0]] + a.drop_first());
        assert(b == seq![b[0]] + b.drop_first());
    }
    assert(a =~= b);
}

proof fn lemma_text_le_transitive(a: Seq<char>, b: Seq<char>, c: Seq<char>)
    requires
        text_le(a, b),
        text_le(b, c),
    ensures
        text_le(a, c),
    decreases a.len(),
{
    if a.len() > 0 && b.len() > 0 && c.len() > 0 && a[0] == b[0] && b[0] == c[0] {
        lemma_text_le_transitive(a.drop_first(), b.drop_first(), c.drop_first());
    }
}

proof fn lemma_text_le_total(a: Seq<char>, b: Seq<char>)
    ensures
        text_le(a, b) || text_le(b, a),
    decreases a.len(),
{
    if a.len() > 0 && b.len() > 0 && a[0] == b[0] {
        lemma_text_le_total(a.drop_first(), b.drop_first());
    }
}

proof fn lemma_pair_le_transitive(a: PairView, b: PairView, c: PairView)
    requires
        pair_le(a, b),
        pair_le(b, c),
    ensures
        pair_le(a, c),
{
    if a.0 == b.0 {
        if b.0 == c.0 {
            lemma_text_le_transitive(a.1, b.1, c.1);
        }
    } else if b.0 != c.0 {
        lemma_text_le_transitive(a.0, b.0, c.0);
        if a.0 == c.0 {
            lemma_text_le_antisymmetric(a.0, b.0);
        }
    }
}

proof fn lemma_pair_le_antisymmetric(a: PairView, b: PairView)
    requires
        pair_le(a, b),
        pair_le(b, a),
    ensures
        a == b,
{
    if a.0 == b.0 {
        lemma_text_le_antisymmetric(a.1, b.1);
    } else {
        lemma_text_le_antisymmetric(a.0, b.0);
    }
}

/// Pairs of texts are totally ordered.
pub proof fn pairs_are_totally_ordered()
    ensures
        total_ordering(pair_order()),
{
    let order = pair_order();
    assert forall|a: PairView| #[trigger] order(a, a) by {
        lemma_text_le_reflexive(a.1);
    }
    assert forall|a: PairView, b: PairView| #[trigger] order(a, b) && #[trigger] order(
        b,
        a,
    ) implies a == b by {
        lemma_pair_le_antisymmetric(a, b);
    }
    assert forall|a: PairView, b: PairView, c: PairView| #[trigger] order(a, b)
        && #[trigger] order(b, c) implies order(a, c) by {
        lemma_pair_le_transitive(a, b, c);
    }
    assert forall|a: PairView, b: PairView| #[trigger] order(a, b) || #[trigger] order(b, a) by {
        lemma_text_le_total(a.0, b.0);
        lemma_text_le_total(a.1, b.1);
    }
}

/// The places of a list of pairs are totally ordered.
pub proof fn slots_are_totally_ordered(pairs: Seq<PairView>)
    ensures
        total_ordering(slot_order(pairs)),
{
    let order = slot_order(pairs);
    assert forall|i: int, j: int| #[trigger] order(i, j) && #[trigger] order(j, i) implies i
        == j by {
        if pairs[i] != pairs[j] {
            lemma_pair_le_antisymmetric(pairs[i], pairs[j]);
        }
    }
    assert forall|i: int, j: int, k: int| #[trigger] order(i, j) && #[trigger] order(
        j,
        k,
    ) implies order(i, k) by {
        if pairs[i] != pairs[j] && pairs[j] != pairs[k] {
            lemma_pair_le_transitive(pairs[i], pairs[j], pairs[k]);
            if pairs[i] == pairs[k] {
                lemma_pair_le_antisymmetric(pairs[i], pairs[j]);
            }
        }
    }
    assert forall|i: int, j: int| #[trigger] order(i, j) || #[trigger] order(j, i) by {
        lemma_text_le_total(pairs[i].0, pairs[j].0);
        lemma_text_le_total(pairs[i].1, pairs[j].1);
    }
}

/// The code point of `c`.
fn code_point(c: char) -> (code: u32)
    ensures
        code == c as int,
{
    c as u32
}

/// Whether `a` comes before `b` in the dictionary, or is `b`.
pub fn text_at_most(a: &[char], b: &[char]) -> (at_most: bool)
    ensures
        at_most == text_le(a@, b@),
{
    let mut i: usize = 0;
    assert(a@.skip(0) == a@ && b@.skip(0) == b@);
    while i < a.len() && i < b.len() && a[i] == b[i]
        invariant
            i <= a@.len(),
            i <= b@.len(),
            text_le(a@.skip(i as int), b@.skip(i as int)) == text_le(a@, b@),
        decreases a@.len() - i,
    {
        assert(a@.skip(i as int).drop_first() == a@.skip(i + 1));
        assert(b@.skip(i as int).drop_first() == b@.skip(i + 1));
        i += 1;
    }
    if i >= a.len() {
        return true;
    }
    if i >= b.len() {
        return false;
    }
    code_point(a[i]) < code_point(b[i])
}

/// Whether the two lists of characters are equal.
pub fn same_text(a: &[char], b: &[char]) -> (same: bool)
    ensures
        same == (a@ == b@),
{
    if a.len() != b.len() {
        return false;
    }
    let mut i: usize = 0;
    while i < a.len()
        invariant
            i <= a@.len(),
            a@.len() == b@.len(),
            forall|j: int| 0 <= j < i ==> a@[j] == b@[j],
        decreases a@.len() - i,
    {
        if a[i] != b[i] {
            return false;
        }
        i += 1;
    }
    assert(a@ =~= b@);
    true
}

/// Whether the pair at `i` comes before the one at `j`.
fn slot_at_most(pairs: &Vec<(Vec<char>, Vec<char>)>, i: usize, j: usize) -> (at_most: bool)
    requires
        i < pairs@.len(),
        j < pairs@.len(),
    ensures
        at_most == slot_le(pairs_view(pairs@), i as int, j as int),
{
    let ghost views = pairs_view(pairs@);
    assert(views[i as int] == (pairs@[i as int].0@, pairs@[i as int].1@));
    assert(views[j as int] == (pairs@[j as int].0@, pairs@[j as int].1@));
    let same_first: bool = same_text(pairs[i].0.as_slice(), pairs[j].0.as_slice());
    if same_first {
        if same_text(pairs[i].1.as_slice(), pairs[j].1.as_slice()) {
            i <= j
        } else {
            text_at_most(pairs[i].1.as_slice(), pairs[j].1.as_slice())
        }
    } else {
        text_at_most(pairs[i].0.as_slice(), pairs[j].0.as_slice())
    }
}

/// Whether all of the slots are places in a list of `len` elements.
pub open spec fn all_below(slots: Seq<usize>, len: nat) -> bool {
    forall|k: int| 0 <= k < slots.len() ==> (#[trigger] slots[k]) < len
}

/// Merges two sorted lists of places.
fn merge(
    pairs: &Vec<(Vec<char>, Vec<char>)>,
    left: &Vec<usize>,
    right: &Vec<usize>,
) -> (merged: Vec<usize>)
    requires
        all_below(left@, pairs@.len()),
        all_below(right@, pairs@.len()),
        sorted_by(ints(left@), slot_order(pairs_view(pairs@))),
        sorted_by(ints(right@), slot_order(pairs_view(pairs@))),
    ensures
        all_below(merged@, pairs@.len()),
        sorted_by(ints(merged@), slot_order(pairs_view(pairs@))),
        ints(merged@).to_multiset() == ints(left@).to_multiset().add(ints(right@).to_multiset()),
{
    let ghost order = slot_order(pairs_view(pairs@));
    let ghost lefts = ints(left@);
    let ghost rights = ints(right@);
    proof {
        slots_are_totally_ordered(pairs_view(pairs@));
    }
    let mut merged: Vec<usize> = Vec::new();
    let mut i: usize = 0;
    let mut j: usize = 0;
    assert(ints(merged@).to_multiset() =~= lefts.take(0).to_multiset().add(
        rights.take(0).to_multiset(),
    )) by {
        broadcast use vstd::seq_lib::group_to_multiset_ensures;

        assert(ints(merged@) =~= Seq::<int>::empty());
        assert(lefts.take(0) =~= Seq::<int>::empty());
        assert(rights.take(0) =~= Seq::<int>::empty());
    }
    while i < left.len() || j < right.len()
        invariant
            i <= left@.len(),
            j <= right@.len(),
            order == slot_order(pairs_view(pairs@)),
            total_ordering(order),
            lefts == ints(left@),
            rights == ints(right@),
            all_below(left@, pairs@.len()),
            all_below(right@, pairs@.len()),
            sorted_by(lefts, order),
            sorted_by(rights, order),
            all_below(merged@, pairs@.len()),
            sorted_by(ints(merged@), order),
            forall|k: int|
                0 <= k < merged@.len() && i < left@.len() ==> order(
                    #[trigger] ints(merged@)[k],
                    lefts[i as int],
                ),
            forall|k: int|
                0 <= k < merged@.len() && j < right@.len() ==> order(
                    #[trigger] ints(merged@)[k],
                    rights[j as int],
                ),
            ints(merged@).to_multiset() == lefts.take(i as int).to_multiset().add(
                rights.take(j as int).to_multiset(),
            ),
        decreases left@.len() - i + right@.len() - j,
    {
        let ghost before = ints(merged@);
        let from_left: bool = if i >= left.len() {
            false
        } else if j >= right.len() {
            true
        } else {
            slot_at_most(pairs, left[i], right[j])
        };
        if from_left {
            let slot: usize = left[i];
            merged.push(slot);
            proof {
                lemma_merge_step(before, lefts, rights, i as int, j as int, order);
                assert(ints(merged@) == before.push(lefts[i as int]));
            }
            i += 1;
        } else {
            let slot: usize = right[j];
            merged.push(slot);
            proof {
                if i < left@.len() {
                    assert(order(lefts[i as int], rights[j as int]) || order(
                        rights[j as int],
                        lefts[i as int],
                    ));
                }
                lemma_merge_step(before, rights, lefts, j as int, i as int, order);
                assert(ints(merged@) == before.push(rights[j as int]));
                assert(rights.take(j + 1).to_multiset().add(lefts.take(i as int).to_multiset())
                    =~= lefts.take(i as int).to_multiset().add(rights.take(j + 1).to_multiset()));
                assert(rights.take(j as int).to_multiset().add(lefts.take(i as int).to_multiset())
                    =~= lefts.take(i as int).to_multiset().add(
                    rights.take(j as int).to_multiset(),
                ));
            }
            j += 1;
        }
    }
    assert(lefts.take(i as int) == lefts);
    assert(rights.take(j as int) == rights);
    merged
}

/// One step of a merge: the next element of `from`, which comes before what is left of `other`,
/// is put at the end.
proof fn lemma_merge_step(
    merged: Seq<int>,
    from: Seq<int>,
    other: Seq<int>,
    i: int,
    j: int,
    order: spec_fn(int, int) -> bool,
)
    requires
        total_ordering(order),
        0 <= i < from.len(),
        0 <= j <= other.len(),
        sorted_by(merged, order),
        sorted_by(from, order),
        j < other.len() ==> order(from[i], other[j]),
        forall|k: int| 0 <= k < merged.len() ==> order(#[trigger] merged[k], from[i]),
        forall|k: int| 0 <= k < merged.len() && j < other.len() ==> order(#[trigger] merged[k], other[j]),
    ensures
        sorted_by(merged.push(from[i]), order),
        forall|k: int|
            0 <= k < merged.len() + 1 && i + 1 < from.len() ==> order(
                #[trigger] merged.push(from[i])[k],
                from[i + 1],
            ),
        forall|k: int|
            0 <= k < merged.len() + 1 && j < other.len() ==> order(
                #[trigger] merged.push(from[i])[k],
                other[j],
            ),
        merged.to_multiset() == from.take(i).to_multiset().add(other.take(j).to_multiset())
            ==> merged.push(from[i]).to_multiset() == from.take(i + 1).to_multiset().add(
            other.take(j).to_multiset(),
        ),
{
    broadcast use vstd::seq_lib::group_to_multiset_ensures;

    let next = merged.push(from[i]);
    if i + 1 < from.len() {
        assert(order(from[i], from[i + 1]));
        assert forall|k: int| 0 <= k < next.len() implies order(#[trigger] next[k], from[i + 1]) by {
            if k < merged.len() {
                assert(order(merged[k], from[i]));
            }
        }
    }
    assert(from.take(i + 1) =~= from.take(i).push(from[i]));
    if merged.to_multiset() == from.take(i).to_multiset().add(other.take(j).to_multiset()) {
        assert(next.to_multiset() =~= from.take(i + 1).to_multiset().add(
            other.take(j).to_multiset(),
        ));
    }
}

/// Sorts a list of places by the pairs in them.
fn merge_sort(pairs: &Vec<(Vec<char>, Vec<char>)>, slots: &[usize]) -> (sorted: Vec<usize>)
    requires
        all_below(slots@, pairs@.len()),
    ensures
        all_below(sorted@, pairs@.len()),
        sorted_by(ints(sorted@), slot_order(pairs_view(pairs@))),
        ints(sorted@).to_multiset() == ints(slots@).to_multiset(),
    decreases slots@.len(),
{
    if slots.len() <= 1 {
        let mut sorted: Vec<usize> = Vec::new();
        if slots.len() == 1 {
            sorted.push(slots[0]);
        }
        assert(ints(sorted@) =~= ints(slots@));
        return sorted;
    }
    let middle: usize = slots.len() / 2;
    let front: &[usize] = slice_subrange(slots, 0, middle);
    let back: &[usize] = slice_subrange(slots, middle, slots.len());
    let left: Vec<usize> = merge_sort(pairs, front);
    let right: Vec<usize> = merge_sort(pairs, back);
    proof {
        assert(ints(slots@) =~= ints(front@) + ints(back@));
        vstd::seq_lib::lemma_multiset_commutative(ints(front@), ints(back@));
    }
    merge(pairs, &left, &right)
}

/// The places of `pairs` in the order of the pairs; equal pairs keep their places.
pub fn sort_slots(pairs: &Vec<(Vec<char>, Vec<char>)>) -> (sorted: Vec<usize>)
    ensures
        ints(sorted@) == sorted_positions(pairs_view(pairs@)),
        all_below(sorted@, pairs@.len()),
        sorted@.len() == pairs@.len(),
{
    let mut slots: Vec<usize> = Vec::new();
    let mut i: usize = 0;
    while i < pairs.len()
        invariant
            i <= pairs@.len(),
            slots@.len() == i,
            forall|k: int| 0 <= k < i ==> #[trigger] slots@[k] == k,
        decreases pairs@.len() - i,
    {
        slots.push(i);
        i += 1;
    }
    let sorted: Vec<usize> = merge_sort(pairs, slots.as_slice());
    proof {
        let views = pairs_view(pairs@);
        let order = slot_order(views);
        slots_are_totally_ordered(views);
        assert(ints(slots@) =~= positions(views.len()));
        positions(views.len()).lemma_sort_by_ensures(order);
        lemma_sorted_unique(ints(sorted@), sorted_positions(views), order);
        vstd::seq_lib::to_multiset_len(ints(sorted@));
        vstd::seq_lib::to_multiset_len(positions(views.len()));
    }
    sorted
}

/// Lists with the same elements still have the same elements after each is mapped.
pub proof fn lemma_map_keeps_multiset<A, B>(left: Seq<A>, right: Seq<A>, f: spec_fn(A) -> B)
    requires
        left.to_multiset() == right.to_multiset(),
    ensures
        left.map_values(f).to_multiset() == right.map_values(f).to_multiset(),
    decreases left.len(),
{
    broadcast use vstd::seq_lib::group_to_multiset_ensures;

    vstd::seq_lib::to_multiset_len(left);
    vstd::seq_lib::to_multiset_len(right);
    if left.len() == 0 {
        assert(left.map_values(f) =~= right.map_values(f));
    } else {
        let last = left.last();
        let rest = left.drop_last();
        assert(left == rest.push(last));
        assert(left.to_multiset().contains(last));
        assert(right.contains(last));
        let k = choose|k: int| 0 <= k < right.len() && right[k] == last;
        let others = right.remove(k);
        assert(rest.to_multiset() =~= others.to_multiset()) by {
            assert(rest.push(last).to_multiset() == rest.to_multiset().insert(last));
            assert(others.to_multiset() == right.to_multiset().remove(last));
            assert(rest.to_multiset().insert(last).remove(last) =~= rest.to_multiset());
        }
        lemma_map_keeps_multiset(rest, others, f);
        assert(left.map_values(f) =~= rest.map_values(f).push(f(last)));
        assert(right.map_values(f) =~= others.map_values(f).insert(k, f(last)));
    }
}

/// Lists with the same elements have the same number of elements with a property.
pub proof fn lemma_filter_keeps_count<A>(left: Seq<A>, right: Seq<A>, p: spec_fn(A) -> bool)
    requires
        left.to_multiset() == right.to_multiset(),
    ensures
        left.filter(p).len() == right.filter(p).len(),
    decreases left.len(),
{
    broadcast use vstd::seq_lib::group_to_multiset_ensures;

    vstd::seq_lib::to_multiset_len(left);
    vstd::seq_lib::to_multiset_len(right);
    if left.len() == 0 {
        assert(left =~= right);
    } else {
        let last = left.last();
        let rest = left.drop_last();
        assert(left == rest.push(last));
        assert(left.to_multiset().contains(last));
        assert(right.contains(last));
        let k = choose|k: int| 0 <= k < right.len() && right[k] == last;
        let others = right.remove(k);
        assert(rest.to_multiset() =~= others.to_multiset()) by {
            assert(rest.push(last).to_multiset() == rest.to_multiset().insert(last));
            assert(others.to_multiset() == right.to_multiset().remove(last));
            assert(rest.to_multiset().insert(last).remove(last) =~= rest.to_multiset());
        }
        lemma_filter_keeps_count(rest, others, p);
        rest.lemma_filter_push(last, p);
        let front = right.take(k);
        let back = right.skip(k + 1);
        assert(right =~= front.push(last) + back);
        assert(others =~= front + back);
        Seq::filter_distributes_over_add(front.push(last), back, p);
        Seq::filter_distributes_over_add(front, back, p);
        front.lemma_filter_push(last, p);
    }
}

/// The sorted positions are positions.
pub proof fn lemma_slot_in_range(pairs: Seq<PairView>, i: int)
    requires
        0 <= i < pairs.len(),
    ensures
        sorted_positions(pairs).len() == pairs.len(),
        0 <= sorted_positions(pairs)[i] < pairs.len(),
{
    broadcast use vstd::seq_lib::group_to_multiset_ensures;

    let all = positions(pairs.len());
    slots_are_totally_ordered(pairs);
    all.lemma_sort_by_ensures(slot_order(pairs));
    vstd::seq_lib::to_multiset_len(all);
    vstd::seq_lib::to_multiset_len(sorted_positions(pairs));
    let slot = sorted_positions(pairs)[i];
    assert(sorted_positions(pairs).contains(slot));
    assert(all.to_multiset().count(slot) > 0);
    assert(all.contains(slot));
}

/// A text comes before another, or is it, if and only if the other starts with it, or where the two
/// first differ it has the smaller character.
pub proof fn texts_are_ordered_where_they_first_differ(a: Seq<char>, b: Seq<char>)
    ensures
        text_le(a, b) <==> {
            ||| a.len() <= b.len() && b.take(a.len() as int) == a
            ||| exists|k: int|
                {
                    &&& 0 <= k < a.len() && k < b.len()
                    &&& a.take(k) == b.take(k)
                    &&& (#[trigger] a[k] as int) < (b[k] as int)
                }
        },
    decreases a.len(),
{
    if a.len() == 0 {
        assert(b.take(0) == a);
    } else if b.len() > 0 && a[0] == b[0] {
        let x = a.drop_first();
        let y = b.drop_first();
        texts_are_ordered_where_they_first_differ(x, y);
        assert(a == seq![a[0]] + x);
        assert(b == seq![b[0]] + y);
        if x.len() <= y.len() && y.take(x.len() as int) == x {
            assert(b.take(a.len() as int) == seq![b[0]] + y.take(x.len() as int));
        }
        if a.len() <= b.len() && b.take(a.len() as int) == a {
            assert(y.take(x.len() as int) == b.take(a.len() as int).drop_first());
        }
        if exists|k: int|
            {
                &&& 0 <= k < x.len() && k < y.len()
                &&& x.take(k) == y.take(k)
                &&& (#[trigger] x[k] as int) < (y[k] as int)
            } {
            let k = choose|k: int|
                {
                    &&& 0 <= k < x.len() && k < y.len()
                    &&& x.take(k) == y.take(k)
                    &&& (#[trigger] x[k] as int) < (y[k] as int)
                };
            assert(a.take(k + 1) == seq![a[0]] + x.take(k));
            assert(b.take(k + 1) == seq![b[0]] + y.take(k));
            assert(a[k + 1] == x[k] && b[k + 1] == y[k]);
        }
        if exists|k: int|
            {
                &&& 0 <= k < a.len() && k < b.len()
                &&& a.take(k) == b.take(k)
                &&& (#[trigger] a[k] as int) < (b[k] as int)
            } {
            let k = choose|k: int|
                {
                    &&& 0 <= k < a.len() && k < b.len()
                    &&& a.take(k) == b.take(k)
                    &&& (#[trigger] a[k] as int) < (b[k] as int)
                };
            assert(k > 0);
            assert(x.take(k - 1) == a.take(k).drop_first());
            assert(y.take(k - 1) == b.take(k).drop_first());
            assert(x[k - 1] == a[k] && y[k - 1] == b[k]);
        }
    } else if b.len() > 0 {
        if (a[0] as int) < (b[0] as int) {
            assert(a.take(0) == b.take(0));
        }
        if a.len() <= b.len() && b.take(a.len() as int) == a {
            assert(b.take(a.len() as int)[0] == b[0]);
        }
        if exists|k: int|
            {
                &&& 0 <= k < a.len() && k < b.len()
                &&& a.take(k) == b.take(k)
                &&& (#[trigger] a[k] as int) < (b[k] as int)
            } {
            let k = choose|k: int|
                {
                    &&& 0 <= k < a.len() && k < b.len()
                    &&& a.take(k) == b.take(k)
                    &&& (#[trigger] a[k] as int) < (b[k] as int)
                };
            if k > 0 {
                assert(a.take(k)[0] == a[0]);
                assert(b.take(k)[0] == b[0]);
            }
        }
    }
}

/// Pairs are ordered by their first texts; the second ones decide only between equal first ones.
pub proof fn first_texts_decide_before_second_ones(a: PairView, b: PairView)
    ensures
        pair_order()(a, b) <==> pair_le(a, b),
        a.0 != b.0 ==> (pair_le(a, b) <==> text_le(a.0, b.0)),
        a.0 == b.0 ==> (pair_le(a, b) <==> text_le(a.1, b.1)),
{
}

} // verus!
