//! What is known of each series.
use std::collections::VecDeque;
use std::time::Instant;
use vstd::hash_map::StringHashMap;
use vstd::prelude::*;

use crate::clock::now;
use crate::dogstatsd::{tags_view, KindView, MetricKind, Sample, SampleView};
use crate::numbers::{can_compute, computes, Operation};

verus! {

/// One point of the history of a series.
#[derive(Debug, Copy)]
pub struct Point<V> {
    pub value: V,
}

impl<V: Copy> Clone for Point<V> {
    fn clone(&self) -> (copy: Self)
        ensures
            copy == *self,
    {
        Point { value: self.value }
    }
}

/// What is known of one series. The number type is `V`.
#[derive(Debug)]
pub struct MetricState<V> {
    pub name: String,
    pub labels: String,
    pub kind: MetricKind,
    pub latest: V,
    pub total: V,
    pub samples: VecDeque<Point<V>>,
    pub last_seen: Instant,
    pub tags: Vec<(String, String)>,
}

/// What a series holds.
pub struct StateView<V> {
    pub name: Seq<char>,
    pub labels: Seq<char>,
    pub kind: KindView,
    pub latest: V,
    pub total: V,
    pub samples: Seq<Point<V>>,
    pub last_seen: Instant,
    pub tags: Seq<(Seq<char>, Seq<char>)>,
}

impl<V> View for MetricState<V> {
    type V = StateView<V>;

    open spec fn view(&self) -> StateView<V> {
        StateView {
            name: self.name@,
            labels: self.labels@,
            kind: self.kind@,
            latest: self.latest,
            total: self.total,
            samples: self.samples@,
            last_seen: self.last_seen,
            tags: tags_view(self.tags@),
        }
    }
}

/// The last `count` elements of a list; all of them where there are not so many.
pub open spec fn last_of<A>(list: Seq<A>, count: nat) -> Seq<A> {
    if list.len() <= count {
        list
    } else {
        list.skip(list.len() - count)
    }
}

/// Whether `total` is the total after a sample: the values of a counter are added up, of any other
/// kind the total is the last value.
pub open spec fn total_after<V, C: Fn(Operation<V>) -> V>(
    compute: C,
    state: StateView<V>,
    sample: SampleView<V>,
    total: V,
) -> bool {
    if sample.kind is Counter {
        computes(compute, Operation::Plus(state.total, sample.value), total)
    } else {
        total == sample.value
    }
}

/// A series after a sample, with `total` as its total and the last `history_points` points kept.
pub open spec fn pushed<V>(
    state: StateView<V>,
    sample: SampleView<V>,
    total: V,
    history_points: nat,
) -> StateView<V> {
    StateView {
        name: state.name,
        labels: state.labels,
        kind: sample.kind,
        latest: sample.value,
        total,
        samples: last_of(state.samples.push(Point { value: sample.value }), history_points),
        last_seen: sample.received_at,
        tags: sample.tags,
    }
}

/// Whether this is a series of which nothing was measured yet.
pub open spec fn is_unmeasured<V>(
    state: StateView<V>,
    name: Seq<char>,
    labels: Seq<char>,
    zero: V,
) -> bool {
    &&& state.name == name
    &&& state.labels == labels
    &&& state.kind == KindView::Unknown(seq!['?'])
    &&& state.latest == zero
    &&& state.total == zero
    &&& state.samples == Seq::<Point<V>>::empty()
    &&& state.tags == Seq::<(Seq<char>, Seq<char>)>::empty()
}

impl<V: Copy> MetricState<V> {
    /// A series of which nothing was measured yet. `zero` stands for the number zero.
    pub fn new(name: String, labels: String, zero: V) -> (state: Self)
        ensures
            is_unmeasured(state@, name@, labels@, zero),
    {
        let mut unknown: String = String::new();
        unknown.push('?');
        let state = MetricState {
            name,
            labels,
            kind: MetricKind::Unknown(unknown),
            latest: zero,
            total: zero,
            samples: VecDeque::new(),
            last_seen: now(),
            tags: Vec::new(),
        };
        assert(unknown@ == seq!['?']);
        assert(state@.tags == Seq::<(Seq<char>, Seq<char>)>::empty());
        state
    }

    /// Takes a sample in.
    pub fn push<C: Fn(Operation<V>) -> V>(
        &mut self,
        sample: Sample<V>,
        history_points: usize,
        compute: &C,
    )
        requires
            can_compute(*compute),
        ensures
            total_after(*compute, old(self)@, sample@, final(self)@.total),
            final(self)@ == pushed(
                old(self)@,
                sample@,
                final(self)@.total,
                history_points as nat,
            ),
    {
        let ghost before = self@;
        let ghost given = sample@;
        self.total = match &sample.kind {
            MetricKind::Counter => compute(Operation::Plus(self.total, sample.value)),
            _ => sample.value,
        };
        self.kind = sample.kind;
        self.latest = sample.value;
        self.last_seen = sample.received_at;
        self.tags = sample.tags;
        self.samples.push_back(Point { value: sample.value });
        let ghost all = before.samples.push(Point { value: given.value });
        let ghost after = self@;
        while self.samples.len() > history_points
            invariant
                self.samples@.len() <= all.len(),
                self.samples@ == all.skip(all.len() - self.samples@.len()),
                self@ == (StateView { samples: self.samples@, ..after }),
                self.samples@.len() >= history_points || self.samples@ == all,
            decreases self.samples@.len(),
        {
            self.samples.pop_front();
        }
        assert(self.samples@ == last_of(all, history_points as nat));
    }
}

/// The series by their keys. A series is never removed; they are held in the order in which they
/// were first seen.
#[verifier::reject_recursive_types(V)]
pub struct MetricTable<V> {
    pub index: StringHashMap<usize>,
    pub states: Vec<MetricState<V>>,
    pub keys: Ghost<Seq<Seq<char>>>,
}

/// What the series in a list hold.
pub open spec fn states_view<V>(states: Seq<MetricState<V>>) -> Seq<StateView<V>> {
    states.map_values(|state: MetricState<V>| state@)
}

impl<V> View for MetricTable<V> {
    type V = Map<Seq<char>, StateView<V>>;

    open spec fn view(&self) -> Map<Seq<char>, StateView<V>> {
        Map::new(
            |key: Seq<char>| self.index@.contains_key(key),
            |key: Seq<char>| self.states@[self.index@[key] as int]@,
        )
    }
}

/// Whether this is the series with a key in a table.
pub open spec fn is_found<V>(
    table: MetricTable<V>,
    key: Seq<char>,
    found: Option<&MetricState<V>>,
) -> bool {
    match found {
        Some(state) => table@.contains_key(key) && state@ == table@[key],
        None => !table@.contains_key(key),
    }
}

/// Whether the table `after` is the table `before` with a series put under a key, in the place of
/// the one that was there.
pub open spec fn is_put<V>(
    before: MetricTable<V>,
    key: Seq<char>,
    state: StateView<V>,
    after: MetricTable<V>,
) -> bool {
    &&& after@ == before@.insert(key, state)
    &&& after.listed() == if before@.contains_key(key) {
        before.listed().update(before.index@[key] as int, state)
    } else {
        before.listed().push(state)
    }
    &&& after.index@ == if before@.contains_key(key) {
        before.index@
    } else {
        before.index@.insert(key, before.states.len())
    }
    &&& after.keys@ == if before@.contains_key(key) {
        before.keys@
    } else {
        before.keys@.push(key)
    }
}

impl<V> MetricTable<V> {
    /// The index leads from each key to its series, and no two keys share one.
    pub open spec fn wf(&self) -> bool {
        &&& self.keys@.len() == self.states@.len()
        &&& self.keys@.no_duplicates()
        &&& forall|key: Seq<char>| #[trigger]
            self.index@.contains_key(key) ==> self.index@[key] < self.keys@.len()
                && self.keys@[self.index@[key] as int] == key
        &&& forall|i: int|
            0 <= i < self.keys@.len() ==> self.index@.contains_key(#[trigger] self.keys@[i])
                && self.index@[self.keys@[i]] == i
    }

    /// What the series hold, in the order in which they were first seen.
    pub open spec fn listed(&self) -> Seq<StateView<V>> {
        states_view(self.states@)
    }

    /// A table without series.
    pub fn new() -> (table: Self)
        ensures
            table.wf(),
            table@ == Map::<Seq<char>, StateView<V>>::empty(),
            table.listed() == Seq::<StateView<V>>::empty(),
            table.keys@ == Seq::<Seq<char>>::empty(),
    {
        let table = MetricTable {
            index: StringHashMap::new(),
            states: Vec::new(),
            keys: Ghost(Seq::empty()),
        };
        assert(table@ =~= Map::<Seq<char>, StateView<V>>::empty());
        assert(table.listed() =~= Seq::<StateView<V>>::empty());
        table
    }

    /// The number of series.
    pub fn len(&self) -> (len: usize)
        requires
            self.wf(),
        ensures
            len == self.listed().len(),
            self@.dom().finite(),
            len == self@.dom().len(),
    {
        proof {
            self.keys@.unique_seq_to_set();
            list_holds_each_series_once(*self);
        }
        self.states.len()
    }

    /// Whether there is a series with this key.
    pub fn contains_key(&self, key: &str) -> (found: bool)
        ensures
            found == self@.contains_key(key@),
    {
        self.index.contains_key(key)
    }

    /// The series with this key.
    pub fn get(&self, key: &str) -> (found: Option<&MetricState<V>>)
        requires
            self.wf(),
        ensures
            is_found(*self, key@, found),
    {
        match self.index.get(key) {
            Some(position) => Some(&self.states[*position]),
            None => None,
        }
    }

    /// The series with this key, to be changed.
    pub fn get_mut(&mut self, key: &str) -> (found: Option<&mut MetricState<V>>)
        requires
            old(self).wf(),
        ensures
            final(self).wf(),
            match found {
                Some(state) => {
                    &&& old(self)@.contains_key(key@)
                    &&& state@ == old(self)@[key@]
                    &&& final(self)@ == old(self)@.insert(key@, final(state)@)
                    &&& final(self).listed() == old(self).listed().update(
                        old(self).index@[key@] as int,
                        final(state)@,
                    )
                    &&& final(self).index == old(self).index
                    &&& final(self).keys == old(self).keys
                },
                None => !old(self)@.contains_key(key@) && *final(self) == *old(self),
            },
    {
        let found: Option<usize> = match self.index.get(key) {
            Some(position) => Some(*position),
            None => None,
        };
        match found {
            Some(position) => Some(&mut self.states[position]),
            None => None,
        }
    }

    /// Puts a series under a key, in the place of the one that was there.
    pub fn insert(&mut self, key: String, state: MetricState<V>)
        requires
            old(self).wf(),
        ensures
            final(self).wf(),
            is_put(*old(self), key@, state@, *final(self)),
    {
        let found: Option<usize> = match self.index.get(key.as_str()) {
            Some(position) => Some(*position),
            None => None,
        };
        let ghost before = *self;
        let ghost name = key@;
        match found {
            Some(position) => {
                self.states.set(position, state);
                assert(self@ =~= before@.insert(name, state@));
                assert(self.listed() =~= before.listed().update(position as int, state@));
            },
            None => {
                let position: usize = self.states.len();
                self.index.insert(key, position);
                self.states.push(state);
                proof {
                    self.keys@ = self.keys@.push(name);
                    assert(!before.keys@.contains(name)) by {
                        if before.keys@.contains(name) {
                            let i = choose|i: int|
                                0 <= i < before.keys@.len() && before.keys@[i] == name;
                            assert(before.index@.contains_key(before.keys@[i]));
                        }
                    }
                    assert forall|i: int| 0 <= i < self.keys@.len() implies self.index@.contains_key(
                        #[trigger] self.keys@[i],
                    ) && self.index@[self.keys@[i]] == i by {
                        if i < before.keys@.len() {
                            assert(self.keys@[i] == before.keys@[i]);
                            assert(before.keys@.contains(before.keys@[i]));
                        }
                    }
                    assert(self@ =~= before@.insert(name, state@));
                    assert(self.listed() =~= before.listed().push(state@));
                }
            },
        }
    }
}

/// The smallest, the largest and the mean of the values kept of a series.
#[derive(Debug, Copy)]
pub struct RetainedStats<V> {
    pub min: V,
    pub max: V,
    pub avg: V,
}

impl<V: Copy> Clone for RetainedStats<V> {
    fn clone(&self) -> (copy: Self)
        ensures
            copy == *self,
    {
        RetainedStats { min: self.min, max: self.max, avg: self.avg }
    }
}

/// How two numbers become one when numbers are taken together.
#[derive(Debug, Clone, Copy, Eq, PartialEq, Structural)]
pub enum Fold {
    Plus,
    Lesser,
    Greater,
}

/// The computation that takes two numbers together.
pub open spec fn fold_step<V>(fold: Fold, a: V, b: V) -> Operation<V> {
    match fold {
        Fold::Plus => Operation::Plus(a, b),
        Fold::Lesser => Operation::Lesser(a, b),
        Fold::Greater => Operation::Greater(a, b),
    }
}

/// Whether `steps` are what comes of taking points one after the other together with `start`.
pub open spec fn folds<V, C: Fn(Operation<V>) -> V>(
    compute: C,
    fold: Fold,
    start: V,
    points: Seq<Point<V>>,
    steps: Seq<V>,
) -> bool {
    &&& steps.len() == points.len() + 1
    &&& steps[0] == start
    &&& forall|i: int|
        0 <= i < points.len() ==> computes(
            compute,
            fold_step(fold, steps[i], #[trigger] points[i].value),
            steps[i + 1],
        )
}

/// Whether `result` can be what comes of taking points one after the other together with `start`.
pub open spec fn folds_to<V, C: Fn(Operation<V>) -> V>(
    compute: C,
    fold: Fold,
    start: V,
    points: Seq<Point<V>>,
    result: V,
) -> bool {
    exists|steps: Seq<V>| #[trigger]
        folds(compute, fold, start, points, steps) && steps.last() == result
}

/// Takes the points from `from` on one after the other together with `start`.
pub(crate) fn fold_points<V: Copy, C: Fn(Operation<V>) -> V>(
    compute: &C,
    fold: Fold,
    start: V,
    points: &VecDeque<Point<V>>,
    from: usize,
) -> (result: V)
    requires
        from <= points@.len(),
        can_compute(*compute),
    ensures
        folds_to(*compute, fold, start, points@.skip(from as int), result),
{
    let ghost given = points@.skip(from as int);
    let mut result: V = start;
    let ghost mut steps: Seq<V> = seq![start];
    let mut i: usize = from;
    while i < points.len()
        invariant
            from <= i <= points@.len(),
            given == points@.skip(from as int),
            can_compute(*compute),
            steps.last() == result,
            folds(*compute, fold, start, given.take(i - from), steps),
        decreases points@.len() - i,
    {
        let ghost before = steps;
        let value: V = points[i].value;
        result = match fold {
            Fold::Plus => compute(Operation::Plus(result, value)),
            Fold::Lesser => compute(Operation::Lesser(result, value)),
            Fold::Greater => compute(Operation::Greater(result, value)),
        };
        proof {
            steps = before.push(result);
            let taken = given.take(i - from + 1);
            assert forall|k: int| 0 <= k < taken.len() implies computes(
                *compute,
                fold_step(fold, steps[k], #[trigger] taken[k].value),
                steps[k + 1],
            ) by {
                if k < i - from {
                    assert(taken[k] == given.take(i - from)[k]);
                    assert(steps[k] == before[k]);
                    assert(steps[k + 1] == before[k + 1]);
                }
            }
        }
        i += 1;
    }
    assert(given.take(i - from) == given);
    result
}

/// Whether these are the smallest, the largest and the mean of the values of some points.
pub open spec fn summarizes<V, C: Fn(Operation<V>) -> V>(
    compute: C,
    points: Seq<Point<V>>,
    stats: RetainedStats<V>,
) -> bool {
    let first = points[0].value;
    let rest = points.skip(1);
    &&& folds_to(compute, Fold::Lesser, first, rest, stats.min)
    &&& folds_to(compute, Fold::Greater, first, rest, stats.max)
    &&& exists|sum: V| #[trigger]
        folds_to(compute, Fold::Plus, first, rest, sum) && computes(
            compute,
            Operation::Mean(sum, points.len() as usize),
            stats.avg,
        )
}

/// The smallest, the largest and the mean of the values kept of a series; nothing where none are
/// kept.
pub fn retained_stats<V: Copy, C: Fn(Operation<V>) -> V>(
    metric: &MetricState<V>,
    compute: &C,
) -> (stats: Option<RetainedStats<V>>)
    requires
        can_compute(*compute),
    ensures
        match stats {
            Some(stats) => metric@.samples.len() > 0 && summarizes(
                *compute,
                metric@.samples,
                stats,
            ),
            None => metric@.samples.len() == 0,
        },
{
    let count: usize = metric.samples.len();
    if count == 0 {
        return None;
    }
    let first: V = metric.samples[0].value;
    let min: V = fold_points(compute, Fold::Lesser, first, &metric.samples, 1);
    let max: V = fold_points(compute, Fold::Greater, first, &metric.samples, 1);
    let sum: V = fold_points(compute, Fold::Plus, first, &metric.samples, 1);
    let avg: V = compute(Operation::Mean(sum, count));
    Some(RetainedStats { min, max, avg })
}

/// The difference between the last two values kept of a series; nothing where there are not two.
pub fn retained_delta<V: Copy, C: Fn(Operation<V>) -> V>(
    metric: &MetricState<V>,
    compute: &C,
) -> (delta: Option<V>)
    requires
        can_compute(*compute),
    ensures
        match delta {
            Some(delta) => metric@.samples.len() >= 2 && computes(
                *compute,
                Operation::Minus(
                    metric@.samples.last().value,
                    metric@.samples[metric@.samples.len() - 2].value,
                ),
                delta,
            ),
            None => metric@.samples.len() < 2,
        },
{
    let count: usize = metric.samples.len();
    if count < 2 {
        return None;
    }
    Some(
        compute(
            Operation::Minus(metric.samples[count - 1].value, metric.samples[count - 2].value),
        ),
    )
}

/// A series keeps no more points than it is asked to, the last one kept is the last one seen, and
/// what is kept are the last points in their order.
pub proof fn history_is_bounded<V>(
    state: StateView<V>,
    sample: SampleView<V>,
    total: V,
    history_points: nat,
)
    ensures
        pushed(state, sample, total, history_points).samples.len() <= history_points,
        state.samples.len() <= history_points && history_points > 0 ==> pushed(
            state,
            sample,
            total,
            history_points,
        ).samples.len() == if state.samples.len() < history_points {
            state.samples.len() + 1
        } else {
            history_points
        },
        history_points > 0 ==> pushed(state, sample, total, history_points).samples.last()
            == (Point { value: sample.value }),
        pushed(state, sample, total, history_points).samples.is_suffix_of(
            state.samples.push(Point { value: sample.value }),
        ),
{
}

/// A sample changes neither the name nor the label of its series.
pub proof fn series_keeps_its_name<V>(
    state: StateView<V>,
    sample: SampleView<V>,
    total: V,
    history_points: nat,
)
    ensures
        pushed(state, sample, total, history_points).name == state.name,
        pushed(state, sample, total, history_points).labels == state.labels,
{
}

/// The list of series holds each series once.
pub proof fn list_holds_each_series_once<V>(table: MetricTable<V>)
    requires
        table.wf(),
    ensures
        table.keys@.len() == table.listed().len(),
        table.keys@.no_duplicates(),
        table.keys@.to_set() == table@.dom(),
        forall|i: int|
            0 <= i < table.listed().len() ==> #[trigger] table.listed()[i] == table@[table.keys@[i]],
{
    assert(table.keys@.to_set() =~= table@.dom()) by {
        assert forall|key: Seq<char>| #[trigger] table@.dom().contains(
            key,
        ) implies table.keys@.to_set().contains(key) by {
            assert(table.keys@[table.index@[key] as int] == key);
        }
    }
    assert forall|i: int| 0 <= i < table.listed().len() implies #[trigger] table.listed()[i]
        == table@[table.keys@[i]] by {
        assert(table.index@.contains_key(table.keys@[i]));
    }
}

/// What a series holds is what stands in its fields.
pub proof fn series_hold_their_fields<V>(metric: MetricState<V>)
    ensures
        metric@.name == metric.name@,
        metric@.labels == metric.labels@,
        metric@.kind == metric.kind@,
        metric@.latest == metric.latest,
        metric@.total == metric.total,
        metric@.samples == metric.samples@,
        metric@.last_seen == metric.last_seen,
        metric@.tags.len() == metric.tags@.len(),
        forall|i: int|
            0 <= i < metric.tags@.len() ==> #[trigger] metric@.tags[i] == (
                metric.tags@[i].0@,
                metric.tags@[i].1@,
            ),
{
}

/// Whatever a series held before, after a sample it bears the sample's kind, value, tags and
/// moment, and keeps its name and its label. Of the points it had and the new one it keeps the
/// last, as many as are asked for or as there are.
pub proof fn series_bears_its_last_sample<V>(
    state: StateView<V>,
    sample: SampleView<V>,
    total: V,
    history_points: nat,
)
    ensures
        pushed(state, sample, total, history_points).last_seen == sample.received_at,
        pushed(state, sample, total, history_points).latest == sample.value,
        pushed(state, sample, total, history_points).kind == sample.kind,
        pushed(state, sample, total, history_points).tags == sample.tags,
        pushed(state, sample, total, history_points).total == total,
        pushed(state, sample, total, history_points).name == state.name,
        pushed(state, sample, total, history_points).labels == state.labels,
        pushed(state, sample, total, history_points).samples.len() == if state.samples.len()
            < history_points {
            state.samples.len() + 1
        } else {
            history_points
        },
        history_points > 0 ==> pushed(state, sample, total, history_points).samples.last().value
            == sample.value,
        forall|i: int|
            0 < i < pushed(state, sample, total, history_points).samples.len()
                ==> #[trigger] pushed(state, sample, total, history_points).samples[pushed(
                state,
                sample,
                total,
                history_points,
            ).samples.len() - 1 - i] == state.samples[state.samples.len() - i],
{
}

/// The values of a counter are added up, and the total of any other kind is its last value.
pub proof fn only_counters_add_up<V, C: Fn(Operation<V>) -> V>(
    compute: C,
    state: StateView<V>,
    sample: SampleView<V>,
    total: V,
)
    requires
        total_after(compute, state, sample, total),
    ensures
        sample.kind == KindView::Counter ==> call_ensures(
            compute,
            (Operation::Plus(state.total, sample.value),),
            total,
        ),
        sample.kind != KindView::Counter ==> total == sample.value,
{
}

/// The sum of what the points of a list measure.
pub open spec fn sum_of<V>(points: Seq<Point<V>>, measure: spec_fn(V) -> int) -> int
    decreases points.len(),
{
    if points.len() == 0 {
        0
    } else {
        sum_of(points.drop_last(), measure) + measure(points.last().value)
    }
}

/// However many samples a counter takes in, its total grows by the sum of their values, where
/// adding numbers adds what they measure.
pub proof fn counter_totals_are_sums<V, C: Fn(Operation<V>) -> V>(
    compute: C,
    measure: spec_fn(V) -> int,
    history_points: nat,
    states: Seq<StateView<V>>,
    samples: Seq<SampleView<V>>,
    values: Seq<Point<V>>,
)
    requires
        states.len() == samples.len() + 1,
        values.len() == samples.len(),
        forall|i: int|
            0 <= i < samples.len() ==> {
                &&& (#[trigger] samples[i]).kind == KindView::Counter
                &&& values[i].value == samples[i].value
                &&& total_after(compute, states[i], samples[i], states[i + 1].total)
                &&& states[i + 1] == pushed(
                    states[i],
                    samples[i],
                    states[i + 1].total,
                    history_points,
                )
            },
        forall|a: V, b: V, r: V| #[trigger]
            call_ensures(compute, (Operation::Plus(a, b),), r) ==> measure(r) == measure(a)
                + measure(b),
    ensures
        measure(states.last().total) == measure(states.first().total) + sum_of(values, measure),
    decreases samples.len(),
{
    if samples.len() > 0 {
        let last = samples.len() - 1;
        let fewer = samples.drop_last();
        assert forall|i: int| 0 <= i < fewer.len() implies {
            &&& (#[trigger] fewer[i]).kind == KindView::Counter
            &&& values.drop_last()[i].value == fewer[i].value
            &&& total_after(
                compute,
                states.drop_last()[i],
                fewer[i],
                states.drop_last()[i + 1].total,
            )
            &&& states.drop_last()[i + 1] == pushed(
                states.drop_last()[i],
                fewer[i],
                states.drop_last()[i + 1].total,
                history_points,
            )
        } by {
            assert(fewer[i] == samples[i]);
        }
        counter_totals_are_sums(
            compute,
            measure,
            history_points,
            states.drop_last(),
            fewer,
            values.drop_last(),
        );
        assert(samples[last].kind == KindView::Counter);
        only_counters_add_up(compute, states[last], samples[last], states[last + 1].total);
    }
}

/// Whether taking the lesser of two numbers gives one of them that is no greater than either, as
/// `le` orders them.
pub open spec fn picks_the_lesser<V, C: Fn(Operation<V>) -> V>(
    compute: C,
    le: spec_fn(V, V) -> bool,
) -> bool {
    &&& forall|a: V| #[trigger] le(a, a)
    &&& forall|a: V, b: V, c: V| #[trigger] le(a, b) && #[trigger] le(b, c) ==> le(a, c)
    &&& forall|a: V, b: V, r: V| #[trigger]
        call_ensures(compute, (Operation::Lesser(a, b),), r) ==> (r == a || r == b) && le(r, a)
            && le(r, b)
}

/// Whether taking the greater of two numbers gives one of them that is no less than either, as `le`
/// orders them.
pub open spec fn picks_the_greater<V, C: Fn(Operation<V>) -> V>(
    compute: C,
    le: spec_fn(V, V) -> bool,
) -> bool {
    &&& forall|a: V| #[trigger] le(a, a)
    &&& forall|a: V, b: V, c: V| #[trigger] le(a, b) && #[trigger] le(b, c) ==> le(a, c)
    &&& forall|a: V, b: V, r: V| #[trigger]
        call_ensures(compute, (Operation::Greater(a, b),), r) ==> (r == a || r == b) && le(a, r)
            && le(b, r)
}

proof fn lemma_fold_least<V, C: Fn(Operation<V>) -> V>(
    compute: C,
    le: spec_fn(V, V) -> bool,
    start: V,
    points: Seq<Point<V>>,
    steps: Seq<V>,
    at: int,
)
    requires
        picks_the_lesser(compute, le),
        folds(compute, Fold::Lesser, start, points, steps),
        0 <= at < steps.len(),
    ensures
        le(steps[at], start),
        forall|i: int| 0 <= i < at ==> le(steps[at], (#[trigger] points[i]).value),
        steps[at] == start || exists|i: int|
            0 <= i < at && steps[at] == (#[trigger] points[i]).value,
    decreases at,
{
    if at > 0 {
        lemma_fold_least(compute, le, start, points, steps, at - 1);
        let p = points[at - 1];
        assert(computes(compute, fold_step(Fold::Lesser, steps[at - 1], p.value), steps[at]));
        assert(call_ensures(compute, (Operation::Lesser(steps[at - 1], p.value),), steps[at]));
    }
}

proof fn lemma_fold_most<V, C: Fn(Operation<V>) -> V>(
    compute: C,
    le: spec_fn(V, V) -> bool,
    start: V,
    points: Seq<Point<V>>,
    steps: Seq<V>,
    at: int,
)
    requires
        picks_the_greater(compute, le),
        folds(compute, Fold::Greater, start, points, steps),
        0 <= at < steps.len(),
    ensures
        le(start, steps[at]),
        forall|i: int| 0 <= i < at ==> le((#[trigger] points[i]).value, steps[at]),
        steps[at] == start || exists|i: int|
            0 <= i < at && steps[at] == (#[trigger] points[i]).value,
    decreases at,
{
    if at > 0 {
        lemma_fold_most(compute, le, start, points, steps, at - 1);
        let p = points[at - 1];
        assert(computes(compute, fold_step(Fold::Greater, steps[at - 1], p.value), steps[at]));
        assert(call_ensures(compute, (Operation::Greater(steps[at - 1], p.value),), steps[at]));
    }
}

/// What comes of taking the lesser again and again is no greater than what it started with nor than
/// any point, and is one of them.
pub proof fn folding_finds_the_least<V, C: Fn(Operation<V>) -> V>(
    compute: C,
    le: spec_fn(V, V) -> bool,
    start: V,
    points: Seq<Point<V>>,
    result: V,
)
    requires
        picks_the_lesser(compute, le),
        folds_to(compute, Fold::Lesser, start, points, result),
    ensures
        le(result, start),
        forall|i: int| 0 <= i < points.len() ==> le(result, (#[trigger] points[i]).value),
        result == start || exists|i: int|
            0 <= i < points.len() && result == (#[trigger] points[i]).value,
{
    let steps = choose|steps: Seq<V>| #[trigger]
        folds(compute, Fold::Lesser, start, points, steps) && steps.last() == result;
    lemma_fold_least(compute, le, start, points, steps, points.len() as int);
}

/// What comes of taking the greater again and again is no less than what it started with nor than
/// any point, and is one of them.
pub proof fn folding_finds_the_greatest<V, C: Fn(Operation<V>) -> V>(
    compute: C,
    le: spec_fn(V, V) -> bool,
    start: V,
    points: Seq<Point<V>>,
    result: V,
)
    requires
        picks_the_greater(compute, le),
        folds_to(compute, Fold::Greater, start, points, result),
    ensures
        le(start, result),
        forall|i: int| 0 <= i < points.len() ==> le((#[trigger] points[i]).value, result),
        result == start || exists|i: int|
            0 <= i < points.len() && result == (#[trigger] points[i]).value,
{
    let steps = choose|steps: Seq<V>| #[trigger]
        folds(compute, Fold::Greater, start, points, steps) && steps.last() == result;
    lemma_fold_most(compute, le, start, points, steps, points.len() as int);
}

proof fn lemma_fold_sum<V, C: Fn(Operation<V>) -> V>(
    compute: C,
    measure: spec_fn(V) -> int,
    start: V,
    points: Seq<Point<V>>,
    steps: Seq<V>,
    at: int,
)
    requires
        forall|a: V, b: V, r: V| #[trigger]
            call_ensures(compute, (Operation::Plus(a, b),), r) ==> measure(r) == measure(a)
                + measure(b),
        folds(compute, Fold::Plus, start, points, steps),
        0 <= at < steps.len(),
    ensures
        measure(steps[at]) == measure(start) + sum_of(points.take(at), measure),
    decreases at,
{
    if at > 0 {
        lemma_fold_sum(compute, measure, start, points, steps, at - 1);
        let p = points[at - 1];
        assert(computes(compute, fold_step(Fold::Plus, steps[at - 1], p.value), steps[at]));
        assert(call_ensures(compute, (Operation::Plus(steps[at - 1], p.value),), steps[at]));
        assert(points.take(at).drop_last() == points.take(at - 1));
        assert(points.take(at).last() == p);
    }
}

proof fn lemma_sum_of_front<V>(points: Seq<Point<V>>, measure: spec_fn(V) -> int)
    requires
        points.len() > 0,
    ensures
        sum_of(points, measure) == measure(points[0].value) + sum_of(points.skip(1), measure),
    decreases points.len(),
{
    if points.len() == 1 {
        assert(points.drop_last() == Seq::<Point<V>>::empty());
        assert(points.skip(1) == Seq::<Point<V>>::empty());
        reveal_with_fuel(sum_of, 2);
    } else {
        lemma_sum_of_front(points.drop_last(), measure);
        assert(points.drop_last().skip(1) == points.skip(1).drop_last());
        assert(points.skip(1).last() == points.last());
    }
}

/// The smallest of the values kept is one of them and no greater than any, and the largest one of
/// them and no less than any, where the numbers are compared as `le` orders them. The mean is that
/// of the sum of all the values over their count, where adding numbers adds what they measure.
pub proof fn stats_sum_up_the_points<V, C: Fn(Operation<V>) -> V>(
    compute: C,
    le: spec_fn(V, V) -> bool,
    measure: spec_fn(V) -> int,
    points: Seq<Point<V>>,
    stats: RetainedStats<V>,
)
    requires
        points.len() > 0,
        summarizes(compute, points, stats),
        picks_the_lesser(compute, le),
        picks_the_greater(compute, le),
        forall|a: V, b: V, r: V| #[trigger]
            call_ensures(compute, (Operation::Plus(a, b),), r) ==> measure(r) == measure(a)
                + measure(b),
    ensures
        forall|i: int|
            0 <= i < points.len() ==> le(stats.min, (#[trigger] points[i]).value) && le(
                points[i].value,
                stats.max,
            ),
        exists|i: int| 0 <= i < points.len() && stats.min == (#[trigger] points[i]).value,
        exists|i: int| 0 <= i < points.len() && stats.max == (#[trigger] points[i]).value,
        exists|sum: V|
            measure(sum) == sum_of(points, measure) && #[trigger] call_ensures(
                compute,
                (Operation::Mean(sum, points.len() as usize),),
                stats.avg,
            ),
{
    let first = points[0].value;
    let rest = points.skip(1);
    folding_finds_the_least(compute, le, first, rest, stats.min);
    folding_finds_the_greatest(compute, le, first, rest, stats.max);
    assert forall|i: int| 0 <= i < points.len() implies le(
        stats.min,
        (#[trigger] points[i]).value,
    ) && le(points[i].value, stats.max) by {
        if i > 0 {
            assert(rest[i - 1] == points[i]);
        }
    }
    if stats.min != first {
        let i = choose|i: int| 0 <= i < rest.len() && stats.min == (#[trigger] rest[i]).value;
        assert(points[i + 1] == rest[i]);
    }
    if stats.max != first {
        let i = choose|i: int| 0 <= i < rest.len() && stats.max == (#[trigger] rest[i]).value;
        assert(points[i + 1] == rest[i]);
    }
    assert(points[0].value == first);
    let sum = choose|sum: V| #[trigger]
        folds_to(compute, Fold::Plus, first, rest, sum) && computes(
            compute,
            Operation::Mean(sum, points.len() as usize),
            stats.avg,
        );
    let steps = choose|steps: Seq<V>| #[trigger]
        folds(compute, Fold::Plus, first, rest, steps) && steps.last() == sum;
    lemma_fold_sum(compute, measure, first, rest, steps, rest.len() as int);
    assert(rest.take(rest.len() as int) == rest);
    lemma_sum_of_front(points, measure);
    assert(call_ensures(
        compute,
        (Operation::Mean(sum, points.len() as usize),),
        stats.avg,
    ));
}

/// A series of which nothing was measured yet has its name and its label, no points and no tags,
/// zero for its latest value and its total, and a kind that is not known.
pub proof fn new_series_hold_nothing<V>(
    state: StateView<V>,
    name: Seq<char>,
    labels: Seq<char>,
    zero: V,
)
    requires
        is_unmeasured(state, name, labels, zero),
    ensures
        state.name == name && state.labels == labels,
        state.samples.len() == 0 && state.tags.len() == 0,
        state.latest == zero && state.total == zero,
        state.kind matches KindView::Unknown(code) && code == seq!['?'],
{
}

/// A series that was put under a key is found under it, and under every other key what was found
/// before. It takes the place of the series that was there; else it comes last.
pub proof fn series_are_found_where_they_were_put<V>(
    before: MetricTable<V>,
    key: Seq<char>,
    state: StateView<V>,
    after: MetricTable<V>,
    other: Seq<char>,
    found_before: Option<&MetricState<V>>,
    found_after: Option<&MetricState<V>>,
)
    requires
        before.wf(),
        after.wf(),
        is_put(before, key, state, after),
        is_found(before, other, found_before),
        is_found(after, other, found_after),
    ensures
        other == key ==> (found_after matches Some(found) && found@ == state),
        other != key ==> (found_after is Some <==> found_before is Some),
        other != key ==> (found_before matches Some(found) ==> found_after->Some_0@ == found@),
        other == key && found_before is Some ==> after.listed().len() == before.listed().len()
            && after.keys@ == before.keys@,
        other == key && found_before is None ==> after.listed().len() == before.listed().len() + 1
            && after.keys@.last() == key && after.listed().last() == state,
        forall|i: int|
            0 <= i < before.listed().len() && before.keys@[i] != key ==> #[trigger] after.listed()[i]
                == before.listed()[i],
{
    if before@.contains_key(key) {
        assert(before.index@.contains_key(key));
        assert(before.keys@[before.index@[key] as int] == key);
    }
}

} // verus!
