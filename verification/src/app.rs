//! The state of the dashboard: the series, and where the user stands in them.
use std::time::Instant;
use vstd::hash_map::StringHashMap;
use vstd::prelude::*;

use crate::clock::now;
use crate::config::{
    metric_table, table_holds_last_of_each_name, Config, MetricConfig, MetricView,
};
use crate::dogstatsd::{samples_view, KindView, Sample, SampleView};
use crate::metrics::{
    list_holds_each_series_once, pushed, total_after, MetricState, MetricTable, Point, StateView,
};
use crate::numbers::{can_compute, Operation};
use crate::order::{
    ints, lemma_filter_keeps_count, lemma_map_keeps_multiset, lemma_slot_in_range,
    lemma_text_le_antisymmetric, pair_le, pair_order, pairs_are_totally_ordered, pairs_view,
    positions, slot_order, slots_are_totally_ordered, sort_slots, sorted_positions, text_le,
    PairView,
};
use crate::series::{
    different_tags_are_different_series, is_plain_in_key, key_of, label_of, labels_text,
    series_key, tag_order_makes_no_difference,
};
use crate::text::chars_of;

verus! {

/// The rows of a chart where nothing else was chosen.
pub const DEFAULT_CHART_HEIGHT: u16 = 9;

/// The fewest rows of a chart.
pub const MIN_CHART_HEIGHT: u16 = 6;

/// The most rows of a chart.
pub const MAX_CHART_HEIGHT: u16 = 24;

/// The pane that the keys act on.
#[derive(Debug, Clone, Copy, Eq, PartialEq, Structural)]
pub enum Focus {
    Numeric,
    Charts,
}

/// The state of the dashboard. The number type is `V`, and `zero` stands for the number zero.
#[verifier::reject_recursive_types(V)]
pub struct App<V> {
    pub config: Config,
    pub metrics: MetricTable<V>,
    pub metric_config: StringHashMap<MetricConfig>,
    pub zero: V,
    pub received: u64,
    pub started_at: Instant,
    pub focus: Focus,
    pub numeric_scroll: usize,
    pub chart_scroll: usize,
    pub numeric_selected: usize,
    pub chart_selected: usize,
    pub numeric_page: usize,
    pub chart_page: usize,
    pub chart_height: u16,
    pub details_open: bool,
}

/// Whether a metric is kept: all are where none is configured, and else those that are.
pub open spec fn tracks(table: Map<Seq<char>, MetricConfig>, name: Seq<char>) -> bool {
    table.is_empty() || table.contains_key(name)
}

/// Where a metric is shown.
pub open spec fn view_of(table: Map<Seq<char>, MetricConfig>, name: Seq<char>) -> MetricView {
    if table.contains_key(name) {
        table[name].view
    } else {
        MetricView::Numeric
    }
}

/// The unit of a metric; empty where none is configured.
pub open spec fn unit_of(table: Map<Seq<char>, MetricConfig>, name: Seq<char>) -> Seq<char> {
    if table.contains_key(name) {
        table[name].unit@
    } else {
        seq![]
    }
}

/// Whether a series is shown as a chart.
pub open spec fn charted<V>(table: Map<Seq<char>, MetricConfig>) -> spec_fn(StateView<V>) -> bool {
    |state: StateView<V>| view_of(table, state.name) == MetricView::Chart
}

/// The number of series shown as charts.
pub open spec fn chart_count<V>(
    table: Map<Seq<char>, MetricConfig>,
    listed: Seq<StateView<V>>,
) -> nat {
    listed.filter(charted(table)).len()
}

/// Whether a series is shown as numbers.
pub open spec fn numeric<V>(
    table: Map<Seq<char>, MetricConfig>,
    listed: Seq<StateView<V>>,
) -> spec_fn(StateView<V>) -> bool {
    |state: StateView<V>|
        view_of(table, state.name) == MetricView::Numeric || (table.is_empty() && chart_count(
            table,
            listed,
        ) == 0)
}

/// The number of series shown as numbers.
pub open spec fn numeric_count<V>(
    table: Map<Seq<char>, MetricConfig>,
    listed: Seq<StateView<V>>,
) -> nat {
    listed.filter(numeric(table, listed)).len()
}

/// Each series is shown in one of the two panes, and in one only.
pub proof fn each_series_is_in_one_pane<V>(
    table: Map<Seq<char>, MetricConfig>,
    listed: Seq<StateView<V>>,
)
    ensures
        forall|state: StateView<V>| #[trigger]
            numeric(table, listed)(state) <==> !charted(table)(state),
        numeric_count(table, listed) + chart_count(table, listed) == listed.len(),
{
    lemma_counts_of_opposites(listed, numeric(table, listed), charted(table));
}

proof fn lemma_counts_of_opposites<A>(
    list: Seq<A>,
    p: spec_fn(A) -> bool,
    q: spec_fn(A) -> bool,
)
    requires
        forall|a: A| #[trigger] p(a) <==> !q(a),
    ensures
        list.filter(p).len() + list.filter(q).len() == list.len(),
    decreases list.len(),
{
    reveal(Seq::filter);
    if list.len() > 0 {
        lemma_counts_of_opposites(list.drop_last(), p, q);
        assert(p(list.last()) <==> !q(list.last()));
    }
}

/// What series are sorted by: their name, then their label.
pub open spec fn sort_keys<V>(listed: Seq<StateView<V>>) -> Seq<PairView> {
    listed.map_values(|state: StateView<V>| (state.name, state.labels))
}

/// The series sorted by name and label; those with the same name and label stay in the order in
/// which they were first seen.
pub open spec fn sorted_states<V>(listed: Seq<StateView<V>>) -> Seq<StateView<V>> {
    sorted_positions(sort_keys(listed)).map_values(|i: int| listed[i])
}

/// The sorted series that a pane shows.
pub open spec fn pane_states<V>(
    table: Map<Seq<char>, MetricConfig>,
    listed: Seq<StateView<V>>,
    focus: Focus,
) -> Seq<StateView<V>> {
    match focus {
        Focus::Numeric => sorted_states(listed).filter(numeric(table, listed)),
        Focus::Charts => sorted_states(listed).filter(charted(table)),
    }
}

/// What the series behind a list of references hold.
pub open spec fn refs_view<V>(states: Seq<&MetricState<V>>) -> Seq<StateView<V>> {
    states.map_values(|state: &MetricState<V>| state@)
}

/// Sorting keeps the series.
proof fn lemma_sorted_states<V>(listed: Seq<StateView<V>>)
    ensures
        sorted_states(listed).len() == listed.len(),
        sorted_states(listed).to_multiset() == listed.to_multiset(),
{
    let keys = sort_keys(listed);
    let all = positions(keys.len());
    let pick = |i: int| listed[i];
    slots_are_totally_ordered(keys);
    all.lemma_sort_by_ensures(slot_order(keys));
    vstd::seq_lib::to_multiset_len(all);
    vstd::seq_lib::to_multiset_len(sorted_positions(keys));
    lemma_map_keeps_multiset(sorted_positions(keys), all, pick);
    assert(all.map_values(pick) =~= listed);
}

/// Whether series are sorted by name, and those of one name by label.
pub open spec fn in_order<V>(states: Seq<StateView<V>>) -> bool {
    forall|i: int, j: int|
        0 <= i < j < states.len() ==> pair_le(
            ((#[trigger] states[i]).name, states[i].labels),
            ((#[trigger] states[j]).name, states[j].labels),
        )
}

proof fn lemma_filter_picks<A>(list: Seq<A>, p: spec_fn(A) -> bool, i: int)
    requires
        0 <= i < list.filter(p).len(),
    ensures
        list.contains(list.filter(p)[i]),
    decreases list.len(),
{
    reveal(Seq::filter);
    let rest = list.drop_last();
    if i < rest.filter(p).len() {
        lemma_filter_picks(rest, p, i);
        let k = choose|k: int| 0 <= k < rest.len() && rest[k] == rest.filter(p)[i];
        assert(list[k] == list.filter(p)[i]);
    } else {
        assert(list[list.len() - 1] == list.filter(p)[i]);
    }
}

proof fn lemma_filter_keeps_order<V>(states: Seq<StateView<V>>, p: spec_fn(StateView<V>) -> bool)
    requires
        in_order(states),
    ensures
        in_order(states.filter(p)),
    decreases states.len(),
{
    reveal(Seq::filter);
    if states.len() > 0 {
        let rest = states.drop_last();
        lemma_filter_keeps_order(rest, p);
        let kept = states.filter(p);
        assert forall|i: int, j: int| 0 <= i < j < kept.len() implies pair_le(
            ((#[trigger] kept[i]).name, kept[i].labels),
            ((#[trigger] kept[j]).name, kept[j].labels),
        ) by {
            if j < rest.filter(p).len() {
                assert(kept[i] == rest.filter(p)[i]);
                assert(kept[j] == rest.filter(p)[j]);
            } else {
                assert(kept[i] == rest.filter(p)[i]);
                lemma_filter_picks(rest, p, i);
                let k = choose|k: int| 0 <= k < rest.len() && rest[k] == kept[i];
                assert(states[k] == kept[i]);
                assert(kept[j] == states[states.len() - 1]);
            }
        }
    }
}

/// The series are listed in the order of their names and labels, all of them and each pane's.
pub proof fn panes_list_series_in_order<V>(
    table: Map<Seq<char>, MetricConfig>,
    listed: Seq<StateView<V>>,
    focus: Focus,
)
    ensures
        sorted_states(listed).to_multiset() == listed.to_multiset(),
        in_order(sorted_states(listed)),
        in_order(pane_states(table, listed, focus)),
{
    lemma_sorted_states(listed);
    let keys = sort_keys(listed);
    let order = slot_order(keys);
    let slots = sorted_positions(keys);
    let sorted = sorted_states(listed);
    slots_are_totally_ordered(keys);
    positions(keys.len()).lemma_sort_by_ensures(order);
    assert forall|i: int, j: int| 0 <= i < j < sorted.len() implies pair_le(
        ((#[trigger] sorted[i]).name, sorted[i].labels),
        ((#[trigger] sorted[j]).name, sorted[j].labels),
    ) by {
        assert(order(slots[i], slots[j]));
        lemma_slot_in_range(keys, i);
        lemma_slot_in_range(keys, j);
        pairs_are_totally_ordered();
        let pairs = pair_order();
        assert(pairs(keys[slots[i]], keys[slots[i]]));
    }
    lemma_filter_keeps_order(sorted, numeric(table, listed));
    lemma_filter_keeps_order(sorted, charted(table));
}

/// The series of one metric stand next to each other in the list of a pane.
pub proof fn series_of_one_metric_stand_together<V>(
    table: Map<Seq<char>, MetricConfig>,
    listed: Seq<StateView<V>>,
    focus: Focus,
    first: int,
    between: int,
    last: int,
)
    requires
        0 <= first <= between <= last < pane_states(table, listed, focus).len(),
        pane_states(table, listed, focus)[first].name == pane_states(
            table,
            listed,
            focus,
        )[last].name,
    ensures
        pane_states(table, listed, focus)[between].name == pane_states(
            table,
            listed,
            focus,
        )[first].name,
{
    let shown = pane_states(table, listed, focus);
    panes_list_series_in_order(table, listed, focus);
    if first < between && between < last && shown[between].name != shown[first].name {
        assert(text_le(shown[first].name, shown[between].name));
        assert(text_le(shown[between].name, shown[last].name));
        lemma_text_le_antisymmetric(shown[first].name, shown[between].name);
    }
}

/// A pane shows as many series as are counted for it.
pub proof fn panes_show_what_is_counted<V>(
    table: Map<Seq<char>, MetricConfig>,
    listed: Seq<StateView<V>>,
)
    ensures
        pane_states(table, listed, Focus::Numeric).len() == numeric_count(table, listed),
        pane_states(table, listed, Focus::Charts).len() == chart_count(table, listed),
{
    lemma_sorted_states(listed);
    lemma_filter_keeps_count(sorted_states(listed), listed, numeric(table, listed));
    lemma_filter_keeps_count(sorted_states(listed), listed, charted(table));
}

/// A series of which nothing was measured yet, and which will take in its first sample.
pub open spec fn fresh<V>(sample: SampleView<V>, zero: V) -> StateView<V> {
    StateView {
        name: sample.name,
        labels: label_of(sample.tags),
        kind: KindView::Unknown(seq!['?']),
        latest: zero,
        total: zero,
        samples: seq![],
        last_seen: sample.received_at,
        tags: seq![],
    }
}

/// Whether the series `after` are what becomes of the series `before` when a sample is taken in. A
/// sample of a metric that is not kept changes nothing. Any other goes to the series of its name
/// and tags, which starts with it if it was not there, and no other series changes.
pub open spec fn recorded<V, C: Fn(Operation<V>) -> V>(
    compute: C,
    settings: RecordSettings<V>,
    before: Map<Seq<char>, StateView<V>>,
    sample: SampleView<V>,
    after: Map<Seq<char>, StateView<V>>,
) -> bool {
    let key = key_of(sample.name, sample.tags);
    let state = if before.contains_key(key) {
        before[key]
    } else {
        fresh(sample, settings.zero)
    };
    if tracks(settings.table, sample.name) {
        &&& total_after(compute, state, sample, after[key].total)
        &&& after == before.insert(
            key,
            pushed(state, sample, after[key].total, settings.points),
        )
    } else {
        after == before
    }
}

/// What taking samples in depends on: the configured metrics, the number zero, and the number of
/// points kept of a series.
pub struct RecordSettings<V> {
    pub table: Map<Seq<char>, MetricConfig>,
    pub zero: V,
    pub points: nat,
}

/// Whether the steps `trace` lead from some series to others by taking samples in one by one.
pub open spec fn records<V, C: Fn(Operation<V>) -> V>(
    compute: C,
    settings: RecordSettings<V>,
    samples: Seq<SampleView<V>>,
    trace: Seq<Map<Seq<char>, StateView<V>>>,
) -> bool {
    &&& trace.len() == samples.len() + 1
    &&& forall|i: int|
        0 <= i < samples.len() ==> recorded(
            compute,
            settings,
            #[trigger] trace[i],
            samples[i],
            trace[i + 1],
        )
}

/// Whether the series `after` are what becomes of the series `before` when samples are taken in one
/// by one.
pub open spec fn recorded_all<V, C: Fn(Operation<V>) -> V>(
    compute: C,
    settings: RecordSettings<V>,
    before: Map<Seq<char>, StateView<V>>,
    samples: Seq<SampleView<V>>,
    after: Map<Seq<char>, StateView<V>>,
) -> bool {
    exists|trace: Seq<Map<Seq<char>, StateView<V>>>| #[trigger]
        records(compute, settings, samples, trace) && trace.first() == before && trace.last() == after
}

/// The keys of the series seen after a sample was taken in: a series that was there keeps its place,
/// and a new one comes last.
pub open spec fn seen_after<V>(
    table: Map<Seq<char>, MetricConfig>,
    keys: Seq<Seq<char>>,
    sample: SampleView<V>,
) -> Seq<Seq<char>> {
    let key = key_of(sample.name, sample.tags);
    if tracks(table, sample.name) && !keys.contains(key) {
        keys.push(key)
    } else {
        keys
    }
}

/// The keys of the series seen after samples were taken in one by one.
pub open spec fn seen_after_all<V>(
    table: Map<Seq<char>, MetricConfig>,
    keys: Seq<Seq<char>>,
    samples: Seq<SampleView<V>>,
) -> Seq<Seq<char>>
    decreases samples.len(),
{
    if samples.len() == 0 {
        keys
    } else {
        seen_after(table, seen_after_all(table, keys, samples.drop_last()), samples.last())
    }
}

/// The series under some keys, in the order of the keys.
pub open spec fn series_under<V>(
    series: Map<Seq<char>, StateView<V>>,
    keys: Seq<Seq<char>>,
) -> Seq<StateView<V>> {
    keys.map_values(|key: Seq<char>| series[key])
}

/// Whether the dashboard `after` is what becomes of the dashboard `before` when samples are taken
/// in one by one.
pub open spec fn drained<V, C: Fn(Operation<V>) -> V>(
    compute: C,
    before: App<V>,
    samples: Seq<SampleView<V>>,
    after: App<V>,
) -> bool {
    &&& after.received == before.received + samples.len()
    &&& recorded_all(
        compute,
        before.record_settings(),
        before.metrics@,
        samples,
        after.metrics@,
    )
    &&& after.keys() == seen_after_all(before.table(), before.keys(), samples)
    &&& after.listed() == series_under(after.metrics@, after.keys())
    &&& after == (App { metrics: after.metrics, received: after.received, ..before })
}

/// Whether this is a dashboard that has received nothing yet.
pub open spec fn is_new<V>(app: App<V>, config: Config, zero: V) -> bool {
    &&& app.config == config
    &&& app.metrics@ == Map::<Seq<char>, StateView<V>>::empty()
    &&& app.listed() == Seq::<StateView<V>>::empty()
    &&& app.keys() == Seq::<Seq<char>>::empty()
    &&& app.zero == zero
    &&& app.received == 0
    &&& app.focus == Focus::Numeric
    &&& app.numeric_scroll == 0
    &&& app.chart_scroll == 0
    &&& app.numeric_selected == 0
    &&& app.chart_selected == 0
    &&& app.numeric_page == 1
    &&& app.chart_page == 1
    &&& app.chart_height == DEFAULT_CHART_HEIGHT
    &&& !app.details_open
}

/// However many samples are taken in, the series that were there keep their places.
pub proof fn series_keep_their_places<V>(
    table: Map<Seq<char>, MetricConfig>,
    keys: Seq<Seq<char>>,
    samples: Seq<SampleView<V>>,
)
    ensures
        keys.is_prefix_of(seen_after_all(table, keys, samples)),
    decreases samples.len(),
{
    if samples.len() > 0 {
        series_keep_their_places(table, keys, samples.drop_last());
    }
}

impl<V: Copy> App<V> {
    /// A dashboard that has received nothing yet.
    pub fn new(config: Config, zero: V) -> (app: Self)
        ensures
            app.wf(),
            is_new(app, config, zero),
    {
        let metric_config: StringHashMap<MetricConfig> = config.metric_map();
        App {
            config,
            metrics: MetricTable::new(),
            metric_config,
            zero,
            received: 0,
            started_at: now(),
            focus: Focus::Numeric,
            numeric_scroll: 0,
            chart_scroll: 0,
            numeric_selected: 0,
            chart_selected: 0,
            numeric_page: 1,
            chart_page: 1,
            chart_height: DEFAULT_CHART_HEIGHT,
            details_open: false,
        }
    }

    /// Takes a sample in.
    pub fn record<C: Fn(Operation<V>) -> V>(&mut self, sample: Sample<V>, compute: &C)
        requires
            old(self).wf(),
            old(self).received < u64::MAX,
            can_compute(*compute),
        ensures
            final(self).wf(),
            final(self).received == old(self).received + 1,
            recorded(
                *compute,
                old(self).record_settings(),
                old(self).metrics@,
                sample@,
                final(self).metrics@,
            ),
            final(self).keys() == seen_after(old(self).table(), old(self).keys(), sample@),
            final(self).listed() == series_under(final(self).metrics@, final(self).keys()),
            *final(self) == (App {
                metrics: final(self).metrics,
                received: final(self).received,
                ..*old(self)
            }),
    {
        proof {
            list_holds_each_series_once(self.metrics);
        }
        self.received = self.received + 1;
        if !self.should_track(sample.name.as_str()) {
            return ;
        }
        let history_points: usize = self.config.history_points();
        let key: String = series_key(sample.name.as_str(), &sample.tags);
        if !self.metrics.contains_key(key.as_str()) {
            let name: String = sample.name.clone();
            let labels: String = labels_text(&sample.tags);
            self.metrics.insert(key.clone(), MetricState::new(name, labels, self.zero));
        }
        match self.metrics.get_mut(key.as_str()) {
            Some(state) => state.push(sample, history_points, compute),
            None => (),
        }
        assert(self.metrics@ =~= old(self).metrics@.insert(key@, self.metrics@[key@]));
        proof {
            assert(old(self).metrics@.contains_key(key@) <==> old(self).keys().contains(key@)) by {
                assert(old(self).keys().to_set().contains(key@) <==> old(
                    self,
                ).metrics@.dom().contains(key@));
            }
            list_holds_each_series_once(self.metrics);
        }
    }

    /// Takes samples in one by one.
    pub fn drain_samples<C: Fn(Operation<V>) -> V>(&mut self, samples: Vec<Sample<V>>, compute: &C)
        requires
            old(self).wf(),
            old(self).received + samples@.len() <= u64::MAX,
            can_compute(*compute),
        ensures
            final(self).wf(),
            drained(*compute, *old(self), samples_view(samples@), *final(self)),
    {
        let ghost given = samples_view(samples@);
        let ghost before = *self;
        let ghost settings = self.record_settings();
        let ghost mut trace: Seq<Map<Seq<char>, StateView<V>>> = seq![self.metrics@];
        proof {
            list_holds_each_series_once(self.metrics);
        }
        for sample in iter: samples
            invariant
                iter.seq() == samples@,
                given == samples_view(samples@),
                settings == before.record_settings(),
                self.wf(),
                self.received == before.received + iter.index(),
                before.received + samples@.len() <= u64::MAX,
                can_compute(*compute),
                *self == (App { metrics: self.metrics, received: self.received, ..before }),
                self.keys() == seen_after_all(
                    before.table(),
                    before.keys(),
                    given.take(iter.index() as int),
                ),
                self.listed() == series_under(self.metrics@, self.keys()),
                records(*compute, settings, given.take(iter.index() as int), trace),
                trace.first() == before.metrics@,
                trace.last() == self.metrics@,
        {
            let ghost at = iter.index() as int;
            let ghost steps = trace;
            self.record(sample, compute);
            proof {
                trace = steps.push(self.metrics@);
                assert(given.take(at + 1).drop_last() == given.take(at));
                assert(given.take(at + 1).last() == given[at]);
                assert forall|i: int| 0 <= i < at + 1 implies recorded(
                    *compute,
                    settings,
                    #[trigger] trace[i],
                    given.take(at + 1)[i],
                    trace[i + 1],
                ) by {
                    if i < at {
                        assert(trace[i] == steps[i]);
                        assert(trace[i + 1] == steps[i + 1]);
                        assert(given.take(at + 1)[i] == given.take(at)[i]);
                    }
                }
            }
        }
        assert(given.take(given.len() as int) == given);
    }
}

impl<V> App<V> {
    /// What taking samples in depends on.
    pub open spec fn record_settings(&self) -> RecordSettings<V> {
        RecordSettings {
            table: self.table(),
            zero: self.zero,
            points: self.config.points_kept() as nat,
        }
    }

    /// The configured metrics by name.
    pub open spec fn table(&self) -> Map<Seq<char>, MetricConfig> {
        self.metric_config@
    }

    /// The keys of the series, in the order in which they were first seen.
    pub open spec fn keys(&self) -> Seq<Seq<char>> {
        self.metrics.keys@
    }

    /// The series in the order in which they were first seen.
    pub open spec fn listed(&self) -> Seq<StateView<V>> {
        self.metrics.listed()
    }

    /// The table of series is in order, the configured metrics are those of the configuration, the
    /// height of the charts is within its bounds, and no pane shows more rows than a screen has.
    pub open spec fn wf(&self) -> bool {
        &&& self.metrics.wf()
        &&& self.metric_config@ == metric_table(self.config.metrics@)
        &&& MIN_CHART_HEIGHT <= self.chart_height <= MAX_CHART_HEIGHT
        &&& self.numeric_page <= u16::MAX
        &&& self.chart_page <= u16::MAX
    }

    /// Whether a metric is kept.
    pub fn should_track(&self, name: &str) -> (kept: bool)
        ensures
            kept == tracks(self.table(), name@),
    {
        self.metric_config.is_empty() || self.metric_config.contains_key(name)
    }

    /// Where a metric is shown.
    pub fn configured_view(&self, name: &str) -> (view: MetricView)
        ensures
            view == view_of(self.table(), name@),
    {
        match self.metric_config.get(name) {
            Some(config) => config.view,
            None => MetricView::Numeric,
        }
    }

    /// The unit of a metric; empty where none is configured.
    pub fn unit(&self, name: &str) -> (unit: String)
        ensures
            unit@ == unit_of(self.table(), name@),
    {
        match self.metric_config.get(name) {
            Some(config) => config.unit.clone(),
            None => String::new(),
        }
    }

    /// The number of series shown as charts.
    pub fn chart_metric_count(&self) -> (count: usize)
        ensures
            count == chart_count(self.table(), self.listed()),
    {
        let ghost listed = self.listed();
        let ghost p = charted::<V>(self.table());
        let mut count: usize = 0;
        let mut i: usize = 0;
        reveal(Seq::filter);
        while i < self.metrics.states.len()
            invariant
                i <= self.metrics.states@.len(),
                listed == self.listed(),
                p == charted::<V>(self.table()),
                count <= i,
                count == listed.take(i as int).filter(p).len(),
            decreases self.metrics.states@.len() - i,
        {
            proof {
                listed.take(i as int).lemma_filter_push(listed[i as int], p);
                assert(listed.take(i + 1) == listed.take(i as int).push(listed[i as int]));
            }
            if self.configured_view(self.metrics.states[i].name.as_str()) == MetricView::Chart {
                count += 1;
            }
            i += 1;
        }
        assert(listed.take(i as int) == listed);
        count
    }

    /// Whether a series is shown as numbers.
    pub fn numeric_filter(&self, metric: &MetricState<V>) -> (shown: bool)
        ensures
            shown == numeric(self.table(), self.listed())(metric@),
    {
        self.configured_view(metric.name.as_str()) == MetricView::Numeric || (
        self.metric_config.is_empty() && self.chart_metric_count() == 0)
    }

    /// The number of series shown as numbers.
    pub fn numeric_metric_count(&self) -> (count: usize)
        ensures
            count == numeric_count(self.table(), self.listed()),
    {
        let ghost listed = self.listed();
        let ghost p = numeric::<V>(self.table(), listed);
        let mut count: usize = 0;
        let mut i: usize = 0;
        reveal(Seq::filter);
        while i < self.metrics.states.len()
            invariant
                i <= self.metrics.states@.len(),
                listed == self.listed(),
                p == numeric::<V>(self.table(), listed),
                count <= i,
                count == listed.take(i as int).filter(p).len(),
            decreases self.metrics.states@.len() - i,
        {
            proof {
                listed.take(i as int).lemma_filter_push(listed[i as int], p);
                assert(listed.take(i + 1) == listed.take(i as int).push(listed[i as int]));
            }
            if self.numeric_filter(&self.metrics.states[i]) {
                count += 1;
            }
            i += 1;
        }
        assert(listed.take(i as int) == listed);
        count
    }

    /// The series sorted by name and label.
    pub fn sorted_metrics(&self) -> (sorted: Vec<&MetricState<V>>)
        ensures
            refs_view(sorted@) == sorted_states(self.listed()),
    {
        let ghost listed = self.listed();
        let ghost keys = sort_keys(listed);
        let mut pairs: Vec<(Vec<char>, Vec<char>)> = Vec::new();
        let mut i: usize = 0;
        while i < self.metrics.states.len()
            invariant
                i <= self.metrics.states@.len(),
                listed == self.listed(),
                keys == sort_keys(listed),
                pairs@.len() == i,
                pairs_view(pairs@) == keys.take(i as int),
            decreases self.metrics.states@.len() - i,
        {
            let ghost before = pairs@;
            let state = &self.metrics.states[i];
            pairs.push((chars_of(state.name.as_str()), chars_of(state.labels.as_str())));
            assert(listed[i as int] == state@);
            assert(pairs_view(pairs@) == pairs_view(before).push(keys[i as int]));
            i += 1;
            assert(keys.take(i as int) == keys.take(i - 1).push(keys[i - 1]));
        }
        assert(keys.take(i as int) == keys);
        let slots: Vec<usize> = sort_slots(&pairs);
        let mut sorted: Vec<&MetricState<V>> = Vec::new();
        let ghost all = sorted_states(listed);
        let mut j: usize = 0;
        while j < slots.len()
            invariant
                j <= slots@.len(),
                slots@.len() == self.metrics.states@.len(),
                listed == self.listed(),
                ints(slots@) == sorted_positions(sort_keys(listed)),
                all == sorted_states(listed),
                forall|k: int|
                    0 <= k < slots@.len() ==> (#[trigger] slots@[k]) < self.metrics.states@.len(),
                sorted@.len() == j,
                refs_view(sorted@) == all.take(j as int),
            decreases slots@.len() - j,
        {
            let ghost before = sorted@;
            let slot: usize = slots[j];
            sorted.push(&self.metrics.states[slot]);
            assert(ints(slots@)[j as int] == slot);
            assert(all[j as int] == listed[slot as int]);
            assert(refs_view(sorted@) == refs_view(before).push(all[j as int]));
            j += 1;
            assert(all.take(j as int) == all.take(j - 1).push(all[j - 1]));
        }
        assert(all.take(j as int) == all);
        sorted
    }

    /// Whether a pane shows a series.
    fn pane_shows(&self, focus: Focus, metric: &MetricState<V>) -> (shown: bool)
        ensures
            shown == match focus {
                Focus::Numeric => numeric(self.table(), self.listed())(metric@),
                Focus::Charts => charted(self.table())(metric@),
            },
    {
        match focus {
            Focus::Numeric => self.numeric_filter(metric),
            Focus::Charts => self.configured_view(metric.name.as_str()) == MetricView::Chart,
        }
    }

    /// The sorted series that a pane shows.
    pub fn pane_metrics(&self, focus: Focus) -> (shown: Vec<&MetricState<V>>)
        ensures
            refs_view(shown@) == pane_states(self.table(), self.listed(), focus),
    {
        let sorted: Vec<&MetricState<V>> = self.sorted_metrics();
        let ghost all = sorted_states(self.listed());
        let ghost p = match focus {
            Focus::Numeric => numeric::<V>(self.table(), self.listed()),
            Focus::Charts => charted::<V>(self.table()),
        };
        let mut shown: Vec<&MetricState<V>> = Vec::new();
        let mut i: usize = 0;
        reveal(Seq::filter);
        assert(refs_view(shown@) =~= all.take(0).filter(p));
        while i < sorted.len()
            invariant
                i <= sorted@.len(),
                all == refs_view(sorted@),
                p == (match focus {
                    Focus::Numeric => numeric::<V>(self.table(), self.listed()),
                    Focus::Charts => charted::<V>(self.table()),
                }),
                refs_view(shown@) == all.take(i as int).filter(p),
            decreases sorted@.len() - i,
        {
            let ghost before = shown@;
            proof {
                all.take(i as int).lemma_filter_push(all[i as int], p);
                assert(all.take(i + 1) == all.take(i as int).push(all[i as int]));
            }
            if self.pane_shows(focus, sorted[i]) {
                shown.push(sorted[i]);
                assert(refs_view(shown@) == refs_view(before).push(all[i as int]));
            }
            i += 1;
        }
        assert(all.take(i as int) == all);
        shown
    }
}

/// What holds of every series that samples have made: its metric is one that is kept, it holds at
/// least one point and no more than are kept, and its latest value is that of its last point.
pub open spec fn is_recorded<V>(settings: RecordSettings<V>, state: StateView<V>) -> bool {
    &&& tracks(settings.table, state.name)
    &&& 0 < state.samples.len() <= settings.points
    &&& state.samples.last() == (Point { value: state.latest })
}

/// Whether all series are ones that samples have made.
pub open spec fn all_recorded<V>(
    settings: RecordSettings<V>,
    series: Map<Seq<char>, StateView<V>>,
) -> bool {
    forall|key: Seq<char>| #[trigger]
        series.contains_key(key) ==> is_recorded(settings, series[key])
}

/// However many samples are taken in: only metrics that are kept have series, no series holds more
/// points than are kept, and the latest value of each is that of its last point.
pub proof fn series_stay_within_the_settings<V, C: Fn(Operation<V>) -> V>(
    compute: C,
    settings: RecordSettings<V>,
    before: Map<Seq<char>, StateView<V>>,
    samples: Seq<SampleView<V>>,
    after: Map<Seq<char>, StateView<V>>,
)
    requires
        settings.points > 0,
        all_recorded(settings, before),
        recorded_all(compute, settings, before, samples, after),
    ensures
        all_recorded(settings, after),
{
    let trace = choose|trace: Seq<Map<Seq<char>, StateView<V>>>| #[trigger]
        records(compute, settings, samples, trace) && trace.first() == before && trace.last()
            == after;
    lemma_trace_is_recorded(compute, settings, samples, trace, samples.len() as int);
}

proof fn lemma_trace_is_recorded<V, C: Fn(Operation<V>) -> V>(
    compute: C,
    settings: RecordSettings<V>,
    samples: Seq<SampleView<V>>,
    trace: Seq<Map<Seq<char>, StateView<V>>>,
    at: int,
)
    requires
        settings.points > 0,
        records(compute, settings, samples, trace),
        all_recorded(settings, trace.first()),
        0 <= at < trace.len(),
    ensures
        all_recorded(settings, trace[at]),
    decreases at,
{
    if at > 0 {
        lemma_trace_is_recorded(compute, settings, samples, trace, at - 1);
        let sample = samples[at - 1];
        assert(recorded(compute, settings, trace[at - 1], sample, trace[at - 1 + 1]));
    }
}

/// A sample of a metric that is not kept changes no series. Any other changes the one of its name
/// and tags, and no other.
pub proof fn sample_changes_one_series<V, C: Fn(Operation<V>) -> V>(
    compute: C,
    settings: RecordSettings<V>,
    before: Map<Seq<char>, StateView<V>>,
    sample: SampleView<V>,
    after: Map<Seq<char>, StateView<V>>,
    other: Seq<char>,
)
    requires
        recorded(compute, settings, before, sample, after),
    ensures
        !tracks(settings.table, sample.name) ==> after == before,
        tracks(settings.table, sample.name) ==> after.contains_key(
            key_of(sample.name, sample.tags),
        ) && after[key_of(sample.name, sample.tags)].latest == sample.value,
        other != key_of(sample.name, sample.tags) ==> (after.contains_key(other)
            <==> before.contains_key(other)) && (before.contains_key(other) ==> after[other]
            == before[other]),
{
}

/// Whether a name and tags hold none of the characters that end them in a key.
pub open spec fn is_plain_series(name: Seq<char>, tags: Seq<PairView>) -> bool {
    &&& !name.contains('|')
    &&& forall|i: int| 0 <= i < tags.len() ==> is_plain_in_key(#[trigger] tags[i])
}

/// Two samples of kept metrics with different tags make two series, and with the same tags in any
/// order one. This holds of names and tags without the characters that end them in a key.
pub proof fn labelled_samples_make_distinct_series<V, C: Fn(Operation<V>) -> V>(
    compute: C,
    settings: RecordSettings<V>,
    first: SampleView<V>,
    second: SampleView<V>,
    between: Map<Seq<char>, StateView<V>>,
    after: Map<Seq<char>, StateView<V>>,
)
    requires
        tracks(settings.table, first.name),
        tracks(settings.table, second.name),
        is_plain_series(first.name, first.tags),
        is_plain_series(second.name, second.tags),
        recorded(compute, settings, Map::empty(), first, between),
        recorded(compute, settings, between, second, after),
    ensures
        after.dom().finite(),
        after.dom().len() == if first.name == second.name && first.tags.to_multiset()
            == second.tags.to_multiset() {
            1int
        } else {
            2
        },
{
    different_tags_are_different_series(first.name, first.tags, second.name, second.tags);
    let key = key_of(first.name, first.tags);
    let other = key_of(second.name, second.tags);
    assert(between.dom() =~= Set::empty().insert(key));
    assert(after.dom() =~= between.dom().insert(other));
}

/// Whether each series stands under the key of its name and tags, and bears the label of its tags.
pub open spec fn is_labelled<V>(series: Map<Seq<char>, StateView<V>>) -> bool {
    forall|key: Seq<char>| #[trigger]
        series.contains_key(key) ==> {
            let state = series[key];
            &&& is_plain_series(state.name, state.tags)
            &&& key == key_of(state.name, state.tags)
            &&& state.labels == label_of(state.tags)
        }
}

/// A series bears the label of the tags it was last seen with, and stands under their key. This
/// holds of names and tags without the characters that end them in a key.
pub proof fn series_are_labelled_by_their_tags<V, C: Fn(Operation<V>) -> V>(
    compute: C,
    settings: RecordSettings<V>,
    before: Map<Seq<char>, StateView<V>>,
    sample: SampleView<V>,
    after: Map<Seq<char>, StateView<V>>,
)
    requires
        is_labelled(before),
        is_plain_series(sample.name, sample.tags),
        recorded(compute, settings, before, sample, after),
    ensures
        is_labelled(after),
{
    let key = key_of(sample.name, sample.tags);
    if before.contains_key(key) {
        let state = before[key];
        different_tags_are_different_series(state.name, state.tags, sample.name, sample.tags);
        tag_order_makes_no_difference(state.name, state.tags, sample.tags);
    }
}

/// A sample adds at most one series.
pub proof fn no_more_series_than_samples<V, C: Fn(Operation<V>) -> V>(
    compute: C,
    settings: RecordSettings<V>,
    before: Map<Seq<char>, StateView<V>>,
    sample: SampleView<V>,
    after: Map<Seq<char>, StateView<V>>,
)
    requires
        before.dom().finite(),
        recorded(compute, settings, before, sample, after),
    ensures
        after.dom().finite(),
        before.dom().subset_of(after.dom()),
        before.dom().len() <= after.dom().len() <= before.dom().len() + 1,
{
    let key = key_of(sample.name, sample.tags);
    if tracks(settings.table, sample.name) {
        assert(after.dom() =~= before.dom().insert(key));
    }
}

/// Where no metric is configured, every metric is kept, and where some are, those are and no
/// others. A metric is shown where the last one of its name is configured to be, and has the unit
/// configured there; one that is not configured is shown as numbers and has none.
pub proof fn metrics_have_the_settings_of_their_name(metrics: Seq<MetricConfig>, name: Seq<char>)
    ensures
        metrics.len() == 0 ==> tracks(metric_table(metrics), name),
        metrics.len() > 0 ==> (tracks(metric_table(metrics), name) <==> exists|i: int|
            0 <= i < metrics.len() && (#[trigger] metrics[i]).name@ == name),
        (forall|i: int| 0 <= i < metrics.len() ==> (#[trigger] metrics[i]).name@ != name)
            ==> view_of(metric_table(metrics), name) == MetricView::Numeric && unit_of(
            metric_table(metrics),
            name,
        ).len() == 0,
        forall|i: int|
            0 <= i < metrics.len() && (#[trigger] metrics[i]).name@ == name && (forall|j: int|
                i < j < metrics.len() ==> (#[trigger] metrics[j]).name@ != name) ==> view_of(
                metric_table(metrics),
                name,
            ) == metrics[i].view && unit_of(metric_table(metrics), name) == metrics[i].unit@,
{
    let table = metric_table(metrics);
    table_holds_last_of_each_name(metrics, name);
    if metrics.len() > 0 {
        let first = metrics[0].name@;
        table_holds_last_of_each_name(metrics, first);
        assert(metrics[0].name@ == first);
        assert(table.contains_key(first));
        assert(!table.is_empty());
    } else {
        assert(table.is_empty());
    }
}

/// Each pane shows the series whose metric is configured for it, all of them and no others: the one
/// those configured as charts, and the other the rest.
pub proof fn panes_show_the_series_of_their_view<V>(
    table: Map<Seq<char>, MetricConfig>,
    listed: Seq<StateView<V>>,
    state: StateView<V>,
)
    ensures
        pane_states(table, listed, Focus::Charts).contains(state) <==> listed.contains(state)
            && table.contains_key(state.name) && table[state.name].view == MetricView::Chart,
        pane_states(table, listed, Focus::Numeric).contains(state) <==> listed.contains(state) && !(
        table.contains_key(state.name) && table[state.name].view == MetricView::Chart),
{
    lemma_sorted_states(listed);
    let sorted = sorted_states(listed);
    assert(sorted.contains(state) <==> listed.contains(state)) by {
        broadcast use vstd::seq_lib::group_to_multiset_ensures;

        assert(sorted.to_multiset().count(state) == listed.to_multiset().count(state));
    }
    each_series_is_in_one_pane(table, listed);
    assert(numeric(table, listed)(state) <==> !charted(table)(state));
    lemma_filter_holds(sorted, numeric(table, listed), state);
    lemma_filter_holds(sorted, charted(table), state);
}

proof fn lemma_filter_holds<A>(list: Seq<A>, p: spec_fn(A) -> bool, a: A)
    ensures
        list.filter(p).contains(a) <==> list.contains(a) && p(a),
{
    broadcast use vstd::seq_lib::group_filter_ensures;

    if list.filter(p).contains(a) {
        let i = choose|i: int| 0 <= i < list.filter(p).len() && list.filter(p)[i] == a;
        lemma_filter_picks(list, p, i);
    }
    if list.contains(a) && p(a) {
        let i = choose|i: int| 0 <= i < list.len() && list[i] == a;
        assert(list.filter(p).contains(list[i]));
    }
}

/// The parts of a dashboard are what stands in its fields.
pub proof fn dashboards_hold_their_fields<V>(app: App<V>)
    ensures
        app.table() == app.metric_config@,
        app.keys() == app.metrics.keys@,
        app.listed().len() == app.metrics.states@.len(),
        forall|i: int|
            0 <= i < app.metrics.states@.len() ==> #[trigger] app.listed()[i]
                == app.metrics.states@[i]@,
        app.record_settings().table == app.metric_config@,
        app.record_settings().zero == app.zero,
        app.record_settings().points == app.config.points_kept(),
        app.wf() ==> app.metric_config@ == metric_table(app.config.metrics@),
{
}

/// A sample of a metric that is kept is found in the series of its name and tags, whether the
/// series was there or not: its kind, value, tags and moment are the last that the series bears,
/// and its value is the last point. The total of a counter grows by it, from zero where the series
/// is new, and the total of any other kind is its value. A new series has the sample's name and the
/// label of its tags and one point; one that was there keeps its name and its label, and has one
/// point more, or as many as are kept.
pub proof fn samples_are_found_in_their_series<V, C: Fn(Operation<V>) -> V>(
    compute: C,
    settings: RecordSettings<V>,
    before: Map<Seq<char>, StateView<V>>,
    sample: SampleView<V>,
    after: Map<Seq<char>, StateView<V>>,
)
    requires
        recorded(compute, settings, before, sample, after),
        settings.table.is_empty() || settings.table.contains_key(sample.name),
        settings.points > 0,
    ensures
        ({
            let key = key_of(sample.name, sample.tags);
            let known = before.contains_key(key);
            let state = after[key];
            &&& after.contains_key(key)
            &&& state.kind == sample.kind
            &&& state.latest == sample.value
            &&& state.last_seen == sample.received_at
            &&& state.tags == sample.tags
            &&& state.samples.len() > 0 && state.samples.last().value == sample.value
            &&& sample.kind != KindView::Counter ==> state.total == sample.value
            &&& sample.kind == KindView::Counter && known ==> call_ensures(
                compute,
                (Operation::Plus(before[key].total, sample.value),),
                state.total,
            )
            &&& sample.kind == KindView::Counter && !known ==> call_ensures(
                compute,
                (Operation::Plus(settings.zero, sample.value),),
                state.total,
            )
            &&& !known ==> state.name == sample.name && state.labels == label_of(sample.tags)
                && state.samples.len() == 1
            &&& known ==> state.name == before[key].name && state.labels == before[key].labels
                && state.samples.len() == if before[key].samples.len() < settings.points {
                before[key].samples.len() + 1
            } else {
                settings.points
            }
        }),
        forall|other: Seq<char>|
            other != key_of(sample.name, sample.tags) ==> (#[trigger] after.contains_key(other)
                <==> before.contains_key(other)) && (before.contains_key(other) ==> after[other]
                == before[other]),
{
}

/// A sample of a metric that is not kept changes nothing.
pub proof fn samples_of_other_metrics_change_nothing<V, C: Fn(Operation<V>) -> V>(
    compute: C,
    settings: RecordSettings<V>,
    before: Map<Seq<char>, StateView<V>>,
    sample: SampleView<V>,
    after: Map<Seq<char>, StateView<V>>,
)
    requires
        recorded(compute, settings, before, sample, after),
        !settings.table.is_empty(),
        !settings.table.contains_key(sample.name),
    ensures
        after == before,
{
}

/// Samples are taken in one after the other: no samples change nothing, and the last sample is
/// taken in after those before it.
pub proof fn samples_are_taken_in_one_after_the_other<V, C: Fn(Operation<V>) -> V>(
    compute: C,
    settings: RecordSettings<V>,
    before: Map<Seq<char>, StateView<V>>,
    samples: Seq<SampleView<V>>,
    last: SampleView<V>,
    after: Map<Seq<char>, StateView<V>>,
)
    ensures
        recorded_all(compute, settings, before, seq![], after) <==> after == before,
        recorded_all(compute, settings, before, samples.push(last), after) <==> exists|
            between: Map<Seq<char>, StateView<V>>,
        |
            #[trigger] recorded_all(compute, settings, before, samples, between) && recorded(
                compute,
                settings,
                between,
                last,
                after,
            ),
{
    let alone = seq![before];
    assert(records(compute, settings, seq![], alone));
    if after == before {
        assert(alone.first() == before && alone.last() == after);
    }
    let all = samples.push(last);
    if recorded_all(compute, settings, before, all, after) {
        let trace = choose|trace: Seq<Map<Seq<char>, StateView<V>>>| #[trigger]
            records(compute, settings, all, trace) && trace.first() == before && trace.last()
                == after;
        let fewer = trace.drop_last();
        assert forall|i: int| 0 <= i < samples.len() implies recorded(
            compute,
            settings,
            #[trigger] fewer[i],
            samples[i],
            fewer[i + 1],
        ) by {
            assert(trace[i] == fewer[i]);
            assert(all[i] == samples[i]);
        }
        assert(records(compute, settings, samples, fewer));
        assert(fewer.first() == before);
        assert(recorded_all(compute, settings, before, samples, fewer.last()));
        let at = samples.len() as int;
        assert(trace[at] == fewer.last());
        assert(recorded(compute, settings, trace[at], all[at], trace[at + 1]));
    }
    if exists|between: Map<Seq<char>, StateView<V>>|
        #[trigger] recorded_all(compute, settings, before, samples, between) && recorded(
            compute,
            settings,
            between,
            last,
            after,
        ) {
        let between = choose|between: Map<Seq<char>, StateView<V>>|
            #[trigger] recorded_all(compute, settings, before, samples, between) && recorded(
                compute,
                settings,
                between,
                last,
                after,
            );
        let trace = choose|trace: Seq<Map<Seq<char>, StateView<V>>>| #[trigger]
            records(compute, settings, samples, trace) && trace.first() == before && trace.last()
                == between;
        let more = trace.push(after);
        assert forall|i: int| 0 <= i < all.len() implies recorded(
            compute,
            settings,
            #[trigger] more[i],
            all[i],
            more[i + 1],
        ) by {
            if i < samples.len() {
                assert(trace[i] == more[i]);
                assert(trace[i + 1] == more[i + 1]);
                assert(all[i] == samples[i]);
            } else {
                assert(more[i] == between);
            }
        }
        assert(records(compute, settings, all, more));
        assert(more.first() == before && more.last() == after);
    }
}

/// Of the series seen, none is lost by a sample, and only that of a kept metric's sample is added,
/// behind the others, if it was not there.
pub proof fn samples_add_their_series_at_the_end<V>(
    table: Map<Seq<char>, MetricConfig>,
    keys: Seq<Seq<char>>,
    sample: SampleView<V>,
)
    ensures
        ({
            let key = key_of(sample.name, sample.tags);
            let kept = table.is_empty() || table.contains_key(sample.name);
            &&& !kept || keys.contains(key) ==> seen_after(table, keys, sample) == keys
            &&& kept && !keys.contains(key) ==> seen_after(table, keys, sample) == keys + seq![key]
        }),
{
}

/// Every sample is counted, whether its metric is kept or not. Taking samples in changes neither
/// the configuration nor where the user stands, and leaves each series in the list where its key
/// stands.
pub proof fn every_sample_is_counted<V, C: Fn(Operation<V>) -> V>(
    compute: C,
    before: App<V>,
    samples: Seq<SampleView<V>>,
    after: App<V>,
)
    requires
        drained(compute, before, samples, after),
    ensures
        after.received - before.received == samples.len(),
        after.config == before.config && after.metric_config == before.metric_config,
        after.zero == before.zero && after.started_at == before.started_at,
        after.focus == before.focus && after.chart_height == before.chart_height,
        after.numeric_scroll == before.numeric_scroll && after.chart_scroll == before.chart_scroll,
        after.numeric_selected == before.numeric_selected,
        after.chart_selected == before.chart_selected,
        after.numeric_page == before.numeric_page && after.chart_page == before.chart_page,
        after.details_open == before.details_open,
        recorded_all(
            compute,
            RecordSettings {
                table: before.metric_config@,
                zero: before.zero,
                points: before.config.points_kept() as nat,
            },
            before.metrics@,
            samples,
            after.metrics@,
        ),
        after.metrics.keys@ == seen_after_all(
            before.metric_config@,
            before.metrics.keys@,
            samples,
        ),
        forall|i: int|
            0 <= i < after.metrics.keys@.len() ==> #[trigger] after.listed()[i] == after.metrics@[
                after.metrics.keys@[i]
            ],
{
}

/// A new dashboard has received nothing and lists no series. The keys act on the numbers, the
/// charts have a height that leaves room to make them higher and lower, nothing is scrolled, and no
/// details are shown.
pub proof fn new_dashboards_are_empty<V>(app: App<V>, config: Config, zero: V)
    requires
        is_new(app, config, zero),
    ensures
        app.config == config && app.zero == zero,
        app.received == 0 && app.metrics.states@.len() == 0 && app.metrics.keys@.len() == 0,
        forall|key: Seq<char>| !(#[trigger] app.metrics@.contains_key(key)),
        app.focus == Focus::Numeric && !app.details_open,
        app.numeric_scroll == 0 && app.numeric_selected == 0 && app.numeric_page == 1,
        app.chart_scroll == 0 && app.chart_selected == 0 && app.chart_page == 1,
        app.chart_height == 9,
        pane_states(app.table(), app.listed(), Focus::Numeric).len() == 0,
        pane_states(app.table(), app.listed(), Focus::Charts).len() == 0,
{
    assert(app.listed().len() == app.metrics.states@.len());
    panes_show_what_is_counted(app.table(), app.listed());
}

} // verus!
