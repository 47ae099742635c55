//! The details of the selected series.
use std::time::{Duration, Instant};
use vstd::prelude::*;

use crate::app::{pane_states, unit_of, view_of, App, Focus};
use crate::clock::{elapsed, time_between};
use crate::config::{MetricConfig, MetricView};
use crate::dogstatsd::kind_word;
use crate::geometry::{bottom_third, details_rows, rows_of, Area};
use crate::metrics::{
    retained_delta, retained_stats, summarizes, MetricState, RetainedStats, StateView,
};
use crate::navigation::focused_pane;
use crate::numbers::{computes, Numbers, Operation, Test};
use crate::screen::{
    key_name, key_span, label, label_look, label_span, lines_show_their_texts, lines_view,
    plain_look, raw, raw_span, selected_look, selected_style, Color, Span, SpanView, TextStyle,
};
use crate::series::{format_tags_full, tag_list};
use crate::text::{decimal, decimal_text};

verus! {

/// The details of the selected series, or a notice where none is selected.
#[derive(Debug)]
pub enum DetailsPane {
    Notice { area: Area, title: String, text: String },
    Details { area: Area, title: String, border_style: TextStyle, lines: Vec<Vec<Span>> },
}

/// The numbers of a series as the details write them.
#[derive(Debug)]
pub struct DetailTexts {
    pub latest: String,
    pub total: String,
    pub delta: String,
    pub age: String,
    pub min: String,
    pub max: String,
    pub avg: String,
}

/// What the details say of the settings of a series.
#[derive(Debug)]
pub struct DetailSettings {
    pub unit: String,
    pub configured: bool,
    pub view: MetricView,
    pub history_points: usize,
}

/// A text, or the word for none where it is empty.
pub open spec fn or_none(text: Seq<char>) -> Seq<char> {
    if text.len() == 0 {
        "none"@
    } else {
        text
    }
}

/// The word for where a metric is shown.
pub open spec fn view_word(view: MetricView) -> Seq<char> {
    match view {
        MetricView::Chart => "chart"@,
        MetricView::Numeric => "numeric"@,
    }
}

/// The lines of the details.
pub open spec fn detail_lines_of<V>(
    state: StateView<V>,
    settings: DetailSettings,
    texts: DetailTexts,
) -> Seq<Seq<SpanView>> {
    seq![
        seq![label("name "@), raw(state.name)],
        seq![label("labels "@), raw(or_none(state.labels))],
        seq![
            label("kind "@),
            raw(kind_word(state.kind)),
            label("  view "@),
            raw(view_word(settings.view)),
            label("  unit "@),
            raw(or_none(settings.unit@)),
            label("  configured "@),
            raw(
                if settings.configured {
                    "yes"@
                } else {
                    "auto"@
                },
            ),
        ],
        seq![
            label("latest "@),
            raw(texts.latest@),
            label("  total "@),
            raw(texts.total@),
            label("  delta "@),
            raw(texts.delta@),
            label("  last seen "@),
            raw(texts.age@),
        ],
        seq![
            label("retained "@),
            raw(
                decimal(state.samples.len()) + "/"@ + decimal(settings.history_points as nat)
                    + " samples"@,
            ),
            label("  min "@),
            raw(texts.min@),
            label("  max "@),
            raw(texts.max@),
            label("  avg "@),
            raw(texts.avg@),
        ],
        seq![
            label("tags "@),
            raw(
                if state.tags.len() == 0 {
                    "none"@
                } else {
                    tag_list(state.tags)
                },
            ),
        ],
        seq![
            key_name("Enter/Esc "@),
            raw(" close  "@),
            label("future "@),
            raw("actions can target this selected metric"@),
        ],
    ]
}

/// Whether the smallest, the largest and the mean value kept can be written like this.
pub open spec fn stats_fit<V, C, T, X, S>(
    numbers: Numbers<C, T, X, S>,
    state: StateView<V>,
    unit: Seq<char>,
    texts: DetailTexts,
) -> bool where C: Fn(Operation<V>) -> V, T: Fn(Test<V>) -> bool, X: Fn(V, usize) -> String {
    if state.samples.len() == 0 {
        texts.min@ == "n/a"@ && texts.max@ == "n/a"@ && texts.avg@ == "n/a"@
    } else {
        exists|stats: RetainedStats<V>|
            {
                &&& #[trigger] summarizes(numbers.compute, state.samples, stats)
                &&& numbers.writes_value(stats.min, unit, texts.min@)
                &&& numbers.writes_value(stats.max, unit, texts.max@)
                &&& numbers.writes_value(stats.avg, unit, texts.avg@)
            }
    }
}

/// Whether the difference between the last two values kept can be written like this.
pub open spec fn delta_fits<V, C, T, X, S>(
    numbers: Numbers<C, T, X, S>,
    state: StateView<V>,
    text: Seq<char>,
) -> bool where C: Fn(Operation<V>) -> V, T: Fn(Test<V>) -> bool, X: Fn(V, usize) -> String {
    if state.samples.len() < 2 {
        text == "n/a"@
    } else {
        exists|delta: V|
            {
                &&& #[trigger] computes(
                    numbers.compute,
                    Operation::Minus(
                        state.samples.last().value,
                        state.samples[state.samples.len() - 2].value,
                    ),
                    delta,
                )
                &&& numbers.writes(delta, text)
            }
    }
}

/// Whether the numbers of a series can be written like this, when `time` has passed since it was
/// last seen.
pub open spec fn texts_fit<V, C, T, X, S>(
    numbers: Numbers<C, T, X, S>,
    state: StateView<V>,
    unit: Seq<char>,
    time: Duration,
    texts: DetailTexts,
) -> bool where
    C: Fn(Operation<V>) -> V,
    T: Fn(Test<V>) -> bool,
    X: Fn(V, usize) -> String,
    S: Fn(Duration) -> String,
 {
    &&& numbers.writes_value(state.latest, unit, texts.latest@)
    &&& numbers.writes_value(state.total, unit, texts.total@)
    &&& delta_fits(numbers, state, texts.delta@)
    &&& numbers.writes_age(time, "s ago"@, texts.age@)
    &&& stats_fit(numbers, state, unit, texts)
}

/// Whether the details of a series can be shown like this, with the time since it was last seen,
/// whenever the clock is read.
pub open spec fn details_show<V, C, T, X, S>(
    numbers: Numbers<C, T, X, S>,
    state: StateView<V>,
    settings: DetailSettings,
    lines: Seq<Seq<SpanView>>,
) -> bool where
    C: Fn(Operation<V>) -> V,
    T: Fn(Test<V>) -> bool,
    X: Fn(V, usize) -> String,
    S: Fn(Duration) -> String,
 {
    exists|moment: Instant, texts: DetailTexts| #[trigger]
        texts_fit(
            numbers,
            state,
            settings.unit@,
            time_between(state.last_seen, moment),
            texts,
        ) && lines == detail_lines_of(state, settings, texts)
}

/// Whether these are the settings of a metric.
pub open spec fn are_settings_of(
    table: Map<Seq<char>, MetricConfig>,
    name: Seq<char>,
    history_points: usize,
    settings: DetailSettings,
) -> bool {
    &&& settings.unit@ == unit_of(table, name)
    &&& settings.configured == table.contains_key(name)
    &&& settings.view == view_of(table, name)
    &&& settings.history_points == history_points
}

/// The numbers of a series as the details write them, when `time` has passed since it was last
/// seen.
pub fn detail_texts<V: Copy, C, T, X, S>(
    metric: &MetricState<V>,
    unit: &str,
    time: Duration,
    numbers: &Numbers<C, T, X, S>,
) -> (texts: DetailTexts) where
    C: Fn(Operation<V>) -> V,
    T: Fn(Test<V>) -> bool,
    X: Fn(V, usize) -> String,
    S: Fn(Duration) -> String,

    requires
        numbers.ready::<V>(),
    ensures
        texts_fit(*numbers, metric@, unit@, time, texts),
{
    let delta: String = match retained_delta(metric, &numbers.compute) {
        Some(delta) => numbers.format_compact(delta),
        None => "n/a".to_owned(),
    };
    let (min, max, avg): (String, String, String) = match retained_stats(
        metric,
        &numbers.compute,
    ) {
        Some(stats) => (
            numbers.format_value(stats.min, unit),
            numbers.format_value(stats.max, unit),
            numbers.format_value(stats.avg, unit),
        ),
        None => ("n/a".to_owned(), "n/a".to_owned(), "n/a".to_owned()),
    };
    DetailTexts {
        latest: numbers.format_value(metric.latest, unit),
        total: numbers.format_value(metric.total, unit),
        delta,
        age: numbers.format_age::<V>(time, "s ago"),
        min,
        max,
        avg,
    }
}

/// A text, or the word for none where it is empty.
fn text_or_none(text: &str) -> (shown: String)
    ensures
        shown@ == or_none(text@),
{
    if text.is_empty() {
        "none".to_owned()
    } else {
        text.to_owned()
    }
}

/// The lines of the details.
pub fn detail_lines<V>(
    metric: &MetricState<V>,
    settings: &DetailSettings,
    texts: DetailTexts,
) -> (lines: Vec<Vec<Span>>)
    ensures
        lines_view(lines@) == detail_lines_of(metric@, *settings, texts),
{
    let tags: String = if metric.tags.len() == 0 {
        "none".to_owned()
    } else {
        format_tags_full(metric.tags.as_slice())
    };
    let mut retained: String = decimal_text(metric.samples.len() as u64);
    retained.append("/");
    retained.append(decimal_text(settings.history_points as u64).as_str());
    retained.append(" samples");
    let view: String = match settings.view {
        MetricView::Chart => "chart".to_owned(),
        MetricView::Numeric => "numeric".to_owned(),
    };
    let configured: String = if settings.configured {
        "yes".to_owned()
    } else {
        "auto".to_owned()
    };
    let ghost given = texts;
    let name_line: Vec<Span> = vec![label_span("name "), raw_span(metric.name.clone())];
    let labels_line: Vec<Span> = vec![
        label_span("labels "),
        raw_span(text_or_none(metric.labels.as_str())),
    ];
    let kind_line: Vec<Span> = vec![
        label_span("kind "),
        raw_span(metric.kind.to_string()),
        label_span("  view "),
        raw_span(view),
        label_span("  unit "),
        raw_span(text_or_none(settings.unit.as_str())),
        label_span("  configured "),
        raw_span(configured),
    ];
    let value_line: Vec<Span> = vec![
        label_span("latest "),
        raw_span(texts.latest),
        label_span("  total "),
        raw_span(texts.total),
        label_span("  delta "),
        raw_span(texts.delta),
        label_span("  last seen "),
        raw_span(texts.age),
    ];
    let retained_line: Vec<Span> = vec![
        label_span("retained "),
        raw_span(retained),
        label_span("  min "),
        raw_span(texts.min),
        label_span("  max "),
        raw_span(texts.max),
        label_span("  avg "),
        raw_span(texts.avg),
    ];
    let tags_line: Vec<Span> = vec![label_span("tags "), raw_span(tags)];
    let keys_line: Vec<Span> = vec![
        key_span("Enter/Esc "),
        raw_span(" close  ".to_owned()),
        label_span("future "),
        raw_span("actions can target this selected metric".to_owned()),
    ];
    let lines: Vec<Vec<Span>> = vec![
        name_line,
        labels_line,
        kind_line,
        value_line,
        retained_line,
        tags_line,
        keys_line,
    ];
    assert(metric@.tags.len() == metric.tags@.len());
    assert(lines_view(lines@) =~~= detail_lines_of(metric@, *settings, given));
    lines
}

impl<V: Copy> App<V> {
    /// The details of the selected series, at the bottom of the screen.
    pub fn render_details<C, T, X, S>(&self, screen: Area, numbers: &Numbers<C, T, X, S>) -> (pane:
        DetailsPane) where
        C: Fn(Operation<V>) -> V,
        T: Fn(Test<V>) -> bool,
        X: Fn(V, usize) -> String,
        S: Fn(Duration) -> String,

        requires
            screen.y + screen.height <= u16::MAX,
            numbers.ready::<V>(),
        ensures
            self.shows_details(screen, *numbers, pane),
    {
        let area: Area = bottom_third(screen);
        let metric: &MetricState<V> = match self.selected_metric() {
            Some(metric) => metric,
            None => {
                return DetailsPane::Notice {
                    area,
                    title: " Metric Details ".to_owned(),
                    text: "No metric selected".to_owned(),
                };
            },
        };
        let settings: DetailSettings = DetailSettings {
            unit: self.unit(metric.name.as_str()),
            configured: self.metric_config.contains_key(metric.name.as_str()),
            view: self.configured_view(metric.name.as_str()),
            history_points: self.config.history_points(),
        };
        let time: Duration = elapsed(metric.last_seen);
        let texts: DetailTexts = detail_texts(metric, settings.unit.as_str(), time, numbers);
        let ghost moment = choose|moment: Instant|
            time == #[trigger] time_between(metric.last_seen, moment);
        assert(texts_fit(
            *numbers,
            metric@,
            settings.unit@,
            time_between(metric@.last_seen, moment),
            texts,
        ));
        let lines: Vec<Vec<Span>> = detail_lines(metric, &settings, texts);
        assert(details_show(*numbers, metric@, settings, lines_view(lines@)));
        assert(are_settings_of(
            self.table(),
            metric@.name,
            self.config.points_kept(),
            settings,
        ));
        DetailsPane::Details {
            area,
            title: " Metric Details ".to_owned(),
            border_style: selected_style(true),
            lines,
        }
    }

    /// Whether the details can be shown like this on a screen: those of the selected series, or a
    /// notice if and only if none is selected.
    pub open spec fn shows_details<C, T, X, S>(
        &self,
        screen: Area,
        numbers: Numbers<C, T, X, S>,
        pane: DetailsPane,
    ) -> bool where
        C: Fn(Operation<V>) -> V,
        T: Fn(Test<V>) -> bool,
        X: Fn(V, usize) -> String,
        S: Fn(Duration) -> String,
     {
        let shown = pane_states(self.table(), self.listed(), self.focus);
        let row = focused_pane(self.nav()).selected;
        let rows = details_rows(screen.height as int);
        let bottom = rows_of(screen, screen.height - rows, rows);
        match pane {
            DetailsPane::Notice { area, title, text } => {
                &&& row >= shown.len()
                &&& area == bottom
                &&& title@ == " Metric Details "@
                &&& text@ == "No metric selected"@
            },
            DetailsPane::Details { area, title, border_style, lines } => {
                &&& row < shown.len()
                &&& area == bottom
                &&& title@ == " Metric Details "@
                &&& border_style == selected_look(true)
                &&& exists|settings: DetailSettings|
                    {
                        &&& #[trigger] are_settings_of(
                            self.table(),
                            shown[row].name,
                            self.config.points_kept(),
                            settings,
                        )
                        &&& details_show(numbers, shown[row], settings, lines_view(lines@))
                    }
            },
        }
    }
}

/// The row that is selected in the pane that the keys act on.
pub open spec fn selected_row<V>(app: App<V>) -> int {
    match app.focus {
        Focus::Numeric => app.numeric_selected as int,
        Focus::Charts => app.chart_selected as int,
    }
}

/// The series that is selected in the pane that the keys act on.
pub open spec fn selected_series<V>(app: App<V>) -> StateView<V> {
    pane_states(app.table(), app.listed(), app.focus)[selected_row(app)]
}

/// The unit that a metric is configured with; empty where it is not configured.
pub open spec fn configured_unit(table: Map<Seq<char>, MetricConfig>, name: Seq<char>) -> Seq<
    char,
> {
    if table.contains_key(name) {
        table[name].unit@
    } else {
        Seq::empty()
    }
}

/// Whether a text ends with a blank and a unit.
pub open spec fn ends_with_unit(text: Seq<char>, unit: Seq<char>) -> bool {
    &&& text.len() > unit.len()
    &&& text.skip(text.len() - unit.len()) == unit
    &&& text[text.len() - unit.len() - 1] == ' '
}

/// Text with a unit written behind a number ends with a blank and that unit.
proof fn lemma_unit_is_written<V, C, T, X, S>(
    numbers: Numbers<C, T, X, S>,
    value: V,
    unit: Seq<char>,
    text: Seq<char>,
) where T: Fn(Test<V>) -> bool, X: Fn(V, usize) -> String
    requires
        numbers.writes_value(value, unit, text),
        unit.len() > 0,
    ensures
        ends_with_unit(text, unit),
{
    reveal_strlit(" ");
    let number = choose|number: Seq<char>| #[trigger]
        numbers.writes(value, number) && text == number + " "@ + unit;
    assert(text == number + " "@ + unit);
    assert(text.skip(text.len() - unit.len()) =~= unit);
}

/// The details are a notice if and only if no series is selected. They stand at the bottom of the
/// screen.
pub proof fn details_are_a_notice_where_nothing_is_selected<V: Copy, C, T, X, S>(
    app: App<V>,
    screen: Area,
    numbers: Numbers<C, T, X, S>,
    pane: DetailsPane,
) where
    C: Fn(Operation<V>) -> V,
    T: Fn(Test<V>) -> bool,
    X: Fn(V, usize) -> String,
    S: Fn(Duration) -> String,

    requires
        screen.y + screen.height <= u16::MAX,
        app.shows_details(screen, numbers, pane),
    ensures
        pane is Notice <==> selected_row(app) >= pane_states(
            app.table(),
            app.listed(),
            app.focus,
        ).len(),
        ({
            let (area, title) = match pane {
                DetailsPane::Notice { area, title, text } => (area, title),
                DetailsPane::Details { area, title, border_style, lines } => (area, title),
            };
            &&& title@ == " Metric Details "@
            &&& area.x == screen.x && area.width == screen.width
            &&& area.y + area.height == screen.y + screen.height
            &&& screen.height < 8 ==> area.height == screen.height
            &&& 8 <= screen.height < 24 ==> area.height == 8
            &&& screen.height >= 24 ==> 3 * area.height <= screen.height < 3 * area.height + 3
        }),
        pane matches DetailsPane::Notice { area, title, text } ==> text@ == "No metric selected"@,
        pane matches DetailsPane::Details { area, title, border_style, lines } ==> border_style == (
        TextStyle { fg: Some(Color::Yellow), bg: Some(Color::DarkGray), bold: true, dim: false }),
{
}

/// The details of the selected series tell its name, its label, its kind, where its metric is
/// shown, its unit, whether its metric is configured, its latest value and its total, the
/// difference between its last two values, its age, how many values are kept of how many, the
/// smallest, the largest and the mean of them, and its tags.
pub proof fn details_tell_of_the_selected_series<V: Copy, C, T, X, S>(
    app: App<V>,
    screen: Area,
    numbers: Numbers<C, T, X, S>,
    pane: DetailsPane,
) where
    C: Fn(Operation<V>) -> V,
    T: Fn(Test<V>) -> bool,
    X: Fn(V, usize) -> String,
    S: Fn(Duration) -> String,

    requires
        app.shows_details(screen, numbers, pane),
    ensures
        pane matches DetailsPane::Details { area, title, border_style, lines } ==> {
            let state = selected_series(app);
            let table = app.table();
            let unit = configured_unit(table, state.name);
            let points = state.samples;
            &&& lines@.len() == 7
            &&& lines@[0]@.len() == 2 && lines@[1]@.len() == 2 && lines@[2]@.len() == 8
            &&& lines@[3]@.len() == 8 && lines@[4]@.len() == 8 && lines@[5]@.len() == 2
            &&& lines@[6]@.len() == 4
            &&& lines@[0]@[1].text@ == state.name
            &&& state.labels.len() == 0 ==> lines@[1]@[1].text@ == "none"@
            &&& state.labels.len() > 0 ==> lines@[1]@[1].text@ == state.labels
            &&& lines@[2]@[1].text@ == kind_word(state.kind)
            &&& lines@[2]@[3].text@ == if table.contains_key(state.name) && table[state.name].view
                == MetricView::Chart {
                "chart"@
            } else {
                "numeric"@
            }
            &&& unit.len() == 0 ==> lines@[2]@[5].text@ == "none"@
            &&& unit.len() > 0 ==> lines@[2]@[5].text@ == unit
            &&& table.contains_key(state.name) ==> lines@[2]@[7].text@ == "yes"@
            &&& !table.contains_key(state.name) ==> lines@[2]@[7].text@ == "auto"@
            &&& numbers.writes_value(state.latest, unit, lines@[3]@[1].text@)
            &&& numbers.writes_value(state.total, unit, lines@[3]@[3].text@)
            &&& points.len() < 2 ==> lines@[3]@[5].text@ == "n/a"@
            &&& points.len() >= 2 ==> exists|delta: V| #[trigger]
                call_ensures(
                    numbers.compute,
                    (Operation::Minus(
                        points[points.len() - 1].value,
                        points[points.len() - 2].value,
                    ),),
                    delta,
                ) && numbers.writes(delta, lines@[3]@[5].text@)
            &&& exists|moment: Instant|
                numbers.writes_age(
                    #[trigger] time_between(state.last_seen, moment),
                    "s ago"@,
                    lines@[3]@[7].text@,
                )
            &&& lines@[4]@[1].text@ == decimal(points.len()) + "/"@ + decimal(
                app.config.points_kept() as nat,
            ) + " samples"@
            &&& points.len() == 0 ==> lines@[4]@[3].text@ == "n/a"@ && lines@[4]@[5].text@
                == "n/a"@ && lines@[4]@[7].text@ == "n/a"@
            &&& points.len() > 0 ==> exists|stats: RetainedStats<V>|
                {
                    &&& #[trigger] summarizes(numbers.compute, points, stats)
                    &&& numbers.writes_value(stats.min, unit, lines@[4]@[3].text@)
                    &&& numbers.writes_value(stats.max, unit, lines@[4]@[5].text@)
                    &&& numbers.writes_value(stats.avg, unit, lines@[4]@[7].text@)
                }
            &&& state.tags.len() == 0 ==> lines@[5]@[1].text@ == "none"@
            &&& state.tags.len() > 0 ==> lines@[5]@[1].text@ == tag_list(state.tags)
            &&& lines@[6]@[0].text@ == "Enter/Esc "@ && lines@[6]@[1].text@ == " close  "@
        },
{
    if let DetailsPane::Details { area, title, border_style, lines } = pane {
        let state = selected_series(app);
        let shown = lines_view(lines@);
        let settings = choose|settings: DetailSettings|
            {
                &&& #[trigger] are_settings_of(
                    app.table(),
                    state.name,
                    app.config.points_kept(),
                    settings,
                )
                &&& details_show(numbers, state, settings, shown)
            };
        let (moment, texts) = choose|moment: Instant, texts: DetailTexts| #[trigger]
            texts_fit(
                numbers,
                state,
                settings.unit@,
                time_between(state.last_seen, moment),
                texts,
            ) && shown == detail_lines_of(state, settings, texts);
        assert(shown.len() == 7);
        lines_show_their_texts(lines@);
        assert(shown[0].len() == 2 && shown[1].len() == 2 && shown[2].len() == 8);
        assert(shown[3].len() == 8 && shown[4].len() == 8 && shown[5].len() == 2);
        assert(shown[6].len() == 4);
        assert(shown[0][1].text == lines@[0]@[1].text@);
        assert(shown[1][1].text == lines@[1]@[1].text@);
        assert(shown[2][1].text == lines@[2]@[1].text@);
        assert(shown[2][3].text == lines@[2]@[3].text@);
        assert(shown[2][5].text == lines@[2]@[5].text@);
        assert(shown[2][7].text == lines@[2]@[7].text@);
        assert(shown[3][1].text == lines@[3]@[1].text@);
        assert(shown[3][3].text == lines@[3]@[3].text@);
        assert(shown[3][5].text == lines@[3]@[5].text@);
        assert(shown[3][7].text == lines@[3]@[7].text@);
        assert(shown[4][1].text == lines@[4]@[1].text@);
        assert(shown[4][3].text == lines@[4]@[3].text@);
        assert(shown[4][5].text == lines@[4]@[5].text@);
        assert(shown[4][7].text == lines@[4]@[7].text@);
        assert(shown[5][1].text == lines@[5]@[1].text@);
        assert(shown[6][0].text == lines@[6]@[0].text@);
        assert(shown[6][1].text == lines@[6]@[1].text@);
        assert(configured_unit(app.table(), state.name) =~= settings.unit@);
        if state.samples.len() >= 2 {
            let last = state.samples[state.samples.len() - 1].value;
            let before = state.samples[state.samples.len() - 2].value;
            let delta = choose|delta: V|
                {
                    &&& #[trigger] computes(numbers.compute, Operation::Minus(last, before), delta)
                    &&& numbers.writes(delta, texts.delta@)
                };
            assert(call_ensures(numbers.compute, (Operation::Minus(last, before),), delta));
        }
        assert(numbers.writes_age(
            time_between(state.last_seen, moment),
            "s ago"@,
            lines@[3]@[7].text@,
        ));
    }
}

/// Where the metric of the selected series is configured with a unit, the details name that unit,
/// and the latest value, the total, the smallest, the largest and the mean value end with a blank
/// and that unit.
pub proof fn details_bear_the_configured_unit<V: Copy, C, T, X, S>(
    app: App<V>,
    screen: Area,
    numbers: Numbers<C, T, X, S>,
    pane: DetailsPane,
) where
    C: Fn(Operation<V>) -> V,
    T: Fn(Test<V>) -> bool,
    X: Fn(V, usize) -> String,
    S: Fn(Duration) -> String,

    requires
        app.shows_details(screen, numbers, pane),
        app.table().contains_key(selected_series(app).name),
        app.table()[selected_series(app).name].unit@.len() > 0,
    ensures
        pane matches DetailsPane::Details { area, title, border_style, lines } ==> {
            let unit = app.table()[selected_series(app).name].unit@;
            &&& lines@[2]@[4].text@ == "  unit "@
            &&& lines@[2]@[5].text@ == unit
            &&& ends_with_unit(lines@[3]@[1].text@, unit)
            &&& ends_with_unit(lines@[3]@[3].text@, unit)
            &&& selected_series(app).samples.len() > 0 ==> {
                &&& ends_with_unit(lines@[4]@[3].text@, unit)
                &&& ends_with_unit(lines@[4]@[5].text@, unit)
                &&& ends_with_unit(lines@[4]@[7].text@, unit)
            }
        },
{
    if let DetailsPane::Details { area, title, border_style, lines } = pane {
        let state = selected_series(app);
        let unit = app.table()[state.name].unit@;
        details_tell_of_the_selected_series(app, screen, numbers, pane);
        details_have_their_labels(app, screen, numbers, pane);
        assert(configured_unit(app.table(), state.name) == unit);
        lemma_unit_is_written(numbers, state.latest, unit, lines@[3]@[1].text@);
        lemma_unit_is_written(numbers, state.total, unit, lines@[3]@[3].text@);
        if state.samples.len() > 0 {
            let stats = choose|stats: RetainedStats<V>|
                {
                    &&& #[trigger] summarizes(numbers.compute, state.samples, stats)
                    &&& numbers.writes_value(stats.min, unit, lines@[4]@[3].text@)
                    &&& numbers.writes_value(stats.max, unit, lines@[4]@[5].text@)
                    &&& numbers.writes_value(stats.avg, unit, lines@[4]@[7].text@)
                };
            lemma_unit_is_written(numbers, stats.min, unit, lines@[4]@[3].text@);
            lemma_unit_is_written(numbers, stats.max, unit, lines@[4]@[5].text@);
            lemma_unit_is_written(numbers, stats.avg, unit, lines@[4]@[7].text@);
        }
    }
}

/// What the details tell is plain, and before each text stands in yellow and bold what it is.
pub proof fn details_have_their_labels<V: Copy, C, T, X, S>(
    app: App<V>,
    screen: Area,
    numbers: Numbers<C, T, X, S>,
    pane: DetailsPane,
) where
    C: Fn(Operation<V>) -> V,
    T: Fn(Test<V>) -> bool,
    X: Fn(V, usize) -> String,
    S: Fn(Duration) -> String,

    requires
        app.shows_details(screen, numbers, pane),
    ensures
        pane matches DetailsPane::Details { area, title, border_style, lines } ==> {
            &&& lines@.len() == 7
            &&& forall|i: int, j: int|
                0 <= i < 6 && 0 <= j < lines@[i]@.len() ==> (#[trigger] lines@[i]@[j]).style == if j
                    % 2 == 0 {
                    TextStyle { fg: Some(Color::Yellow), bg: None, bold: true, dim: false }
                } else {
                    TextStyle { fg: None, bg: None, bold: false, dim: false }
                }
            &&& lines@[0]@[0].text@ == "name "@ && lines@[1]@[0].text@ == "labels "@
            &&& lines@[2]@[0].text@ == "kind "@ && lines@[2]@[2].text@ == "  view "@
            &&& lines@[2]@[4].text@ == "  unit "@ && lines@[2]@[6].text@ == "  configured "@
            &&& lines@[3]@[0].text@ == "latest "@ && lines@[3]@[2].text@ == "  total "@
            &&& lines@[3]@[4].text@ == "  delta "@ && lines@[3]@[6].text@ == "  last seen "@
            &&& lines@[4]@[0].text@ == "retained "@ && lines@[4]@[2].text@ == "  min "@
            &&& lines@[4]@[4].text@ == "  max "@ && lines@[4]@[6].text@ == "  avg "@
            &&& lines@[5]@[0].text@ == "tags "@
            &&& lines@[6]@[2].text@ == "future "@
            &&& lines@[6]@[3].text@ == "actions can target this selected metric"@
        },
{
    if let DetailsPane::Details { area, title, border_style, lines } = pane {
        let state = selected_series(app);
        let shown = lines_view(lines@);
        let settings = choose|settings: DetailSettings|
            {
                &&& #[trigger] are_settings_of(
                    app.table(),
                    state.name,
                    app.config.points_kept(),
                    settings,
                )
                &&& details_show(numbers, state, settings, shown)
            };
        let (moment, texts) = choose|moment: Instant, texts: DetailTexts| #[trigger]
            texts_fit(
                numbers,
                state,
                settings.unit@,
                time_between(state.last_seen, moment),
                texts,
            ) && shown == detail_lines_of(state, settings, texts);
        lines_show_their_texts(lines@);
        assert(shown.len() == 7);
        assert(shown[0].len() == 2 && shown[1].len() == 2 && shown[2].len() == 8);
        assert(shown[3].len() == 8 && shown[4].len() == 8 && shown[5].len() == 2);
        assert(shown[6].len() == 4);
        assert forall|i: int, j: int| 0 <= i < 6 && 0 <= j < lines@[i]@.len() implies (
        #[trigger] lines@[i]@[j]).style == if j % 2 == 0 {
            label_look()
        } else {
            plain_look()
        } by {
            assert(shown[i][j].style == lines@[i]@[j].style);
        }
        assert(shown[0][0].text == lines@[0]@[0].text@);
        assert(shown[1][0].text == lines@[1]@[0].text@);
        assert(shown[2][0].text == lines@[2]@[0].text@);
        assert(shown[2][2].text == lines@[2]@[2].text@);
        assert(shown[2][4].text == lines@[2]@[4].text@);
        assert(shown[2][6].text == lines@[2]@[6].text@);
        assert(shown[3][0].text == lines@[3]@[0].text@);
        assert(shown[3][2].text == lines@[3]@[2].text@);
        assert(shown[3][4].text == lines@[3]@[4].text@);
        assert(shown[3][6].text == lines@[3]@[6].text@);
        assert(shown[4][0].text == lines@[4]@[0].text@);
        assert(shown[4][2].text == lines@[4]@[2].text@);
        assert(shown[4][4].text == lines@[4]@[4].text@);
        assert(shown[4][6].text == lines@[4]@[6].text@);
        assert(shown[5][0].text == lines@[5]@[0].text@);
        assert(shown[6][2].text == lines@[6]@[2].text@);
        assert(shown[6][3].text == lines@[6]@[3].text@);
    }
}

/// The lines of the details tell what they are given, in its place, whatever it is.
pub proof fn lines_tell_what_they_are_given<V>(
    state: StateView<V>,
    settings: DetailSettings,
    texts: DetailTexts,
)
    ensures
        ({
            let lines = detail_lines_of(state, settings, texts);
            &&& lines.len() == 7
            &&& lines[0][1].text == state.name
            &&& lines[1][1].text == if state.labels.len() == 0 {
                "none"@
            } else {
                state.labels
            }
            &&& lines[2][1].text == kind_word(state.kind)
            &&& settings.view == MetricView::Chart ==> lines[2][3].text == "chart"@
            &&& settings.view == MetricView::Numeric ==> lines[2][3].text == "numeric"@
            &&& lines[2][5].text == if settings.unit@.len() == 0 {
                "none"@
            } else {
                settings.unit@
            }
            &&& settings.configured ==> lines[2][7].text == "yes"@
            &&& !settings.configured ==> lines[2][7].text == "auto"@
            &&& lines[3][1].text == texts.latest@ && lines[3][3].text == texts.total@
            &&& lines[3][5].text == texts.delta@ && lines[3][7].text == texts.age@
            &&& lines[4][1].text == decimal(state.samples.len()) + "/"@ + decimal(
                settings.history_points as nat,
            ) + " samples"@
            &&& lines[4][3].text == texts.min@ && lines[4][5].text == texts.max@
            &&& lines[4][7].text == texts.avg@
            &&& lines[5][1].text == if state.tags.len() == 0 {
                "none"@
            } else {
                tag_list(state.tags)
            }
        }),
{
}

/// The numbers of a series are written with the unit that is given, whatever it is, the difference
/// and the age without it.
pub proof fn numbers_are_written_with_the_given_unit<V, C, T, X, S>(
    numbers: Numbers<C, T, X, S>,
    state: StateView<V>,
    unit: Seq<char>,
    time: Duration,
    texts: DetailTexts,
) where
    C: Fn(Operation<V>) -> V,
    T: Fn(Test<V>) -> bool,
    X: Fn(V, usize) -> String,
    S: Fn(Duration) -> String,

    requires
        texts_fit(numbers, state, unit, time, texts),
    ensures
        numbers.writes_value(state.latest, unit, texts.latest@),
        numbers.writes_value(state.total, unit, texts.total@),
        exists|seconds: String| #[trigger]
            call_ensures(numbers.seconds, (time,), seconds) && texts.age@ == seconds@ + seq![
                's',
                ' ',
                'a',
                'g',
                'o',
            ],
        state.samples.len() == 0 ==> texts.min@ == "n/a"@ && texts.max@ == "n/a"@ && texts.avg@
            == "n/a"@,
        state.samples.len() > 0 ==> exists|stats: RetainedStats<V>|
            {
                &&& #[trigger] summarizes(numbers.compute, state.samples, stats)
                &&& numbers.writes_value(stats.min, unit, texts.min@)
                &&& numbers.writes_value(stats.max, unit, texts.max@)
                &&& numbers.writes_value(stats.avg, unit, texts.avg@)
            },
        state.samples.len() < 2 ==> texts.delta@ == "n/a"@,
{
    reveal_strlit("s ago");
    assert("s ago"@ =~= seq!['s', ' ', 'a', 'g', 'o']);
    let seconds = choose|seconds: String| #[trigger]
        call_ensures(numbers.seconds, (time,), seconds) && texts.age@ == seconds@ + "s ago"@;
    assert(call_ensures(numbers.seconds, (time,), seconds));
}

} // verus!
