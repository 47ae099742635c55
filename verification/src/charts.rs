//! The pane that shows charts.
use std::time::Duration;
use vstd::arithmetic::div_mod::{lemma_basic_div, lemma_div_non_zero};
use vstd::prelude::*;

use crate::app::{
    pane_states, panes_show_what_is_counted, refs_view, unit_of, App, Focus,
};
use crate::config::MetricConfig;
use crate::dogstatsd::kind_word;
use crate::geometry::{chart_area_at, chart_place, Area};
use crate::metrics::{
    fold_points, folding_finds_the_greatest, folding_finds_the_least, folds_to, picks_the_greater,
    picks_the_lesser, Fold, MetricState, Point, StateView,
};
use crate::navigation::{nav_synced, NavView};
use crate::numbers::{can_compute, computes, Numbers, Operation, Test};
use crate::numeric::{
    chart_title_of, end_shown, first_shown, metric_chart_title, pane_title_of,
    selected_series_is_shown,
};
use crate::screen::{
    pane_heading, pane_title, plain_look, plain_style, selected_look, selected_style, Color, Span,
    TextStyle,
};
use crate::viewport::{in_view, PaneView};

verus! {

/// A chart of one series: the line through its points, and the axes with their bounds and labels.
#[derive(Debug)]
pub struct ChartPane<V> {
    pub area: Area,
    pub title: String,
    pub border_style: TextStyle,
    pub name: String,
    pub line_color: Color,
    pub data: Vec<(V, V)>,
    pub x_bounds: (V, V),
    pub x_labels: Vec<String>,
    pub y_title: Span,
    pub y_bounds: (V, V),
    pub y_labels: Vec<String>,
}

/// What is known of a chart before its points are looked at.
#[derive(Debug)]
pub struct ChartFrame {
    pub area: Area,
    pub unit: String,
    pub history_points: usize,
    pub pane_title: Option<String>,
    pub selected: bool,
    pub focused: bool,
}

/// What is known of a chart before its points are looked at.
pub struct FrameView {
    pub area: Area,
    pub unit: Seq<char>,
    pub history_points: int,
    pub pane_title: Option<Seq<char>>,
    pub selected: bool,
    pub focused: bool,
}

impl View for ChartFrame {
    type V = FrameView;

    open spec fn view(&self) -> FrameView {
        FrameView {
            area: self.area,
            unit: self.unit@,
            history_points: self.history_points as int,
            pane_title: match self.pane_title {
                Some(title) => Some(title@),
                None => None,
            },
            selected: self.selected,
            focused: self.focused,
        }
    }
}

/// The pane that shows charts: a notice where there are none to show. A series without points has
/// its place but no chart.
#[derive(Debug)]
pub enum ChartsPane<V> {
    Notice { title: String, text: String },
    Charts(Vec<Option<ChartPane<V>>>),
}

/// The title of the axis of values: the kind of the metric, with its unit where it has one.
pub open spec fn axis_title(kind: Seq<char>, unit: Seq<char>) -> Seq<char> {
    if unit.len() == 0 {
        kind
    } else {
        kind + " ("@ + unit + ")"@
    }
}

/// The title of a chart: the first chart of a pane also bears the title of the pane.
pub open spec fn frame_title(pane_title: Option<Seq<char>>, name: Seq<char>) -> Seq<char> {
    match pane_title {
        Some(title) => title + "  "@ + name,
        None => " "@ + name + " "@,
    }
}

/// Whether `low` and `high` can be the bounds of the axis of values: the smallest and the largest
/// value, with a margin below and above.
pub open spec fn bounds_of<V, C: Fn(Operation<V>) -> V>(
    compute: C,
    points: Seq<Point<V>>,
    low: V,
    high: V,
) -> bool {
    exists|least: V, most: V, margin: V|
        {
            &&& #[trigger] extremes_of(compute, points, least, most)
            &&& #[trigger] margin_of(compute, least, most, margin)
            &&& computes(compute, Operation::Minus(least, margin), low)
            &&& computes(compute, Operation::Plus(most, margin), high)
        }
}

/// Whether `margin` can be the margin of values between `least` and `most`: a tenth of the distance
/// between them, but at least one.
pub open spec fn margin_of<V, C: Fn(Operation<V>) -> V>(
    compute: C,
    least: V,
    most: V,
    margin: V,
) -> bool {
    exists|spread: V, tenth: V, one: V|
        {
            &&& computes(compute, Operation::Minus(most, least), spread)
            &&& #[trigger] computes(compute, Operation::Tenth(spread), tenth)
            &&& computes(compute, Operation::Count(1), one)
            &&& #[trigger] computes(compute, Operation::Greater(tenth, one), margin)
        }
}

/// Whether `least` and `most` can be the smallest and the largest value.
pub open spec fn extremes_of<V, C: Fn(Operation<V>) -> V>(
    compute: C,
    points: Seq<Point<V>>,
    least: V,
    most: V,
) -> bool {
    exists|highest: V, lowest: V|
        {
            &&& computes(compute, Operation::Highest, highest)
            &&& #[trigger] folds_to(compute, Fold::Lesser, highest, points, least)
            &&& computes(compute, Operation::Lowest, lowest)
            &&& #[trigger] folds_to(compute, Fold::Greater, lowest, points, most)
        }
}

/// Whether `middle` can be the number in the middle between two others.
pub open spec fn middle_of<V, C: Fn(Operation<V>) -> V>(
    compute: C,
    low: V,
    high: V,
    middle: V,
) -> bool {
    exists|sum: V| #[trigger]
        computes(compute, Operation::Plus(low, high), sum) && computes(
            compute,
            Operation::Mean(sum, 2),
            middle,
        )
}

/// Whether `middle` can be the middle of the column with this index, where each column is one wide:
/// the index and a half.
pub open spec fn column_middle_of<V, C: Fn(Operation<V>) -> V>(
    compute: C,
    index: usize,
    middle: V,
) -> bool {
    exists|left: V, half: V|
        {
            &&& computes(compute, Operation::Count(index), left)
            &&& half_of_one(compute, half)
            &&& #[trigger] computes(compute, Operation::Plus(left, half), middle)
        }
}

/// Whether `half` can be one divided by two.
pub open spec fn half_of_one<V, C: Fn(Operation<V>) -> V>(compute: C, half: V) -> bool {
    exists|one: V|
        {
            &&& computes(compute, Operation::Count(1), one)
            &&& #[trigger] computes(compute, Operation::Mean(one, 2), half)
        }
}

/// Whether a chart can show the points of a series, each in the middle of its column.
pub open spec fn data_shows<V, C: Fn(Operation<V>) -> V>(
    compute: C,
    points: Seq<Point<V>>,
    data: Seq<(V, V)>,
) -> bool {
    &&& data.len() == points.len()
    &&& forall|i: int|
        0 <= i < data.len() ==> column_middle_of(compute, i as usize, (#[trigger] data[i]).0)
            && data[i].1 == points[i].value
}

/// The number of columns of a chart: at least two.
pub open spec fn chart_columns(history_points: int) -> int {
    if history_points < 2 {
        2
    } else {
        history_points
    }
}

/// Whether the axes of a chart can have these bounds and labels.
pub open spec fn axes_show<V, C, T, X, S>(
    numbers: Numbers<C, T, X, S>,
    points: Seq<Point<V>>,
    columns: int,
    chart: ChartPane<V>,
) -> bool where C: Fn(Operation<V>) -> V, T: Fn(Test<V>) -> bool, X: Fn(V, usize) -> String {
    &&& computes(numbers.compute, Operation::Count(0), chart.x_bounds.0)
    &&& computes(numbers.compute, Operation::Count(columns as usize), chart.x_bounds.1)
    &&& chart.x_labels@.len() == 2
    &&& chart.x_labels@[0]@ == "0"@
    &&& numbers.writes(chart.x_bounds.1, chart.x_labels@[1]@)
    &&& bounds_of(numbers.compute, points, chart.y_bounds.0, chart.y_bounds.1)
    &&& chart.y_labels@.len() == 3
    &&& numbers.writes(chart.y_bounds.0, chart.y_labels@[0]@)
    &&& exists|middle: V| #[trigger]
        middle_of(numbers.compute, chart.y_bounds.0, chart.y_bounds.1, middle) && numbers.writes(
            middle,
            chart.y_labels@[1]@,
        )
    &&& numbers.writes(chart.y_bounds.1, chart.y_labels@[2]@)
}

/// Whether a chart can show a series.
pub open spec fn chart_shows<V, C, T, X, S>(
    numbers: Numbers<C, T, X, S>,
    state: StateView<V>,
    frame: FrameView,
    chart: ChartPane<V>,
) -> bool where C: Fn(Operation<V>) -> V, T: Fn(Test<V>) -> bool, X: Fn(V, usize) -> String {
    &&& chart.area == frame.area
    &&& chart.title@ == frame_title(frame.pane_title, chart_title_of(state))
    &&& chart.border_style == if frame.selected {
        selected_look(frame.focused)
    } else {
        plain_look()
    }
    &&& chart.name@ == chart_title_of(state)
    &&& chart.line_color == if frame.selected {
        Color::Yellow
    } else {
        Color::Cyan
    }
    &&& data_shows(numbers.compute, state.samples, chart.data@)
    &&& chart.y_title@.text == axis_title(kind_word(state.kind), frame.unit)
    &&& chart.y_title@.style == (TextStyle { fg: Some(Color::Yellow), ..plain_look() })
    &&& axes_show(numbers, state.samples, chart_columns(frame.history_points), chart)
}

/// The points of a series, each in the middle of its column.
fn chart_data<V: Copy, C: Fn(Operation<V>) -> V>(metric: &MetricState<V>, compute: &C) -> (data: Vec<
    (V, V),
>)
    requires
        can_compute(*compute),
    ensures
        data_shows(*compute, metric@.samples, data@),
{
    let one: V = compute(Operation::Count(1));
    let half: V = compute(Operation::Mean(one, 2));
    assert(computes(*compute, Operation::Mean(one, 2), half));
    let mut data: Vec<(V, V)> = Vec::new();
    let mut i: usize = 0;
    while i < metric.samples.len()
        invariant
            i <= metric.samples@.len(),
            can_compute(*compute),
            half_of_one(*compute, half),
            data_shows(*compute, metric.samples@.take(i as int), data@),
        decreases metric.samples@.len() - i,
    {
        let left: V = compute(Operation::Count(i));
        let middle: V = compute(Operation::Plus(left, half));
        assert(computes(*compute, Operation::Plus(left, half), middle));
        data.push((middle, metric.samples[i].value));
        i += 1;
    }
    assert(metric.samples@.take(i as int) == metric.samples@);
    data
}

/// The chart of a series; none where it has no points.
pub fn render_chart<V: Copy, C, T, X, S>(
    metric: &MetricState<V>,
    frame: ChartFrame,
    numbers: &Numbers<C, T, X, S>,
) -> (chart: Option<ChartPane<V>>) where
    C: Fn(Operation<V>) -> V,
    T: Fn(Test<V>) -> bool,
    X: Fn(V, usize) -> String,
    S: Fn(Duration) -> String,

    requires
        numbers.ready::<V>(),
    ensures
        match chart {
            Some(chart) => metric@.samples.len() > 0 && chart_shows(
                *numbers,
                metric@,
                frame@,
                chart,
            ),
            None => metric@.samples.len() == 0,
        },
{
    if metric.samples.len() == 0 {
        return None;
    }
    let columns: usize = frame.history_points.max(2);
    let compute: &C = &numbers.compute;
    let data: Vec<(V, V)> = chart_data(metric, compute);
    let ghost points = metric@.samples;
    let highest: V = compute(Operation::Highest);
    let least: V = fold_points(compute, Fold::Lesser, highest, &metric.samples, 0);
    let lowest: V = compute(Operation::Lowest);
    let most: V = fold_points(compute, Fold::Greater, lowest, &metric.samples, 0);
    assert(points.skip(0) == points);
    assert(extremes_of(*compute, points, least, most));
    let spread: V = compute(Operation::Minus(most, least));
    let tenth: V = compute(Operation::Tenth(spread));
    let one: V = compute(Operation::Count(1));
    let margin: V = compute(Operation::Greater(tenth, one));
    assert(computes(*compute, Operation::Tenth(spread), tenth));
    assert(computes(*compute, Operation::Greater(tenth, one), margin));
    let low: V = compute(Operation::Minus(least, margin));
    let high: V = compute(Operation::Plus(most, margin));
    assert(margin_of(*compute, least, most, margin));
    assert(bounds_of(*compute, points, low, high));
    let sum: V = compute(Operation::Plus(low, high));
    let middle: V = compute(Operation::Mean(sum, 2));
    assert(computes(*compute, Operation::Plus(low, high), sum));
    assert(middle_of(*compute, low, high, middle));
    let left: V = compute(Operation::Count(0));
    let right: V = compute(Operation::Count(columns));
    let mut y_title: String = metric.kind.to_string();
    if !frame.unit.as_str().is_empty() {
        y_title.append(" (");
        y_title.append(frame.unit.as_str());
        y_title.append(")");
    }
    let name: String = metric_chart_title(metric);
    let title: String = match &frame.pane_title {
        Some(pane_title) => {
            let mut title: String = pane_title.clone();
            title.append("  ");
            title.append(name.as_str());
            title
        },
        None => {
            let mut title: String = " ".to_owned();
            title.append(name.as_str());
            title.append(" ");
            title
        },
    };
    let x_labels: Vec<String> = vec!["0".to_owned(), numbers.format_compact(right)];
    let y_labels: Vec<String> = vec![
        numbers.format_compact(low),
        numbers.format_compact(middle),
        numbers.format_compact(high),
    ];
    Some(
        ChartPane {
            area: frame.area,
            title,
            border_style: if frame.selected {
                selected_style(frame.focused)
            } else {
                plain_style()
            },
            name,
            line_color: if frame.selected {
                Color::Yellow
            } else {
                Color::Cyan
            },
            data,
            x_bounds: (left, right),
            x_labels,
            y_title: Span {
                text: y_title,
                style: TextStyle { fg: Some(Color::Yellow), ..plain_style() },
            },
            y_bounds: (low, high),
            y_labels,
        },
    )
}

/// What is known of the chart at `index` of a pane before its points are looked at.
pub open spec fn frame_of(
    table: Map<Seq<char>, MetricConfig>,
    name: Seq<char>,
    history_points: int,
    place: PaneView,
    count: int,
    focused: bool,
    area: Area,
    index: int,
) -> FrameView {
    FrameView {
        area,
        unit: unit_of(table, name),
        history_points,
        pane_title: if index == 0 {
            Some(pane_title_of("Charts"@, focused, place, count))
        } else {
            None
        },
        selected: first_shown(place, count) + index == place.selected,
        focused,
    }
}

/// Whether a pane of charts can show a list of series, in charts of so many rows.
pub open spec fn charts_show<V, C, T, X, S>(
    numbers: Numbers<C, T, X, S>,
    table: Map<Seq<char>, MetricConfig>,
    history_points: int,
    shown: Seq<StateView<V>>,
    place: PaneView,
    focused: bool,
    area: Area,
    chart_height: int,
    pane: ChartsPane<V>,
) -> bool where C: Fn(Operation<V>) -> V, T: Fn(Test<V>) -> bool, X: Fn(V, usize) -> String {
    let count = shown.len() as int;
    let start = first_shown(place, count);
    match pane {
        ChartsPane::Notice { title, text } => {
            &&& count == 0
            &&& title@ == " Charts "@
            &&& text@ == "No chart metrics configured yet."@
        },
        ChartsPane::Charts(charts) => {
            &&& count > 0
            &&& charts@.len() == if area.height == 0 {
                0
            } else {
                end_shown(place, count) - start
            }
            &&& forall|i: int|
                0 <= i < charts@.len() ==> {
                    let state = shown[start + i];
                    match #[trigger] charts@[i] {
                        Some(chart) => {
                            &&& state.samples.len() > 0
                            &&& chart_place(area, i, chart_height) == Some(chart.area)
                            &&& chart_shows(
                                numbers,
                                state,
                                frame_of(
                                    table,
                                    state.name,
                                    history_points,
                                    place,
                                    count,
                                    focused,
                                    chart.area,
                                    i,
                                ),
                                chart,
                            )
                        },
                        None => state.samples.len() == 0,
                    }
                }
        },
    }
}

/// The charts for which a pane of so many rows has room: at least one.
pub open spec fn chart_rows(height: int, chart_height: int) -> int {
    if height < chart_height {
        1
    } else {
        height / chart_height
    }
}

/// The second pane with room for so many charts.
pub open spec fn with_chart_page(nav: NavView, page: int) -> NavView {
    NavView { charts: PaneView { page, ..nav.charts }, ..nav }
}

/// A chart for which a pane has room begins within it, if the pane has any rows.
proof fn lemma_chart_has_place(area: Area, index: int, chart_height: int)
    requires
        area.height > 0,
        chart_height > 0,
        0 <= index < chart_rows(area.height as int, chart_height),
    ensures
        chart_place(area, index, chart_height) is Some,
{
    let height = area.height as int;
    if height >= chart_height {
        assert(index * chart_height < height && index <= height) by (nonlinear_arith)
            requires
                0 <= index < height / chart_height,
                chart_height > 0,
                height > 0,
        ;
    } else {
        assert(index * chart_height == 0) by (nonlinear_arith)
            requires
                index == 0,
        ;
    }
}

impl<V: Copy> App<V> {
    /// The charts in a pane. The pane is first moved so that it shows the selected series.
    pub fn render_charts<C, T, X, S>(&mut self, area: Area, numbers: &Numbers<C, T, X, S>) -> (pane:
        ChartsPane<V>) where
        C: Fn(Operation<V>) -> V,
        T: Fn(Test<V>) -> bool,
        X: Fn(V, usize) -> String,
        S: Fn(Duration) -> String,

        requires
            old(self).wf(),
            area.y + area.height <= u16::MAX,
            numbers.ready::<V>(),
        ensures
            final(self).wf(),
            final(self).same_data(old(self)),
            final(self).nav() == nav_synced(
                with_chart_page(
                    old(self).nav(),
                    chart_rows(area.height as int, old(self).chart_height as int),
                ),
                old(self).counts(),
            ),
            charts_show(
                *numbers,
                old(self).table(),
                old(self).config.points_kept() as int,
                pane_states(old(self).table(), old(self).listed(), Focus::Charts),
                final(self).nav().charts,
                old(self).focus == Focus::Charts,
                area,
                old(self).chart_height as int,
                pane,
            ),
    {
        let visible: usize = ((area.height / self.chart_height) as usize).max(1);
        proof {
            if area.height < self.chart_height {
                lemma_basic_div(area.height as int, self.chart_height as int);
            } else {
                lemma_div_non_zero(area.height as int, self.chart_height as int);
            }
        }
        self.chart_page = visible;
        self.sync_viewports();
        let metrics: Vec<&MetricState<V>> = self.pane_metrics(Focus::Charts);
        let count: usize = metrics.len();
        let ghost shown = pane_states(self.table(), self.listed(), Focus::Charts);
        proof {
            panes_show_what_is_counted(self.table(), self.listed());
            assert(refs_view(metrics@).len() == count);
        }
        if count == 0 {
            return ChartsPane::Notice {
                title: " Charts ".to_owned(),
                text: "No chart metrics configured yet.".to_owned(),
            };
        }
        let start: usize = self.chart_scroll.min(count.saturating_sub(1));
        let end: usize = start.saturating_add(visible).min(count);
        let focused: bool = self.focus == Focus::Charts;
        let history_points: usize = self.config.history_points();
        let ghost place = self.nav().charts;
        let mut charts: Vec<Option<ChartPane<V>>> = Vec::new();
        let mut index: usize = 0;
        while index < end - start
            invariant_except_break
                charts@.len() == index,
                area.height > 0 || index == 0,
            invariant
                self.wf(),
                area.y + area.height <= u16::MAX,
                numbers.ready::<V>(),
                index <= end - start,
                start <= end <= count,
                start < count,
                self.chart_selected < count,
                count == metrics@.len(),
                shown == refs_view(metrics@),
                visible == chart_rows(area.height as int, self.chart_height as int),
                end - start <= visible,
                place == self.nav().charts,
                start == first_shown(place, count as int),
                end == end_shown(place, count as int),
                focused == (self.focus == Focus::Charts),
                history_points == self.config.points_kept(),
                forall|i: int|
                    0 <= i < charts@.len() ==> {
                        let state = shown[start + i];
                        match #[trigger] charts@[i] {
                            Some(chart) => {
                                &&& state.samples.len() > 0
                                &&& chart_place(area, i, self.chart_height as int) == Some(
                                    chart.area,
                                )
                                &&& chart_shows(
                                    *numbers,
                                    state,
                                    frame_of(
                                        self.table(),
                                        state.name,
                                        history_points as int,
                                        place,
                                        count as int,
                                        focused,
                                        chart.area,
                                        i,
                                    ),
                                    chart,
                                )
                            },
                            None => state.samples.len() == 0,
                        }
                    },
            ensures
                charts@.len() == if area.height == 0 {
                    0
                } else {
                    end - start
                },
            decreases end - start - index,
        {
            proof {
                if area.height > 0 {
                    lemma_chart_has_place(area, index as int, self.chart_height as int);
                } else {
                    assert(index * self.chart_height == 0);
                }
            }
            let place_here: Option<Area> = chart_area_at(area, index, self.chart_height);
            let chart_area: Area = match place_here {
                Some(chart_area) => chart_area,
                None => {
                    break;
                },
            };
            let metric: &MetricState<V> = metrics[start + index];
            assert(shown[start + index] == metric@);
            let title: Option<String> = if index == 0 {
                Some(pane_title("Charts", focused, start, end, count, self.chart_selected))
            } else {
                None
            };
            let frame: ChartFrame = ChartFrame {
                area: chart_area,
                unit: self.unit(metric.name.as_str()),
                history_points,
                pane_title: title,
                selected: start + index == self.chart_selected,
                focused,
            };
            assert(frame@ == frame_of(
                self.table(),
                metric@.name,
                history_points as int,
                place,
                count as int,
                focused,
                chart_area,
                index as int,
            ));
            let chart: Option<ChartPane<V>> = render_chart(metric, frame, numbers);
            charts.push(chart);
            index += 1;
        }
        ChartsPane::Charts(charts)
    }
}

/// Where there are charts to show and the pane has any rows, the place of the selected series is in
/// the pane, and a chart stands out, by its frame and by its line, if and only if it is that of the
/// selected series.
pub proof fn only_the_selected_chart_stands_out<V, C, T, X, S>(
    numbers: Numbers<C, T, X, S>,
    table: Map<Seq<char>, MetricConfig>,
    history_points: int,
    shown: Seq<StateView<V>>,
    place: PaneView,
    focused: bool,
    area: Area,
    chart_height: int,
    pane: ChartsPane<V>,
    index: int,
) where C: Fn(Operation<V>) -> V, T: Fn(Test<V>) -> bool, X: Fn(V, usize) -> String
    requires
        shown.len() > 0,
        in_view(place, shown.len() as int),
        charts_show(
            numbers,
            table,
            history_points,
            shown,
            place,
            focused,
            area,
            chart_height,
            pane,
        ),
    ensures
        pane matches ChartsPane::Charts(charts) && {
            let row = place.selected - first_shown(place, shown.len() as int);
            &&& area.height > 0 ==> 0 <= row < charts@.len()
            &&& 0 <= index < charts@.len() ==> match charts@[index] {
                Some(chart) => {
                    &&& chart.border_style == selected_look(focused) <==> index == row
                    &&& chart.line_color == Color::Yellow <==> index == row
                },
                None => shown[first_shown(place, shown.len() as int) + index].samples.len() == 0,
            }
        },
{
    selected_series_is_shown(place, shown.len() as int);
}

/// The axis of values bears the kind of the metric, and behind it in brackets the unit where there
/// is one. A chart bears its name between blanks, and the first of a pane behind the title of the
/// pane.
pub proof fn charts_bear_their_titles(
    kind: Seq<char>,
    unit: Seq<char>,
    title: Seq<char>,
    name: Seq<char>,
)
    ensures
        unit.len() == 0 ==> axis_title(kind, unit) == kind,
        unit.len() > 0 ==> axis_title(kind, unit) == kind + seq![' ', '('] + unit + seq![')'],
        frame_title(None, name) == seq![' '] + name + seq![' '],
        frame_title(Some(title), name) == title + seq![' ', ' '] + name,
{
    reveal_strlit(" (");
    reveal_strlit(")");
    reveal_strlit(" ");
    reveal_strlit("  ");
    assert(" ("@ =~= seq![' ', '(']);
    assert(")"@ =~= seq![')']);
    assert(" "@ =~= seq![' ']);
    assert("  "@ =~= seq![' ', ' ']);
}

/// The margin of a chart is a tenth of the distance between the largest and the smallest value, or
/// one, whichever is greater; the bounds lie that far below the one and above the other.
pub proof fn bounds_lie_a_margin_outside<V, C: Fn(Operation<V>) -> V>(
    compute: C,
    points: Seq<Point<V>>,
    low: V,
    high: V,
)
    requires
        bounds_of(compute, points, low, high),
    ensures
        exists|highest: V, lowest: V, least: V, most: V, spread: V, tenth: V, one: V, margin: V|
            {
                &&& call_ensures(compute, (Operation::Highest,), highest)
                &&& call_ensures(compute, (Operation::Lowest,), lowest)
                &&& #[trigger] folds_to(compute, Fold::Lesser, highest, points, least)
                &&& #[trigger] folds_to(compute, Fold::Greater, lowest, points, most)
                &&& call_ensures(compute, (Operation::Minus(most, least),), spread)
                &&& #[trigger] call_ensures(compute, (Operation::Tenth(spread),), tenth)
                &&& call_ensures(compute, (Operation::Count(1),), one)
                &&& #[trigger] call_ensures(compute, (Operation::Greater(tenth, one),), margin)
                &&& call_ensures(compute, (Operation::Minus(least, margin),), low)
                &&& call_ensures(compute, (Operation::Plus(most, margin),), high)
            },
{
    let (least, most, margin) = choose|least: V, most: V, margin: V|
        {
            &&& #[trigger] extremes_of(compute, points, least, most)
            &&& #[trigger] margin_of(compute, least, most, margin)
            &&& computes(compute, Operation::Minus(least, margin), low)
            &&& computes(compute, Operation::Plus(most, margin), high)
        };
    let (highest, lowest) = choose|highest: V, lowest: V|
        {
            &&& computes(compute, Operation::Highest, highest)
            &&& #[trigger] folds_to(compute, Fold::Lesser, highest, points, least)
            &&& computes(compute, Operation::Lowest, lowest)
            &&& #[trigger] folds_to(compute, Fold::Greater, lowest, points, most)
        };
    let (spread, tenth, one) = choose|spread: V, tenth: V, one: V|
        {
            &&& computes(compute, Operation::Minus(most, least), spread)
            &&& #[trigger] computes(compute, Operation::Tenth(spread), tenth)
            &&& computes(compute, Operation::Count(1), one)
            &&& #[trigger] computes(compute, Operation::Greater(tenth, one), margin)
        };
    assert(folds_to(compute, Fold::Lesser, highest, points, least));
    assert(folds_to(compute, Fold::Greater, lowest, points, most));
    assert(call_ensures(compute, (Operation::Tenth(spread),), tenth));
    assert(call_ensures(compute, (Operation::Greater(tenth, one),), margin));
}

/// Every point of a chart lies between its bounds, where the numbers are compared as `le` orders
/// them, and taking away a margin makes no number greater, nor adding one makes it less.
pub proof fn bounds_enclose_every_point<V, C: Fn(Operation<V>) -> V>(
    compute: C,
    le: spec_fn(V, V) -> bool,
    points: Seq<Point<V>>,
    low: V,
    high: V,
)
    requires
        bounds_of(compute, points, low, high),
        picks_the_lesser(compute, le),
        picks_the_greater(compute, le),
        forall|a: V, b: V, c: V| #[trigger] le(a, b) && #[trigger] le(b, c) ==> le(a, c),
        forall|a: V, one: V, margin: V, r: V| #[trigger]
            call_ensures(compute, (Operation::Count(1),), one) && le(one, margin)
                && #[trigger] call_ensures(compute, (Operation::Minus(a, margin),), r) ==> le(r, a),
        forall|a: V, one: V, margin: V, r: V| #[trigger]
            call_ensures(compute, (Operation::Count(1),), one) && le(one, margin)
                && #[trigger] call_ensures(compute, (Operation::Plus(a, margin),), r) ==> le(a, r),
    ensures
        forall|i: int|
            0 <= i < points.len() ==> le(low, (#[trigger] points[i]).value) && le(
                points[i].value,
                high,
            ),
{
    bounds_lie_a_margin_outside(compute, points, low, high);
    let (highest, lowest, least, most, spread, tenth, one, margin) = choose|
        highest: V,
        lowest: V,
        least: V,
        most: V,
        spread: V,
        tenth: V,
        one: V,
        margin: V,
    |
        {
            &&& call_ensures(compute, (Operation::Highest,), highest)
            &&& call_ensures(compute, (Operation::Lowest,), lowest)
            &&& #[trigger] folds_to(compute, Fold::Lesser, highest, points, least)
            &&& #[trigger] folds_to(compute, Fold::Greater, lowest, points, most)
            &&& call_ensures(compute, (Operation::Minus(most, least),), spread)
            &&& #[trigger] call_ensures(compute, (Operation::Tenth(spread),), tenth)
            &&& call_ensures(compute, (Operation::Count(1),), one)
            &&& #[trigger] call_ensures(compute, (Operation::Greater(tenth, one),), margin)
            &&& call_ensures(compute, (Operation::Minus(least, margin),), low)
            &&& call_ensures(compute, (Operation::Plus(most, margin),), high)
        };
    folding_finds_the_least(compute, le, highest, points, least);
    folding_finds_the_greatest(compute, le, lowest, points, most);
    assert(call_ensures(compute, (Operation::Greater(tenth, one),), margin));
    assert(le(one, margin));
    assert(le(low, least));
    assert(le(most, high));
}

/// A chart has a point for each value kept, in their order: the value, above the middle of a
/// column, which is half of one right of the number of the point, counted from zero.
pub proof fn points_stand_in_their_columns<V, C: Fn(Operation<V>) -> V>(
    compute: C,
    points: Seq<Point<V>>,
    data: Seq<(V, V)>,
    index: int,
)
    requires
        data_shows(compute, points, data),
        0 <= index < points.len(),
    ensures
        data.len() == points.len(),
        data[index].1 == points[index].value,
        exists|one: V, half: V, left: V|
            {
                &&& call_ensures(compute, (Operation::Count(1),), one)
                &&& #[trigger] call_ensures(compute, (Operation::Mean(one, 2),), half)
                &&& call_ensures(compute, (Operation::Count(index as usize),), left)
                &&& #[trigger] call_ensures(compute, (Operation::Plus(left, half),), data[index].0)
            },
{
    let middle = data[index].0;
    let (left, half) = choose|left: V, half: V|
        {
            &&& computes(compute, Operation::Count(index as usize), left)
            &&& half_of_one(compute, half)
            &&& #[trigger] computes(compute, Operation::Plus(left, half), middle)
        };
    let one = choose|one: V|
        {
            &&& computes(compute, Operation::Count(1), one)
            &&& #[trigger] computes(compute, Operation::Mean(one, 2), half)
        };
    assert(call_ensures(compute, (Operation::Mean(one, 2),), half));
    assert(call_ensures(compute, (Operation::Plus(left, half),), middle));
}

/// The axis of columns goes from zero to the number of values kept, at least two, and its labels
/// tell both. The labels of the axis of values tell its lower bound, the middle and its upper
/// bound.
pub proof fn axes_tell_their_bounds<V, C, T, X, S>(
    numbers: Numbers<C, T, X, S>,
    state: StateView<V>,
    frame: FrameView,
    chart: ChartPane<V>,
) where C: Fn(Operation<V>) -> V, T: Fn(Test<V>) -> bool, X: Fn(V, usize) -> String
    requires
        chart_shows(numbers, state, frame, chart),
    ensures
        call_ensures(numbers.compute, (Operation::Count(0),), chart.x_bounds.0),
        frame.history_points >= 2 ==> call_ensures(
            numbers.compute,
            (Operation::Count(frame.history_points as usize),),
            chart.x_bounds.1,
        ),
        frame.history_points < 2 ==> call_ensures(
            numbers.compute,
            (Operation::Count(2),),
            chart.x_bounds.1,
        ),
        chart.x_labels@.len() == 2,
        chart.x_labels@[0]@ == seq!['0'],
        numbers.writes(chart.x_bounds.1, chart.x_labels@[1]@),
        chart.y_labels@.len() == 3,
        numbers.writes(chart.y_bounds.0, chart.y_labels@[0]@),
        numbers.writes(chart.y_bounds.1, chart.y_labels@[2]@),
        exists|sum: V, middle: V|
            {
                &&& call_ensures(
                    numbers.compute,
                    (Operation::Plus(chart.y_bounds.0, chart.y_bounds.1),),
                    sum,
                )
                &&& #[trigger] call_ensures(numbers.compute, (Operation::Mean(sum, 2),), middle)
                &&& numbers.writes(middle, chart.y_labels@[1]@)
            },
        bounds_of(numbers.compute, state.samples, chart.y_bounds.0, chart.y_bounds.1),
{
    reveal_strlit("0");
    assert("0"@ =~= seq!['0']);
    let low = chart.y_bounds.0;
    let high = chart.y_bounds.1;
    let middle = choose|middle: V| #[trigger]
        middle_of(numbers.compute, low, high, middle) && numbers.writes(
            middle,
            chart.y_labels@[1]@,
        );
    let sum = choose|sum: V| #[trigger]
        computes(numbers.compute, Operation::Plus(low, high), sum) && computes(
            numbers.compute,
            Operation::Mean(sum, 2),
            middle,
        );
    assert(call_ensures(numbers.compute, (Operation::Mean(sum, 2),), middle));
}

/// A chart stands where its frame does and bears the name and the label of its series. That of the
/// selected series has a yellow line and a frame that stands out, every other a cyan line and a
/// plain frame. The axis of values tells the kind and the unit.
pub proof fn charts_have_names_and_colors<V, C, T, X, S>(
    numbers: Numbers<C, T, X, S>,
    state: StateView<V>,
    frame: FrameView,
    chart: ChartPane<V>,
) where C: Fn(Operation<V>) -> V, T: Fn(Test<V>) -> bool, X: Fn(V, usize) -> String
    requires
        chart_shows(numbers, state, frame, chart),
    ensures
        chart.area == frame.area,
        chart.name@ == chart_title_of(state),
        chart.title@ == frame_title(frame.pane_title, chart_title_of(state)),
        chart.y_title.text@ == axis_title(kind_word(state.kind), frame.unit),
        chart.y_title.style == (TextStyle {
            fg: Some(Color::Yellow),
            bg: None,
            bold: false,
            dim: false,
        }),
        frame.selected ==> chart.line_color == Color::Yellow && chart.border_style == selected_look(
            frame.focused,
        ),
        !frame.selected ==> chart.line_color == Color::Cyan && chart.border_style == (TextStyle {
            fg: None,
            bg: None,
            bold: false,
            dim: false,
        }),
        data_shows(numbers.compute, state.samples, chart.data@),
{
}

/// The pane shows a notice if and only if there are no series to show. Else it has a place for each
/// series from the one it is scrolled to on, in their order, as many as it shows or as there are,
/// and in it a chart where the series has points. The unit is the one that the metric is configured
/// with, the first chart bears the title of the pane, and the chart of the selected row stands out.
pub proof fn charts_show_the_series_in_their_order<V, C, T, X, S>(
    numbers: Numbers<C, T, X, S>,
    table: Map<Seq<char>, MetricConfig>,
    history_points: int,
    shown: Seq<StateView<V>>,
    place: PaneView,
    focused: bool,
    area: Area,
    chart_height: int,
    pane: ChartsPane<V>,
) where C: Fn(Operation<V>) -> V, T: Fn(Test<V>) -> bool, X: Fn(V, usize) -> String
    requires
        charts_show(
            numbers,
            table,
            history_points,
            shown,
            place,
            focused,
            area,
            chart_height,
            pane,
        ),
        0 <= place.scroll,
        1 <= place.page,
        place.scroll < shown.len() || (shown.len() == 0 && place.scroll == 0),
    ensures
        pane is Notice <==> shown.len() == 0,
        pane matches ChartsPane::Notice { title, text } ==> title@ == " Charts "@ && text@
            == "No chart metrics configured yet."@,
        pane matches ChartsPane::Charts(charts) ==> {
            let end = if place.scroll + place.page <= shown.len() {
                place.scroll + place.page
            } else {
                shown.len() as int
            };
            &&& area.height == 0 ==> charts@.len() == 0
            &&& area.height > 0 ==> charts@.len() == end - place.scroll
            &&& forall|i: int|
                0 <= i < charts@.len() ==> {
                    let state = shown[place.scroll + i];
                    &&& #[trigger] charts@[i] is Some <==> state.samples.len() > 0
                    &&& charts@[i] matches Some(chart) ==> {
                        &&& chart_place(area, i, chart_height) == Some(chart.area)
                        &&& chart_shows(
                            numbers,
                            state,
                            FrameView {
                                area: chart.area,
                                unit: if table.contains_key(state.name) {
                                    table[state.name].unit@
                                } else {
                                    Seq::empty()
                                },
                                history_points,
                                pane_title: if i == 0 {
                                    Some(
                                        pane_heading(
                                            "Charts"@,
                                            focused,
                                            place.scroll as nat,
                                            end as nat,
                                            shown.len(),
                                            place.selected as nat,
                                        ),
                                    )
                                } else {
                                    None
                                },
                                selected: place.scroll + i == place.selected,
                                focused,
                            },
                            chart,
                        )
                    }
                }
        },
{
}

/// A pane has room for as many whole charts as fit, but at least for one. Its room is that of the
/// second pane, and nothing else is changed by giving it.
pub proof fn panes_hold_the_charts_that_fit(height: int, chart_height: int, nav: NavView, page: int)
    requires
        0 <= height,
        0 < chart_height,
    ensures
        height < chart_height ==> chart_rows(height, chart_height) == 1,
        height >= chart_height ==> chart_rows(height, chart_height) * chart_height <= height < (
        chart_rows(height, chart_height) + 1) * chart_height,
        with_chart_page(nav, page).charts.page == page,
        with_chart_page(nav, page).charts.scroll == nav.charts.scroll,
        with_chart_page(nav, page).charts.selected == nav.charts.selected,
        with_chart_page(nav, page).numeric == nav.numeric,
        with_chart_page(nav, page).focus == nav.focus,
        with_chart_page(nav, page).chart_height == nav.chart_height,
        with_chart_page(nav, page).details_open == nav.details_open,
{
    if height >= chart_height {
        let rows = height / chart_height;
        assert(rows * chart_height <= height < (rows + 1) * chart_height) by (nonlinear_arith)
            requires
                rows == height / chart_height,
                chart_height > 0,
        ;
    }
}

/// What is known of a chart stands in the fields of its frame.
pub proof fn frames_hold_their_fields(frame: ChartFrame)
    ensures
        frame@.area == frame.area,
        frame@.unit == frame.unit@,
        frame@.history_points == frame.history_points,
        frame@.selected == frame.selected && frame@.focused == frame.focused,
        frame.pane_title is None ==> frame@.pane_title is None,
        frame.pane_title matches Some(title) ==> frame@.pane_title == Some(title@),
{
}

} // verus!
