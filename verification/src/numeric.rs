//! The pane that shows numbers.
use std::time::{Duration, Instant};
use vstd::prelude::*;

use crate::app::{
    pane_states, panes_show_what_is_counted, refs_view, unit_of, App, Focus,
};
use crate::clock::{elapsed, time_between};
use crate::config::MetricConfig;
use crate::dogstatsd::kind_word;
use crate::geometry::Area;
use crate::metrics::{MetricState, StateView};
use crate::navigation::{nav_synced, NavView};
use crate::numbers::{Numbers, Operation, Test};
use crate::screen::{
    detail_label_style, label_look, pane_heading, pane_title, plain_look, plain_style,
    selected_look, selected_style, TextStyle,
};
use crate::text::strings_view;
use crate::viewport::{in_view, last_row, shown_rows, smaller, PaneView};

verus! {

/// The name of a series as charts bear it: with its label where it has one.
pub open spec fn chart_title_of<V>(state: StateView<V>) -> Seq<char> {
    if state.labels.len() == 0 {
        state.name
    } else {
        state.name + " "@ + state.labels
    }
}

/// The name of a series in a list: the series of one metric stand below each other, and only the
/// first of them bears the name.
pub open spec fn grouped_name_of<V>(shown: Seq<StateView<V>>, index: int) -> Seq<char> {
    let state = shown[index];
    if state.labels.len() == 0 {
        state.name
    } else if index == 0 || shown[index - 1].name != state.name {
        state.name + " "@ + state.labels
    } else {
        "  "@ + state.labels
    }
}

/// The name of a series as charts bear it.
pub fn metric_chart_title<V>(metric: &MetricState<V>) -> (title: String)
    ensures
        title@ == chart_title_of(metric@),
{
    let mut title: String = metric.name.clone();
    if !metric.labels.as_str().is_empty() {
        title.append(" ");
        title.append(metric.labels.as_str());
    }
    title
}

/// The name of a series in a list.
pub fn grouped_metric_name<V>(metrics: &[&MetricState<V>], index: usize) -> (name: String)
    requires
        index < metrics@.len(),
    ensures
        name@ == grouped_name_of(refs_view(metrics@), index as int),
{
    let metric: &MetricState<V> = metrics[index];
    assert(refs_view(metrics@)[index as int] == metric@);
    if metric.labels.as_str().is_empty() {
        return metric.name.clone();
    }
    if index > 0 {
        assert(refs_view(metrics@)[index - 1] == metrics@[index - 1]@);
    }
    if index == 0 || metrics[index - 1].name != metric.name {
        let mut name: String = metric.name.clone();
        name.append(" ");
        name.append(metric.labels.as_str());
        name
    } else {
        let mut name: String = "  ".to_owned();
        name.append(metric.labels.as_str());
        name
    }
}

/// A row of a table.
#[derive(Debug)]
pub struct TableRow {
    pub cells: Vec<String>,
    pub style: TextStyle,
}

/// The width of a column of a table: a share of what is left, or so many columns of the screen.
#[derive(Debug, Clone, Copy, Eq, PartialEq, Structural)]
pub enum ColumnWidth {
    Fill(u16),
    Length(u16),
}

/// The pane that shows numbers: a table with a heading for each column.
#[derive(Debug)]
pub struct NumericPane {
    pub title: String,
    pub header: TableRow,
    pub widths: Vec<ColumnWidth>,
    pub rows: Vec<TableRow>,
}

/// The first row of a list that a pane shows.
pub open spec fn first_shown(pane: PaneView, count: int) -> int {
    smaller(pane.scroll, last_row(count))
}

/// The row behind the last one that a pane shows.
pub open spec fn end_shown(pane: PaneView, count: int) -> int {
    smaller(first_shown(pane, count) + shown_rows(pane.page), count)
}

/// The title of a pane that shows a list of `count` rows.
pub open spec fn pane_title_of(
    label: Seq<char>,
    focused: bool,
    pane: PaneView,
    count: int,
) -> Seq<char> {
    pane_heading(
        label,
        focused,
        first_shown(pane, count) as nat,
        end_shown(pane, count) as nat,
        count as nat,
        pane.selected as nat,
    )
}

/// Whether a row of the table can show the series at `index`, when `time` has passed since it was
/// last seen.
pub open spec fn row_shows<V, C, T, X, S>(
    numbers: Numbers<C, T, X, S>,
    table: Map<Seq<char>, MetricConfig>,
    shown: Seq<StateView<V>>,
    index: int,
    time: Duration,
    row: TableRow,
) -> bool where T: Fn(Test<V>) -> bool, X: Fn(V, usize) -> String, S: Fn(Duration) -> String {
    let state = shown[index];
    let unit = unit_of(table, state.name);
    &&& row.cells@.len() == 5
    &&& row.cells@[0]@ == grouped_name_of(shown, index)
    &&& row.cells@[1]@ == kind_word(state.kind)
    &&& numbers.writes_value(state.latest, unit, row.cells@[2]@)
    &&& numbers.writes_value(state.total, unit, row.cells@[3]@)
    &&& numbers.writes_age(time, "s"@, row.cells@[4]@)
}

/// Whether a row of the table can show the series at `index`, with the time since it was last seen,
/// whenever the clock is read.
pub open spec fn row_shows_at_some_time<V, C, T, X, S>(
    numbers: Numbers<C, T, X, S>,
    table: Map<Seq<char>, MetricConfig>,
    shown: Seq<StateView<V>>,
    index: int,
    row: TableRow,
) -> bool where T: Fn(Test<V>) -> bool, X: Fn(V, usize) -> String, S: Fn(Duration) -> String {
    exists|moment: Instant|
        row_shows(
            numbers,
            table,
            shown,
            index,
            #[trigger] time_between(shown[index].last_seen, moment),
            row,
        )
}

/// Whether the table can show a list of series.
pub open spec fn numeric_shows<V, C, T, X, S>(
    numbers: Numbers<C, T, X, S>,
    table: Map<Seq<char>, MetricConfig>,
    shown: Seq<StateView<V>>,
    place: PaneView,
    focused: bool,
    pane: NumericPane,
) -> bool where T: Fn(Test<V>) -> bool, X: Fn(V, usize) -> String, S: Fn(Duration) -> String {
    let start = first_shown(place, shown.len() as int);
    &&& pane.title@ == pane_title_of("Numeric"@, focused, place, shown.len() as int)
    &&& strings_view(pane.header.cells@) == seq!["metric"@, "kind"@, "latest"@, "total"@, "age"@]
    &&& pane.header.style == label_look()
    &&& pane.widths@ == seq![
        ColumnWidth::Fill(1),
        ColumnWidth::Length(10),
        ColumnWidth::Length(16),
        ColumnWidth::Length(16),
        ColumnWidth::Length(7),
    ]
    &&& pane.rows@.len() == end_shown(place, shown.len() as int) - start
    &&& forall|i: int|
        0 <= i < pane.rows@.len() ==> {
            &&& (#[trigger] pane.rows@[i]).style == if start + i == place.selected {
                selected_look(focused)
            } else {
                plain_look()
            }
            &&& row_shows_at_some_time(numbers, table, shown, start + i, pane.rows@[i])
        }
}

/// The rows that the table shows in a pane of so many rows: three go to the frame and the headings.
pub open spec fn numeric_rows(height: int) -> int {
    if height < 4 {
        1
    } else {
        height - 3
    }
}

impl<V: Copy> App<V> {
    /// The row of the table for the series at `index`, when `time` has passed since it was last
    /// seen.
    pub fn numeric_row<C, T, X, S>(
        &self,
        metrics: &[&MetricState<V>],
        index: usize,
        time: Duration,
        numbers: &Numbers<C, T, X, S>,
    ) -> (row: TableRow) where
        C: Fn(Operation<V>) -> V,
        T: Fn(Test<V>) -> bool,
        X: Fn(V, usize) -> String,
        S: Fn(Duration) -> String,

        requires
            index < metrics@.len(),
            numbers.ready::<V>(),
        ensures
            row_shows(*numbers, self.table(), refs_view(metrics@), index as int, time, row),
            row.style == if index == self.numeric_selected {
                selected_look(self.focus == Focus::Numeric)
            } else {
                plain_look()
            },
    {
        let metric: &MetricState<V> = metrics[index];
        assert(refs_view(metrics@)[index as int] == metric@);
        let unit: String = self.unit(metric.name.as_str());
        let cells: Vec<String> = vec![
            grouped_metric_name(metrics, index),
            metric.kind.to_string(),
            numbers.format_value(metric.latest, unit.as_str()),
            numbers.format_value(metric.total, unit.as_str()),
            numbers.format_age::<V>(time, "s"),
        ];
        let style: TextStyle = if index == self.numeric_selected {
            selected_style(self.focus == Focus::Numeric)
        } else {
            plain_style()
        };
        TableRow { cells, style }
    }

    /// The table of numbers in a pane of the height of `area`. The pane is first moved so that it
    /// shows the selected series.
    pub fn render_numeric<C, T, X, S>(&mut self, area: Area, numbers: &Numbers<C, T, X, S>) -> (pane:
        NumericPane) where
        C: Fn(Operation<V>) -> V,
        T: Fn(Test<V>) -> bool,
        X: Fn(V, usize) -> String,
        S: Fn(Duration) -> String,

        requires
            old(self).wf(),
            numbers.ready::<V>(),
        ensures
            final(self).wf(),
            final(self).same_data(old(self)),
            final(self).nav() == nav_synced(
                with_numeric_page(old(self).nav(), numeric_rows(area.height as int)),
                old(self).counts(),
            ),
            numeric_shows(
                *numbers,
                old(self).table(),
                pane_states(old(self).table(), old(self).listed(), Focus::Numeric),
                final(self).nav().numeric,
                old(self).focus == Focus::Numeric,
                pane,
            ),
    {
        let visible: usize = (area.height.saturating_sub(3) as usize).max(1);
        self.numeric_page = visible;
        self.sync_viewports();
        let metrics: Vec<&MetricState<V>> = self.pane_metrics(Focus::Numeric);
        let count: usize = metrics.len();
        let ghost shown = pane_states(self.table(), self.listed(), Focus::Numeric);
        proof {
            panes_show_what_is_counted(self.table(), self.listed());
            assert(refs_view(metrics@).len() == count);
        }
        let start: usize = self.numeric_scroll.min(count.saturating_sub(1));
        let end: usize = start.saturating_add(visible).min(count);
        let mut rows: Vec<TableRow> = Vec::new();
        let mut index: usize = start;
        while index < end
            invariant
                start <= index <= end,
                end <= count,
                count == metrics@.len(),
                numbers.ready::<V>(),
                shown == refs_view(metrics@),
                rows@.len() == index - start,
                forall|i: int|
                    0 <= i < rows@.len() ==> {
                        &&& (#[trigger] rows@[i]).style == if start + i == self.numeric_selected {
                            selected_look(self.focus == Focus::Numeric)
                        } else {
                            plain_look()
                        }
                        &&& row_shows_at_some_time(
                            *numbers,
                            self.table(),
                            shown,
                            start + i,
                            rows@[i],
                        )
                    },
            decreases end - index,
        {
            let time: Duration = elapsed(metrics[index].last_seen);
            let row: TableRow = self.numeric_row(metrics.as_slice(), index, time, numbers);
            assert(shown[index as int].last_seen == metrics@[index as int].last_seen);
            assert(row_shows_at_some_time(*numbers, self.table(), shown, index as int, row));
            rows.push(row);
            index += 1;
        }
        let header: TableRow = TableRow {
            cells: vec![
                "metric".to_owned(),
                "kind".to_owned(),
                "latest".to_owned(),
                "total".to_owned(),
                "age".to_owned(),
            ],
            style: detail_label_style(),
        };
        assert(strings_view(header.cells@) == seq![
            "metric"@,
            "kind"@,
            "latest"@,
            "total"@,
            "age"@,
        ]);
        let title: String = pane_title(
            "Numeric",
            self.focus == Focus::Numeric,
            start,
            end,
            count,
            self.numeric_selected,
        );
        let widths: Vec<ColumnWidth> = vec![
            ColumnWidth::Fill(1),
            ColumnWidth::Length(10),
            ColumnWidth::Length(16),
            ColumnWidth::Length(16),
            ColumnWidth::Length(7),
        ];
        NumericPane { title, header, widths, rows }
    }
}

/// The first pane with room for so many rows.
pub open spec fn with_numeric_page(nav: NavView, page: int) -> NavView {
    NavView { numeric: PaneView { page, ..nav.numeric }, ..nav }
}

/// Where there are series to show, the selected one is among those that a pane shows after it was
/// moved: no earlier than the first and before the end.
pub proof fn selected_series_is_shown(pane: PaneView, count: int)
    requires
        count > 0,
        in_view(pane, count),
    ensures
        first_shown(pane, count) <= pane.selected < end_shown(pane, count),
{
}

/// Where there are series to show, the row of the selected one is in the table and stands out, and
/// no other does.
pub proof fn only_the_selected_row_stands_out<V, C, T, X, S>(
    numbers: Numbers<C, T, X, S>,
    table: Map<Seq<char>, MetricConfig>,
    shown: Seq<StateView<V>>,
    place: PaneView,
    focused: bool,
    pane: NumericPane,
    row: int,
) where T: Fn(Test<V>) -> bool, X: Fn(V, usize) -> String, S: Fn(Duration) -> String
    requires
        shown.len() > 0,
        in_view(place, shown.len() as int),
        numeric_shows(numbers, table, shown, place, focused, pane),
    ensures
        0 <= place.selected - first_shown(place, shown.len() as int) < pane.rows@.len(),
        0 <= row < pane.rows@.len() ==> (pane.rows@[row].style == selected_look(focused) <==> row
            == place.selected - first_shown(place, shown.len() as int)),
{
    selected_series_is_shown(place, shown.len() as int);
}

/// A chart bears the name of its series, and behind a blank its label where it has one.
pub proof fn charts_bear_name_and_label<V>(state: StateView<V>)
    ensures
        state.labels.len() == 0 ==> chart_title_of(state) == state.name,
        state.labels.len() > 0 ==> chart_title_of(state) == state.name + seq![' '] + state.labels,
{
    reveal_strlit(" ");
    assert(" "@ =~= seq![' ']);
}

/// In a list a series without label bears its name. One with a label bears its name, a blank and
/// its label, unless the series before it has the same name: then it bears the label alone, two
/// blanks further to the right.
pub proof fn rows_bear_the_name_where_it_changes<V>(shown: Seq<StateView<V>>, index: int)
    requires
        0 <= index < shown.len(),
    ensures
        shown[index].labels.len() == 0 ==> grouped_name_of(shown, index) == shown[index].name,
        shown[index].labels.len() > 0 && index == 0 ==> grouped_name_of(shown, index)
            == shown[index].name + seq![' '] + shown[index].labels,
        shown[index].labels.len() > 0 && index > 0 && shown[index - 1].name != shown[index].name
            ==> grouped_name_of(shown, index) == shown[index].name + seq![' ']
            + shown[index].labels,
        shown[index].labels.len() > 0 && index > 0 && shown[index - 1].name == shown[index].name
            ==> grouped_name_of(shown, index) == seq![' ', ' '] + shown[index].labels,
{
    reveal_strlit(" ");
    reveal_strlit("  ");
    assert(" "@ =~= seq![' ']);
    assert("  "@ =~= seq![' ', ' ']);
}

/// The row of a series tells its name, its kind, its latest value, its total and its age, in this
/// order, the two values with the unit that its metric is configured with, or without one. The
/// total is that of the series, also where it differs from the latest value.
pub proof fn rows_tell_latest_and_total<V, C, T, X, S>(
    numbers: Numbers<C, T, X, S>,
    table: Map<Seq<char>, MetricConfig>,
    shown: Seq<StateView<V>>,
    index: int,
    time: Duration,
    row: TableRow,
) where T: Fn(Test<V>) -> bool, X: Fn(V, usize) -> String, S: Fn(Duration) -> String
    requires
        row_shows(numbers, table, shown, index, time, row),
    ensures
        ({
            let state = shown[index];
            let unit = if table.contains_key(state.name) {
                table[state.name].unit@
            } else {
                Seq::empty()
            };
            &&& row.cells@.len() == 5
            &&& row.cells@[0]@ == grouped_name_of(shown, index)
            &&& row.cells@[1]@ == kind_word(state.kind)
            &&& numbers.writes_value(state.latest, unit, row.cells@[2]@)
            &&& numbers.writes_value(state.total, unit, row.cells@[3]@)
            &&& numbers.writes_age(time, seq!['s'], row.cells@[4]@)
        }),
{
    reveal_strlit("s");
    assert("s"@ =~= seq!['s']);
}

/// Two series that write their totals differently have different fourth cells, whatever else they
/// share.
pub proof fn totals_tell_rows_apart<V, C, T, X, S>(
    numbers: Numbers<C, T, X, S>,
    table: Map<Seq<char>, MetricConfig>,
    shown: Seq<StateView<V>>,
    first: int,
    second: int,
    time: Duration,
    first_row: TableRow,
    second_row: TableRow,
) where T: Fn(Test<V>) -> bool, X: Fn(V, usize) -> String, S: Fn(Duration) -> String
    requires
        row_shows(numbers, table, shown, first, time, first_row),
        row_shows(numbers, table, shown, second, time, second_row),
        shown[first].name == shown[second].name,
        forall|a: Seq<char>, b: Seq<char>| #[trigger]
            numbers.writes(shown[first].total, a) && #[trigger] numbers.writes(
                shown[second].total,
                b,
            ) ==> a != b,
    ensures
        first_row.cells@[3]@ != second_row.cells@[3]@,
{
    let unit = unit_of(table, shown[first].name);
    let left = first_row.cells@[3]@;
    let right = second_row.cells@[3]@;
    assert(numbers.writes_value(shown[first].total, unit, left));
    assert(numbers.writes_value(shown[second].total, unit, right));
    let a = choose|a: Seq<char>| #[trigger]
        numbers.writes(shown[first].total, a) && left == if unit.len() == 0 {
            a
        } else {
            a + " "@ + unit
        };
    let b = choose|b: Seq<char>| #[trigger]
        numbers.writes(shown[second].total, b) && right == if unit.len() == 0 {
            b
        } else {
            b + " "@ + unit
        };
    if left == right && unit.len() > 0 {
        assert(left.len() == a.len() + " "@.len() + unit.len());
        assert(right.len() == b.len() + " "@.len() + unit.len());
        assert(a =~= left.take(a.len() as int));
        assert(b =~= right.take(b.len() as int));
    }
}

/// Where a pane shows its selected row, the rows shown begin with the one the pane is scrolled to,
/// and there are as many as the pane shows, or as the list still has.
pub proof fn rows_are_shown_from_the_scrolled_one(pane: PaneView, count: int)
    requires
        0 <= pane.scroll < count,
        1 <= pane.page,
    ensures
        first_shown(pane, count) == pane.scroll,
        pane.scroll + pane.page <= count ==> end_shown(pane, count) == pane.scroll + pane.page,
        pane.scroll + pane.page > count ==> end_shown(pane, count) == count,
{
}

/// The table shows three rows fewer than its pane has, but at least one. Its room is that of the
/// first pane, and nothing else is changed by giving it.
pub proof fn tables_lose_three_rows_to_their_frame(nav: NavView, height: int, page: int)
    ensures
        height >= 4 ==> numeric_rows(height) == height - 3,
        height < 4 ==> numeric_rows(height) == 1,
        with_numeric_page(nav, page).numeric.page == page,
        with_numeric_page(nav, page).numeric.scroll == nav.numeric.scroll,
        with_numeric_page(nav, page).numeric.selected == nav.numeric.selected,
        with_numeric_page(nav, page).charts == nav.charts,
        with_numeric_page(nav, page).focus == nav.focus,
        with_numeric_page(nav, page).chart_height == nav.chart_height,
        with_numeric_page(nav, page).details_open == nav.details_open,
{
}

/// The table has a row for each series from the one its pane is scrolled to on, in their order, as
/// many as the pane shows or as there are; its title tells where it stands, and its columns have
/// their headings and widths.
pub proof fn table_shows_the_series_in_their_order<V, C, T, X, S>(
    numbers: Numbers<C, T, X, S>,
    table: Map<Seq<char>, MetricConfig>,
    shown: Seq<StateView<V>>,
    place: PaneView,
    focused: bool,
    pane: NumericPane,
) where T: Fn(Test<V>) -> bool, X: Fn(V, usize) -> String, S: Fn(Duration) -> String
    requires
        numeric_shows(numbers, table, shown, place, focused, pane),
        0 <= place.scroll,
        1 <= place.page,
        place.scroll < shown.len() || (shown.len() == 0 && place.scroll == 0),
    ensures
        ({
            let end = if place.scroll + place.page <= shown.len() {
                place.scroll + place.page
            } else {
                shown.len() as int
            };
            &&& pane.rows@.len() == end - place.scroll
            &&& pane.title@ == pane_heading(
                "Numeric"@,
                focused,
                place.scroll as nat,
                end as nat,
                shown.len(),
                place.selected as nat,
            )
            &&& forall|i: int|
                0 <= i < pane.rows@.len() ==> {
                    &&& exists|moment: Instant|
                        row_shows(
                            numbers,
                            table,
                            shown,
                            place.scroll + i,
                            #[trigger] time_between(shown[place.scroll + i].last_seen, moment),
                            #[trigger] pane.rows@[i],
                        )
                    &&& place.scroll + i == place.selected ==> pane.rows@[i].style == selected_look(
                        focused,
                    )
                    &&& place.scroll + i != place.selected ==> pane.rows@[i].style == plain_look()
                }
        }),
        pane.header.cells@.len() == 5,
        pane.header.cells@[0]@ == "metric"@ && pane.header.cells@[1]@ == "kind"@,
        pane.header.cells@[2]@ == "latest"@ && pane.header.cells@[3]@ == "total"@,
        pane.header.cells@[4]@ == "age"@,
        pane.header.style == label_look(),
        pane.widths@.len() == 5,
        pane.widths@[0] == ColumnWidth::Fill(1) && pane.widths@[1] == ColumnWidth::Length(10),
        pane.widths@[2] == ColumnWidth::Length(16) && pane.widths@[3] == ColumnWidth::Length(16),
        pane.widths@[4] == ColumnWidth::Length(7),
{
    let heads = strings_view(pane.header.cells@);
    assert(heads.len() == pane.header.cells@.len());
    assert(heads[0] == pane.header.cells@[0]@ && heads[1] == pane.header.cells@[1]@);
    assert(heads[2] == pane.header.cells@[2]@ && heads[3] == pane.header.cells@[3]@);
    assert(heads[4] == pane.header.cells@[4]@);
    assert forall|i: int| 0 <= i < pane.rows@.len() implies row_shows_at_some_time(
        numbers,
        table,
        shown,
        place.scroll + i,
        #[trigger] pane.rows@[i],
    ) by {}
}

} // verus!
