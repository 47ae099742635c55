//! What the screen shows.
use std::time::{Duration, Instant};
use vstd::prelude::*;

use crate::app::{pane_states, panes_show_what_is_counted, App, Focus};
use crate::charts::{
    chart_rows, charts_show, panes_hold_the_charts_that_fit, with_chart_page, ChartsPane,
};
use crate::clock::{elapsed, nanos_of, time_between};
use crate::details::DetailsPane;
use crate::geometry::{are_regions_of, screen_regions, Area, Regions};
use crate::navigation::{focused_number, nav_in_view, nav_synced, Counts, NavView};
use crate::numbers::{Numbers, Operation, Test};
use crate::numeric::{numeric_rows, numeric_shows, with_numeric_page, NumericPane};
use crate::screen::{
    footer_line, footer_view, header_lines, header_view, line_view, lines_view, Span, SpanView,
};
use crate::viewport::{synced_pane_shows_the_selection, synced_pane_stays, PaneView};

verus! {

/// What the screen shows, and where.
#[derive(Debug)]
pub struct Screen<V> {
    pub regions: Regions,
    pub header: Vec<Vec<Span>>,
    pub numeric: NumericPane,
    pub charts: ChartsPane<V>,
    pub footer: Vec<Span>,
    pub details: Option<DetailsPane>,
}

/// Whether the header can say this of a program that was started at a moment, whenever the clock is
/// read.
pub open spec fn header_shows(
    started_at: Instant,
    received: nat,
    metrics: nat,
    lines: Seq<Seq<SpanView>>,
) -> bool {
    exists|moment: Instant|
        lines == header_view(
            received,
            metrics,
            nanos_of(#[trigger] time_between(started_at, moment)) / 1_000_000_000,
        )
}

/// Where the user stands after the numbers were drawn in a pane of so many rows.
pub open spec fn numeric_drawn(nav: NavView, counts: Counts, height: int) -> NavView {
    nav_synced(with_numeric_page(nav, numeric_rows(height)), counts)
}

/// Where the user stands after the charts were drawn in a pane of so many rows.
pub open spec fn charts_drawn(nav: NavView, counts: Counts, height: int) -> NavView {
    nav_synced(with_chart_page(nav, chart_rows(height, nav.chart_height)), counts)
}

impl<V: Copy> App<V> {
    /// The lines at the top of the screen.
    pub fn render_header(&self) -> (lines: Vec<Vec<Span>>)
        requires
            self.wf(),
        ensures
            header_shows(
                self.started_at,
                self.received as nat,
                self.listed().len(),
                lines_view(lines@),
            ),
    {
        let time: Duration = elapsed(self.started_at);
        let uptime: u64 = time.as_secs();
        assert(uptime as nat == nanos_of(time) / 1_000_000_000);
        header_lines(self.received, self.metrics.len(), uptime)
    }

    /// What the screen shows. The panes are first given the room that they have on it, and moved so
    /// that they show the selected series.
    pub fn render<C, T, X, S>(&mut self, area: Area, numbers: &Numbers<C, T, X, S>) -> (screen:
        Screen<V>) where
        C: Fn(Operation<V>) -> V,
        T: Fn(Test<V>) -> bool,
        X: Fn(V, usize) -> String,
        S: Fn(Duration) -> String,

        requires
            old(self).wf(),
            area.valid(),
            numbers.ready::<V>(),
        ensures
            final(self).wf(),
            final(self).same_data(old(self)),
            old(self).draws(*final(self), area, *numbers, screen),
    {
        let regions: Regions = screen_regions(area);
        let header: Vec<Vec<Span>> = self.render_header();
        let numeric: NumericPane = self.render_numeric(regions.numeric, numbers);
        let charts: ChartsPane<V> = self.render_charts(regions.charts, numbers);
        let footer: Vec<Span> = footer_line(self.chart_height, self.config.listen.as_str());
        let details: Option<DetailsPane> = if self.details_open {
            Some(self.render_details(area, numbers))
        } else {
            None
        };
        Screen { regions, header, numeric, charts, footer, details }
    }

    /// Whether the screen can show this of the dashboard, if that leaves the dashboard as `after`.
    pub open spec fn draws<C, T, X, S>(
        &self,
        after: App<V>,
        area: Area,
        numbers: Numbers<C, T, X, S>,
        screen: Screen<V>,
    ) -> bool where
        C: Fn(Operation<V>) -> V,
        T: Fn(Test<V>) -> bool,
        X: Fn(V, usize) -> String,
        S: Fn(Duration) -> String,
     {
        let table = self.table();
        let listed = self.listed();
        let before = self.nav();
        let counts = self.counts();
        let between = numeric_drawn(before, counts, screen.regions.numeric.height as int);
        let drawn = charts_drawn(between, counts, screen.regions.charts.height as int);
        &&& are_regions_of(area, screen.regions)
        &&& after.nav() == drawn
        &&& header_shows(
            self.started_at,
            self.received as nat,
            listed.len(),
            lines_view(screen.header@),
        )
        &&& numeric_shows(
            numbers,
            table,
            pane_states(table, listed, Focus::Numeric),
            between.numeric,
            before.focus == Focus::Numeric,
            screen.numeric,
        )
        &&& charts_show(
            numbers,
            table,
            self.config.points_kept() as int,
            pane_states(table, listed, Focus::Charts),
            drawn.charts,
            before.focus == Focus::Charts,
            screen.regions.charts,
            before.chart_height,
            screen.charts,
        )
        &&& line_view(screen.footer@) == footer_view(
            before.chart_height as nat,
            self.config.listen@,
        )
        &&& match screen.details {
            Some(pane) => self.details_open && after.shows_details(area, numbers, pane),
            None => !self.details_open,
        }
    }
}

/// However the user stood before: after the screen was drawn both panes show their selected rows,
/// and leave no room unused; and drawing it again on a screen of the same size changes nothing.
/// Details, where they are shown, are those of a pane that has series.
pub proof fn drawn_screen_shows_the_selection(
    nav: NavView,
    counts: Counts,
    numeric_height: int,
    charts_height: int,
)
    requires
        counts.numeric >= 0,
        counts.charts >= 0,
        nav.numeric.scroll >= 0,
        nav.numeric.selected >= 0,
        nav.charts.scroll >= 0,
        nav.charts.selected >= 0,
        nav.details_open ==> focused_number(nav, counts) > 0,
    ensures
        ({
            let drawn = charts_drawn(
                numeric_drawn(nav, counts, numeric_height),
                counts,
                charts_height,
            );
            &&& nav_in_view(drawn, counts)
            &&& charts_drawn(
                numeric_drawn(drawn, counts, numeric_height),
                counts,
                charts_height,
            ) == drawn
        }),
{
    let first = with_numeric_page(nav, numeric_rows(numeric_height));
    let between = numeric_drawn(nav, counts, numeric_height);
    let second = with_chart_page(between, chart_rows(charts_height, nav.chart_height));
    let drawn = charts_drawn(between, counts, charts_height);
    synced_pane_shows_the_selection(first.numeric, counts.numeric);
    synced_pane_shows_the_selection(first.charts, counts.charts);
    synced_pane_shows_the_selection(second.numeric, counts.numeric);
    synced_pane_shows_the_selection(second.charts, counts.charts);
    synced_pane_stays(drawn.numeric, counts.numeric);
    synced_pane_stays(drawn.charts, counts.charts);
}

/// The screen shows the dashboard as the user stands after it was drawn: the numbers on the left
/// and the charts on the right, each from the row on that its pane is scrolled to, with the pane
/// that the keys act on marked; the footer tells the height of the charts and the address, and
/// details are shown if and only if they are open.
pub proof fn screen_shows_where_the_user_stands<V: Copy, C, T, X, S>(
    before: App<V>,
    after: App<V>,
    area: Area,
    numbers: Numbers<C, T, X, S>,
    screen: Screen<V>,
) where
    C: Fn(Operation<V>) -> V,
    T: Fn(Test<V>) -> bool,
    X: Fn(V, usize) -> String,
    S: Fn(Duration) -> String,

    requires
        after.same_data(&before),
        before.draws(after, area, numbers, screen),
    ensures
        are_regions_of(area, screen.regions),
        numeric_shows(
            numbers,
            after.metric_config@,
            pane_states(after.metric_config@, after.listed(), Focus::Numeric),
            PaneView {
                scroll: after.numeric_scroll as int,
                selected: after.numeric_selected as int,
                page: after.numeric_page as int,
            },
            after.focus == Focus::Numeric,
            screen.numeric,
        ),
        charts_show(
            numbers,
            after.metric_config@,
            after.config.points_kept() as int,
            pane_states(after.metric_config@, after.listed(), Focus::Charts),
            PaneView {
                scroll: after.chart_scroll as int,
                selected: after.chart_selected as int,
                page: after.chart_page as int,
            },
            after.focus == Focus::Charts,
            screen.regions.charts,
            after.chart_height as int,
            screen.charts,
        ),
        line_view(screen.footer@) == footer_view(after.chart_height as nat, after.config.listen@),
        screen.details is Some <==> after.details_open,
        screen.details matches Some(pane) ==> after.shows_details(area, numbers, pane),
{
    let counts = before.counts();
    let first = with_numeric_page(
        before.nav(),
        numeric_rows(screen.regions.numeric.height as int),
    );
    synced_pane_shows_the_selection(first.numeric, counts.numeric);
    synced_pane_stays(first.numeric, counts.numeric);
}

/// Drawing the screen gives each pane the rows that it has on it and moves it only so far that its
/// selected row is shown. Nothing else of where the user stands is changed.
pub proof fn drawing_only_moves_the_panes<V: Copy, C, T, X, S>(
    before: App<V>,
    after: App<V>,
    area: Area,
    numbers: Numbers<C, T, X, S>,
    screen: Screen<V>,
) where
    C: Fn(Operation<V>) -> V,
    T: Fn(Test<V>) -> bool,
    X: Fn(V, usize) -> String,
    S: Fn(Duration) -> String,

    requires
        before.wf(),
        before.draws(after, area, numbers, screen),
    ensures
        after.focus == before.focus,
        after.chart_height == before.chart_height,
        after.details_open == before.details_open,
        ({
            let rows = screen.regions.numeric.height as int;
            let count = pane_states(before.table(), before.listed(), Focus::Numeric).len() as int;
            &&& after.numeric_page == if rows >= 4 {
                rows - 3
            } else {
                1
            }
            &&& count == 0 ==> after.numeric_selected == 0 && after.numeric_scroll == 0
            &&& before.numeric_selected < count ==> after.numeric_selected
                == before.numeric_selected
            &&& 0 < count <= before.numeric_selected ==> after.numeric_selected == count - 1
            &&& count > 0 ==> after.numeric_scroll <= after.numeric_selected < after.numeric_scroll
                + after.numeric_page
        }),
        ({
            let rows = screen.regions.charts.height as int;
            let high = before.chart_height as int;
            let count = pane_states(before.table(), before.listed(), Focus::Charts).len() as int;
            &&& rows < high ==> after.chart_page == 1
            &&& rows >= high ==> after.chart_page * high <= rows < (after.chart_page + 1) * high
            &&& count == 0 ==> after.chart_selected == 0 && after.chart_scroll == 0
            &&& before.chart_selected < count ==> after.chart_selected == before.chart_selected
            &&& 0 < count <= before.chart_selected ==> after.chart_selected == count - 1
            &&& count > 0 ==> after.chart_scroll <= after.chart_selected < after.chart_scroll
                + after.chart_page
        }),
{
    let counts = before.counts();
    let nav = before.nav();
    let numeric_height = screen.regions.numeric.height as int;
    let charts_height = screen.regions.charts.height as int;
    panes_show_what_is_counted(before.table(), before.listed());
    panes_hold_the_charts_that_fit(
        charts_height,
        before.chart_height as int,
        nav,
        chart_rows(charts_height, nav.chart_height),
    );
    let first = with_numeric_page(nav, numeric_rows(numeric_height));
    let between = numeric_drawn(nav, counts, numeric_height);
    let second = with_chart_page(between, chart_rows(charts_height, nav.chart_height));
    synced_pane_shows_the_selection(first.numeric, counts.numeric);
    synced_pane_stays(first.numeric, counts.numeric);
    synced_pane_shows_the_selection(first.charts, counts.charts);
    synced_pane_shows_the_selection(second.charts, counts.charts);
    if charts_height >= before.chart_height {
        assert(chart_rows(charts_height, nav.chart_height) >= 1) by (nonlinear_arith)
            requires
                charts_height >= nav.chart_height,
                nav.chart_height > 0,
                chart_rows(charts_height, nav.chart_height) == charts_height / nav.chart_height,
        ;
    }
}

/// The header tells the samples received, the series there are, and the whole seconds between the
/// start of the program and some moment.
pub proof fn header_tells_of_the_program<V: Copy, C, T, X, S>(
    before: App<V>,
    after: App<V>,
    area: Area,
    numbers: Numbers<C, T, X, S>,
    screen: Screen<V>,
) where
    C: Fn(Operation<V>) -> V,
    T: Fn(Test<V>) -> bool,
    X: Fn(V, usize) -> String,
    S: Fn(Duration) -> String,

    requires
        before.draws(after, area, numbers, screen),
    ensures
        exists|moment: Instant, uptime: nat|
            {
                &&& uptime * 1_000_000_000 <= nanos_of(
                    #[trigger] time_between(before.started_at, moment),
                ) < (uptime + 1) * 1_000_000_000
                &&& lines_view(screen.header@) == #[trigger] header_view(
                    before.received as nat,
                    before.metrics.states@.len(),
                    uptime,
                )
            },
{
    let moment = choose|moment: Instant|
        lines_view(screen.header@) == header_view(
            before.received as nat,
            before.listed().len(),
            nanos_of(#[trigger] time_between(before.started_at, moment)) / 1_000_000_000,
        );
    let time = time_between(before.started_at, moment);
    let uptime = nanos_of(time) / 1_000_000_000;
    assert(before.listed().len() == before.metrics.states@.len());
    assert(uptime * 1_000_000_000 <= nanos_of(time) < (uptime + 1) * 1_000_000_000);
    assert(lines_view(screen.header@) == header_view(
        before.received as nat,
        before.metrics.states@.len(),
        uptime,
    ));
}

} // verus!
