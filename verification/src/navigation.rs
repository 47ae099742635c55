//! What the keys do.
use vstd::prelude::*;

use crate::app::{
    chart_count, numeric_count, pane_states, panes_show_what_is_counted, refs_view, App, Focus,
    MAX_CHART_HEIGHT, MIN_CHART_HEIGHT,
};
use crate::metrics::MetricState;
use crate::viewport::{
    distance, in_view, last_row, pane_is_moved_no_further_than_needed, shown_rows, smaller,
    sync_viewport, synced, synced_pane_shows_the_selection, synced_pane_stays, PaneView,
};

verus! {

/// A key of the keyboard.
#[derive(Debug, Clone, Copy, Eq, PartialEq, Structural)]
pub enum Key {
    Enter,
    Esc,
    Tab,
    Left,
    Right,
    Up,
    Down,
    PageUp,
    PageDown,
    Home,
    End,
    Char(char),
    Other,
}

/// What happened to a key.
#[derive(Debug, Clone, Copy, Eq, PartialEq, Structural)]
pub enum KeyAction {
    Press,
    Repeat,
    Release,
}

/// Something that the terminal reports. Only the press of a key is acted on.
#[derive(Debug, Clone, Copy, Eq, PartialEq, Structural)]
pub enum InputEvent {
    Key { action: KeyAction, key: Key, control: bool },
    Other,
}

/// What to ask of the terminal next, or that there is nothing more to ask, and whether to quit.
#[derive(Debug, Clone, Copy, Eq, PartialEq, Structural)]
pub enum InputStep {
    Read,
    Poll,
    Finish { quit: bool },
}

/// Where the user stands: the pane that the keys act on, the place in each of the two, the height of
/// the charts, and whether the details of the selected series are shown.
pub struct NavView {
    pub focus: Focus,
    pub numeric: PaneView,
    pub charts: PaneView,
    pub chart_height: int,
    pub details_open: bool,
}

/// How many series the two panes have to show.
pub struct Counts {
    pub numeric: int,
    pub charts: int,
}

/// The pane that the keys act on.
pub open spec fn focused_pane(nav: NavView) -> PaneView {
    match nav.focus {
        Focus::Numeric => nav.numeric,
        Focus::Charts => nav.charts,
    }
}

/// How many series the pane that the keys act on has to show.
pub open spec fn focused_number(nav: NavView, counts: Counts) -> int {
    match nav.focus {
        Focus::Numeric => counts.numeric,
        Focus::Charts => counts.charts,
    }
}

/// The pane that the keys act on with another row selected.
pub open spec fn with_selected(nav: NavView, row: int) -> NavView {
    match nav.focus {
        Focus::Numeric => NavView { numeric: PaneView { selected: row, ..nav.numeric }, ..nav },
        Focus::Charts => NavView { charts: PaneView { selected: row, ..nav.charts }, ..nav },
    }
}

/// Both panes moved so that they show their selected rows.
pub open spec fn nav_synced(nav: NavView, counts: Counts) -> NavView {
    NavView {
        numeric: synced(nav.numeric, counts.numeric),
        charts: synced(nav.charts, counts.charts),
        ..nav
    }
}

/// The other pane.
pub open spec fn other_focus(focus: Focus) -> Focus {
    match focus {
        Focus::Numeric => Focus::Charts,
        Focus::Charts => Focus::Numeric,
    }
}

/// The selection moved by `delta` rows, but not beyond the ends of the list.
pub open spec fn nav_moved(nav: NavView, counts: Counts, delta: int) -> NavView {
    let count = focused_number(nav, counts);
    let row = focused_pane(nav).selected + delta;
    if count == 0 {
        nav
    } else if delta < 0 {
        nav_synced(
            with_selected(
                nav,
                if row < 0 {
                    0
                } else {
                    row
                },
            ),
            counts,
        )
    } else {
        nav_synced(with_selected(nav, smaller(row, count - 1)), counts)
    }
}

/// The number nearest to `n` that a signed machine word can hold.
pub open spec fn to_word(n: int) -> int {
    if n < isize::MIN {
        isize::MIN as int
    } else if n > isize::MAX {
        isize::MAX as int
    } else {
        n
    }
}

/// The selection moved by so many times the rows that the pane shows.
pub open spec fn nav_paged(nav: NavView, counts: Counts, direction: int) -> NavView {
    nav_moved(nav, counts, to_word(direction * shown_rows(focused_pane(nav).page)))
}

/// The charts made higher by `delta` rows, within their bounds.
pub open spec fn nav_resized(nav: NavView, delta: int) -> NavView {
    let height = nav.chart_height + delta;
    NavView {
        chart_height: if height < MIN_CHART_HEIGHT {
            MIN_CHART_HEIGHT as int
        } else if height > MAX_CHART_HEIGHT {
            MAX_CHART_HEIGHT as int
        } else {
            height
        },
        ..nav
    }
}

/// Whether a key ends the program: `q`, Control and `c`, and Escape where no details are shown.
pub open spec fn quits(details_open: bool, key: Key, control: bool) -> bool {
    ||| key == Key::Char('q')
    ||| key == Key::Char('c') && control
    ||| key == Key::Esc && !details_open
}

/// What a key does. Where details are shown, it can only close them.
pub open spec fn key_effect(nav: NavView, counts: Counts, key: Key, control: bool) -> NavView {
    if nav.details_open {
        NavView { details_open: key != Key::Enter && key != Key::Esc, ..nav }
    } else if quits(false, key, control) {
        nav
    } else {
        match key {
            Key::Enter => NavView {
                details_open: focused_pane(nav).selected < focused_number(nav, counts),
                ..nav
            },
            Key::Tab | Key::Right | Key::Left => NavView { focus: other_focus(nav.focus), ..nav },
            Key::Down | Key::Char('j') => nav_moved(nav, counts, 1),
            Key::Up | Key::Char('k') => nav_moved(nav, counts, -1),
            Key::PageDown => nav_paged(nav, counts, 1),
            Key::PageUp => nav_paged(nav, counts, -1),
            Key::Home => nav_synced(with_selected(nav, 0), counts),
            Key::End => nav_synced(
                with_selected(nav, last_row(focused_number(nav, counts))),
                counts,
            ),
            Key::Char('+') | Key::Char('=') => nav_resized(nav, 1),
            Key::Char('-') | Key::Char('_') => nav_resized(nav, -1),
            _ => nav,
        }
    }
}

/// What to do after the terminal was asked whether it has something to report.
pub open spec fn step_after_poll(ready: bool) -> InputStep {
    if ready {
        InputStep::Read
    } else {
        InputStep::Finish { quit: false }
    }
}

/// What something that the terminal reports does.
pub open spec fn event_effect(nav: NavView, counts: Counts, event: InputEvent) -> NavView {
    match event {
        InputEvent::Key { action: KeyAction::Press, key, control } => key_effect(
            nav,
            counts,
            key,
            control,
        ),
        _ => nav,
    }
}

/// What to do after the terminal has reported something.
pub open spec fn step_after_event(details_open: bool, event: InputEvent) -> InputStep {
    match event {
        InputEvent::Key { action: KeyAction::Press, key, control } if quits(
            details_open,
            key,
            control,
        ) => InputStep::Finish { quit: true },
        _ => InputStep::Poll,
    }
}

/// The product of two numbers, or the nearest to it that a word can hold.
fn product(a: isize, b: isize) -> (n: isize)
    requires
        b > 0,
    ensures
        n == to_word(a * b),
{
    match a.checked_mul(b) {
        Some(n) => n,
        None => {
            if a < 0 {
                assert(a * b <= 0) by (nonlinear_arith)
                    requires
                        a < 0,
                        b > 0,
                ;
                isize::MIN
            } else {
                assert(a * b >= 0) by (nonlinear_arith)
                    requires
                        a >= 0,
                        b > 0,
                ;
                isize::MAX
            }
        },
    }
}

impl<V> App<V> {
    /// Where the user stands.
    pub open spec fn nav(&self) -> NavView {
        NavView {
            focus: self.focus,
            numeric: PaneView {
                scroll: self.numeric_scroll as int,
                selected: self.numeric_selected as int,
                page: self.numeric_page as int,
            },
            charts: PaneView {
                scroll: self.chart_scroll as int,
                selected: self.chart_selected as int,
                page: self.chart_page as int,
            },
            chart_height: self.chart_height as int,
            details_open: self.details_open,
        }
    }

    /// How many series the two panes have to show.
    pub open spec fn counts(&self) -> Counts {
        Counts {
            numeric: numeric_count(self.table(), self.listed()) as int,
            charts: chart_count(self.table(), self.listed()) as int,
        }
    }

    /// Whether two dashboards differ at most in where the user stands.
    pub open spec fn same_data(&self, other: &Self) -> bool {
        &&& self.config == other.config
        &&& self.metrics == other.metrics
        &&& self.metric_config == other.metric_config
        &&& self.zero == other.zero
        &&& self.received == other.received
        &&& self.started_at == other.started_at
    }

    /// Moves both panes so that they show their selected rows.
    pub fn sync_viewports(&mut self)
        requires
            old(self).wf(),
        ensures
            final(self).wf(),
            final(self).same_data(old(self)),
            final(self).nav() == nav_synced(old(self).nav(), old(self).counts()),
    {
        let numeric: usize = self.numeric_metric_count();
        let charts: usize = self.chart_metric_count();
        sync_viewport(
            &mut self.numeric_scroll,
            &mut self.numeric_selected,
            self.numeric_page,
            numeric,
        );
        sync_viewport(&mut self.chart_scroll, &mut self.chart_selected, self.chart_page, charts);
    }

    /// Moves both panes so that they show their selected rows.
    pub fn clamp_scrolls(&mut self)
        requires
            old(self).wf(),
        ensures
            final(self).wf(),
            final(self).same_data(old(self)),
            final(self).nav() == nav_synced(old(self).nav(), old(self).counts()),
    {
        self.sync_viewports();
    }

    /// How many series the pane that the keys act on has to show.
    pub fn focused_count(&self) -> (count: usize)
        ensures
            count == focused_number(self.nav(), self.counts()),
    {
        match self.focus {
            Focus::Numeric => self.numeric_metric_count(),
            Focus::Charts => self.chart_metric_count(),
        }
    }

    /// The selected series of the pane that the keys act on.
    pub fn selected_metric(&self) -> (metric: Option<&MetricState<V>>)
        ensures
            ({
                let shown = pane_states(self.table(), self.listed(), self.focus);
                let row = focused_pane(self.nav()).selected;
                match metric {
                    Some(state) => row < shown.len() && state@ == shown[row],
                    None => row >= shown.len(),
                }
            }),
    {
        let row: usize = match self.focus {
            Focus::Numeric => self.numeric_selected,
            Focus::Charts => self.chart_selected,
        };
        let shown: Vec<&MetricState<V>> = self.pane_metrics(self.focus);
        assert(refs_view(shown@).len() == shown@.len());
        if row < shown.len() {
            assert(refs_view(shown@)[row as int] == shown@[row as int]@);
            Some(shown[row])
        } else {
            None
        }
    }

    /// Makes the keys act on the other pane.
    pub fn toggle_focus(&mut self)
        requires
            old(self).wf(),
        ensures
            final(self).wf(),
            final(self).same_data(old(self)),
            final(self).nav() == (NavView { focus: other_focus(old(self).focus), ..old(self).nav() }),
    {
        self.focus = match self.focus {
            Focus::Numeric => Focus::Charts,
            Focus::Charts => Focus::Numeric,
        };
    }

    /// Selects another row of the pane that the keys act on.
    fn select(&mut self, row: usize)
        requires
            old(self).wf(),
        ensures
            final(self).wf(),
            final(self).same_data(old(self)),
            final(self).nav() == nav_synced(
                with_selected(old(self).nav(), row as int),
                old(self).counts(),
            ),
    {
        match self.focus {
            Focus::Numeric => {
                self.numeric_selected = row;
            },
            Focus::Charts => {
                self.chart_selected = row;
            },
        }
        self.sync_viewports();
    }

    /// Moves the selection by `delta` rows, but not beyond the ends of the list.
    pub fn move_selected(&mut self, delta: isize)
        requires
            old(self).wf(),
        ensures
            final(self).wf(),
            final(self).same_data(old(self)),
            final(self).nav() == nav_moved(old(self).nav(), old(self).counts(), delta as int),
    {
        let count: usize = self.focused_count();
        if count == 0 {
            return ;
        }
        let row: usize = match self.focus {
            Focus::Numeric => self.numeric_selected,
            Focus::Charts => self.chart_selected,
        };
        if delta < 0 {
            let distance: usize = if delta == isize::MIN {
                isize::MAX as usize + 1
            } else {
                (-delta) as usize
            };
            self.select(row.saturating_sub(distance));
        } else {
            self.select(row.saturating_add(delta as usize).min(count - 1));
        }
    }

    /// Moves the selection by so many times the rows that the pane shows.
    pub fn page_focused(&mut self, direction: isize)
        requires
            old(self).wf(),
        ensures
            final(self).wf(),
            final(self).same_data(old(self)),
            final(self).nav() == nav_paged(old(self).nav(), old(self).counts(), direction as int),
    {
        let page: usize = match self.focus {
            Focus::Numeric => self.numeric_page,
            Focus::Charts => self.chart_page,
        };
        let rows: usize = page.max(1);
        self.move_selected(product(direction, rows as isize));
    }

    /// Makes the charts higher by `delta` rows, within their bounds.
    pub fn resize_charts(&mut self, delta: i16)
        requires
            old(self).wf(),
            old(self).chart_height + delta <= i16::MAX,
        ensures
            final(self).wf(),
            final(self).same_data(old(self)),
            final(self).nav() == nav_resized(old(self).nav(), delta as int),
    {
        let height: i16 = self.chart_height as i16 + delta;
        self.chart_height = if height < MIN_CHART_HEIGHT as i16 {
            MIN_CHART_HEIGHT
        } else if height > MAX_CHART_HEIGHT as i16 {
            MAX_CHART_HEIGHT
        } else {
            height as u16
        };
    }

    /// Selects the first row.
    pub fn select_start(&mut self)
        requires
            old(self).wf(),
        ensures
            final(self).wf(),
            final(self).same_data(old(self)),
            final(self).nav() == nav_synced(with_selected(old(self).nav(), 0), old(self).counts()),
    {
        self.select(0);
    }

    /// Selects the last row.
    pub fn select_end(&mut self)
        requires
            old(self).wf(),
        ensures
            final(self).wf(),
            final(self).same_data(old(self)),
            final(self).nav() == nav_synced(
                with_selected(
                    old(self).nav(),
                    last_row(focused_number(old(self).nav(), old(self).counts())),
                ),
                old(self).counts(),
            ),
    {
        let count: usize = self.focused_count();
        self.select(count.saturating_sub(1));
    }

    /// Does what a key does, and says whether it ends the program. `control` says whether the
    /// Control key is held down.
    pub fn handle_key(&mut self, key: Key, control: bool) -> (quit: bool)
        requires
            old(self).wf(),
        ensures
            final(self).wf(),
            final(self).same_data(old(self)),
            quit == quits(old(self).details_open, key, control),
            final(self).nav() == key_effect(old(self).nav(), old(self).counts(), key, control),
    {
        if self.details_open {
            if key == Key::Enter || key == Key::Esc {
                self.details_open = false;
                return false;
            }
            return key == Key::Char('q') || (key == Key::Char('c') && control);
        }
        if key == Key::Char('q') || key == Key::Esc || (key == Key::Char('c') && control) {
            return true;
        }
        match key {
            Key::Enter => {
                proof {
                    panes_show_what_is_counted(self.table(), self.listed());
                }
                self.details_open = self.selected_metric().is_some();
            },
            Key::Tab | Key::Right | Key::Left => self.toggle_focus(),
            Key::Down | Key::Char('j') => self.move_selected(1),
            Key::Up | Key::Char('k') => self.move_selected(-1),
            Key::PageDown => self.page_focused(1),
            Key::PageUp => self.page_focused(-1),
            Key::Home => self.select_start(),
            Key::End => self.select_end(),
            Key::Char('+') | Key::Char('=') => self.resize_charts(1),
            Key::Char('-') | Key::Char('_') => self.resize_charts(-1),
            _ => (),
        }
        false
    }

    /// What to do after the terminal was asked whether it has something to report.
    pub fn after_poll(ready: bool) -> (step: InputStep)
        ensures
            step == step_after_poll(ready),
    {
        if ready {
            InputStep::Read
        } else {
            InputStep::Finish { quit: false }
        }
    }

    /// Acts on what the terminal reports, and says what to do next.
    pub fn handle_event(&mut self, event: InputEvent) -> (step: InputStep)
        requires
            old(self).wf(),
        ensures
            final(self).wf(),
            final(self).same_data(old(self)),
            final(self).nav() == event_effect(old(self).nav(), old(self).counts(), event),
            step == step_after_event(old(self).details_open, event),
    {
        if let InputEvent::Key { action: KeyAction::Press, key, control } = event {
            if self.handle_key(key, control) {
                return InputStep::Finish { quit: true };
            }
        }
        InputStep::Poll
    }
}

/// Whether both panes show their selected rows and leave no room unused, and the selected series is
/// there where its details are shown.
pub open spec fn nav_in_view(nav: NavView, counts: Counts) -> bool {
    &&& in_view(nav.numeric, counts.numeric)
    &&& in_view(nav.charts, counts.charts)
    &&& nav.details_open ==> focused_pane(nav).selected < focused_number(nav, counts)
}

proof fn lemma_selected_in_view(nav: NavView, counts: Counts, row: int)
    requires
        counts.numeric >= 0,
        counts.charts >= 0,
        nav_in_view(nav, counts),
        !nav.details_open,
        row >= 0,
    ensures
        nav_in_view(nav_synced(with_selected(nav, row), counts), counts),
{
    synced_pane_shows_the_selection(with_selected(nav, row).numeric, counts.numeric);
    synced_pane_shows_the_selection(with_selected(nav, row).charts, counts.charts);
}

proof fn lemma_moved_in_view(nav: NavView, counts: Counts, delta: int)
    requires
        counts.numeric >= 0,
        counts.charts >= 0,
        nav_in_view(nav, counts),
        !nav.details_open,
    ensures
        nav_in_view(nav_moved(nav, counts, delta), counts),
{
    let count = focused_number(nav, counts);
    let row = focused_pane(nav).selected + delta;
    if count != 0 && delta < 0 {
        lemma_selected_in_view(
            nav,
            counts,
            if row < 0 {
                0
            } else {
                row
            },
        );
    } else if count != 0 {
        lemma_selected_in_view(nav, counts, smaller(row, count - 1));
    }
}

/// Whatever key is pressed, both panes go on showing their selected rows, details are shown only of
/// a series that is there, and the height of the charts stays within its bounds.
pub proof fn keys_keep_the_selection_in_view(
    nav: NavView,
    counts: Counts,
    key: Key,
    control: bool,
)
    requires
        counts.numeric >= 0,
        counts.charts >= 0,
        nav_in_view(nav, counts),
        MIN_CHART_HEIGHT <= nav.chart_height <= MAX_CHART_HEIGHT,
    ensures
        nav_in_view(key_effect(nav, counts, key, control), counts),
        MIN_CHART_HEIGHT <= key_effect(nav, counts, key, control).chart_height <= MAX_CHART_HEIGHT,
{
    let rows = shown_rows(focused_pane(nav).page);
    if !nav.details_open && !quits(false, key, control) {
        match key {
            Key::Down | Key::Char('j') => lemma_moved_in_view(nav, counts, 1),
            Key::Up | Key::Char('k') => lemma_moved_in_view(nav, counts, -1),
            Key::PageDown => lemma_moved_in_view(nav, counts, to_word(1 * rows)),
            Key::PageUp => lemma_moved_in_view(nav, counts, to_word(-1 * rows)),
            Key::Home => lemma_selected_in_view(nav, counts, 0),
            Key::End => lemma_selected_in_view(
                nav,
                counts,
                last_row(focused_number(nav, counts)),
            ),
            _ => (),
        }
    }
}

/// The pane that the keys do not act on stays as it is, if it shows its selected row.
pub proof fn keys_leave_the_other_pane(nav: NavView, counts: Counts, key: Key, control: bool)
    requires
        counts.numeric >= 0,
        counts.charts >= 0,
        nav_in_view(nav, counts),
    ensures
        nav.focus == Focus::Numeric ==> key_effect(nav, counts, key, control).charts == nav.charts,
        nav.focus == Focus::Charts ==> key_effect(nav, counts, key, control).numeric == nav.numeric,
{
    synced_pane_stays(nav.numeric, counts.numeric);
    synced_pane_stays(nav.charts, counts.charts);
}

/// Each of the keys that change panes undoes itself and the others.
pub proof fn changing_panes_twice_leads_back(nav: NavView, counts: Counts, first: Key, second: Key)
    requires
        !nav.details_open,
        first == Key::Tab || first == Key::Left || first == Key::Right,
        second == Key::Tab || second == Key::Left || second == Key::Right,
    ensures
        key_effect(key_effect(nav, counts, first, false), counts, second, false) == nav,
{
}

/// Enter shows the details of the selected series where there is one. They are closed by Enter and
/// by Escape, and everything is as before.
pub proof fn details_are_opened_and_closed(nav: NavView, counts: Counts, close: Key)
    requires
        !nav.details_open,
        close == Key::Enter || close == Key::Esc,
    ensures
        key_effect(nav, counts, Key::Enter, false).details_open <==> focused_pane(nav).selected
            < focused_number(nav, counts),
        focused_pane(nav).selected < focused_number(nav, counts) ==> key_effect(
            key_effect(nav, counts, Key::Enter, false),
            counts,
            close,
            false,
        ) == nav,
        !quits(true, close, false),
{
}

/// Where details are shown, no key does anything but close them or end the program.
pub proof fn open_details_hold_the_keys(nav: NavView, counts: Counts, key: Key, control: bool)
    requires
        nav.details_open,
    ensures
        key == Key::Enter || key == Key::Esc ==> key_effect(nav, counts, key, control) == (NavView {
            details_open: false,
            ..nav
        }),
        key != Key::Enter && key != Key::Esc ==> key_effect(nav, counts, key, control) == nav,
{
}

/// One row down and one row up, in this order, lead back to the selected row where there is a next
/// one; and in the other order where there is one before.
pub proof fn down_and_up_lead_back(nav: NavView, counts: Counts)
    requires
        !nav.details_open,
        0 <= focused_pane(nav).selected < focused_number(nav, counts),
    ensures
        focused_pane(nav).selected + 1 < focused_number(nav, counts) ==> focused_pane(
            key_effect(key_effect(nav, counts, Key::Down, false), counts, Key::Up, false),
        ).selected == focused_pane(nav).selected,
        focused_pane(nav).selected > 0 ==> focused_pane(
            key_effect(key_effect(nav, counts, Key::Up, false), counts, Key::Down, false),
        ).selected == focused_pane(nav).selected,
{
}

/// Home selects the first series and End the last.
pub proof fn home_and_end_reach_the_ends(nav: NavView, counts: Counts)
    requires
        !nav.details_open,
        counts.numeric >= 0,
        counts.charts >= 0,
    ensures
        focused_pane(key_effect(nav, counts, Key::Home, false)).selected == 0,
        focused_pane(key_effect(nav, counts, Key::End, false)).selected == last_row(
            focused_number(nav, counts),
        ),
{
}

/// Making the charts higher and then lower leads back, unless they were as high as can be; and the
/// other way round.
pub proof fn resizing_leads_back(nav: NavView, counts: Counts)
    requires
        !nav.details_open,
        MIN_CHART_HEIGHT <= nav.chart_height <= MAX_CHART_HEIGHT,
    ensures
        nav.chart_height < MAX_CHART_HEIGHT ==> key_effect(
            key_effect(nav, counts, Key::Char('+'), false),
            counts,
            Key::Char('-'),
            false,
        ) == nav,
        nav.chart_height > MIN_CHART_HEIGHT ==> key_effect(
            key_effect(nav, counts, Key::Char('-'), false),
            counts,
            Key::Char('+'),
            false,
        ) == nav,
{
}

/// Where the user stands is what the fields of the dashboard say, and two dashboards with the same
/// data agree in all other fields.
pub proof fn standing_is_held_by_the_fields<V>(app: App<V>, other: App<V>)
    ensures
        app.nav().focus == app.focus,
        app.nav().numeric.scroll == app.numeric_scroll,
        app.nav().numeric.selected == app.numeric_selected,
        app.nav().numeric.page == app.numeric_page,
        app.nav().charts.scroll == app.chart_scroll,
        app.nav().charts.selected == app.chart_selected,
        app.nav().charts.page == app.chart_page,
        app.nav().chart_height == app.chart_height,
        app.nav().details_open == app.details_open,
        app.counts().numeric == pane_states(app.table(), app.listed(), Focus::Numeric).len(),
        app.counts().charts == pane_states(app.table(), app.listed(), Focus::Charts).len(),
        app.same_data(&other) ==> app.config == other.config && app.metrics == other.metrics
            && app.metric_config == other.metric_config && app.zero == other.zero && app.received
            == other.received && app.started_at == other.started_at,
        app.wf() ==> 6 <= app.chart_height <= 24,
{
    panes_show_what_is_counted(app.table(), app.listed());
}

/// The row that is selected in the pane that the keys act on.
pub open spec fn row_in_focus(nav: NavView) -> int {
    if nav.focus == Focus::Charts {
        nav.charts.selected
    } else {
        nav.numeric.selected
    }
}

/// The first row shown in the pane that the keys act on.
pub open spec fn top_in_focus(nav: NavView) -> int {
    if nav.focus == Focus::Charts {
        nav.charts.scroll
    } else {
        nav.numeric.scroll
    }
}

/// The rows that the pane that the keys act on shows at a time.
pub open spec fn rows_in_focus(nav: NavView) -> int {
    if nav.focus == Focus::Charts {
        nav.charts.page
    } else {
        nav.numeric.page
    }
}

/// The rows in the list of the pane that the keys act on.
pub open spec fn count_in_focus(nav: NavView, counts: Counts) -> int {
    if nav.focus == Focus::Charts {
        counts.charts
    } else {
        counts.numeric
    }
}

/// The same standing with another place in the pane that the keys do not act on.
pub open spec fn elsewhere_in_the_other_pane(nav: NavView, place: PaneView) -> NavView {
    if nav.focus == Focus::Charts {
        NavView { numeric: place, ..nav }
    } else {
        NavView { charts: place, ..nav }
    }
}

/// Whether a number lies nearest to `n` of all between two others.
pub open spec fn is_nearest_within(result: int, n: int, low: int, high: int) -> bool {
    &&& low <= result <= high
    &&& low <= n <= high ==> result == n
    &&& n < low ==> result == low
    &&& n > high ==> result == high
}

/// Moving the selection by so many rows selects the row that many further down, or up where the
/// number is negative, as far as the list goes.
pub proof fn selection_moves_by_so_many_rows(nav: NavView, counts: Counts, delta: int)
    requires
        0 <= row_in_focus(nav) < count_in_focus(nav, counts),
    ensures
        is_nearest_within(
            row_in_focus(nav_moved(nav, counts, delta)),
            row_in_focus(nav) + delta,
            0,
            count_in_focus(nav, counts) - 1,
        ),
        nav_moved(nav, counts, delta).focus == nav.focus,
        nav_moved(nav, counts, delta).chart_height == nav.chart_height,
        nav_moved(nav, counts, delta).details_open == nav.details_open,
{
}

/// A selection in an empty list does not move.
pub proof fn nothing_moves_in_an_empty_list(nav: NavView, counts: Counts, delta: int)
    requires
        count_in_focus(nav, counts) == 0,
    ensures
        nav_moved(nav, counts, delta) == nav,
{
}

/// Paging moves the selection by so many times the rows that its own pane shows, at least one, as
/// far as the list goes; what the other pane shows, or where it stands, makes no difference to it.
pub proof fn paging_moves_by_the_rows_of_the_pane(
    nav: NavView,
    counts: Counts,
    direction: int,
    place: PaneView,
)
    requires
        0 <= row_in_focus(nav) < count_in_focus(nav, counts),
        1 <= rows_in_focus(nav),
        isize::MIN <= direction * rows_in_focus(nav) <= isize::MAX,
    ensures
        is_nearest_within(
            row_in_focus(nav_paged(nav, counts, direction)),
            row_in_focus(nav) + direction * rows_in_focus(nav),
            0,
            count_in_focus(nav, counts) - 1,
        ),
        row_in_focus(nav_paged(elsewhere_in_the_other_pane(nav, place), counts, direction))
            == row_in_focus(nav_paged(nav, counts, direction)),
        top_in_focus(nav_paged(elsewhere_in_the_other_pane(nav, place), counts, direction))
            == top_in_focus(nav_paged(nav, counts, direction)),
{
    selection_moves_by_so_many_rows(nav, counts, direction * rows_in_focus(nav));
}

/// The page keys move the selection of the pane that they act on by the rows that this pane shows,
/// at least one, down and up, as far as the list goes. What the other pane shows makes no
/// difference.
pub proof fn page_keys_move_by_the_rows_of_the_pane(
    nav: NavView,
    counts: Counts,
    control: bool,
    place: PaneView,
)
    requires
        !nav.details_open,
        0 <= row_in_focus(nav) < count_in_focus(nav, counts),
        0 <= rows_in_focus(nav) <= isize::MAX,
    ensures
        ({
            let rows = if rows_in_focus(nav) < 1 {
                1
            } else {
                rows_in_focus(nav)
            };
            let last = count_in_focus(nav, counts) - 1;
            let down = key_effect(nav, counts, Key::PageDown, control);
            let up = key_effect(nav, counts, Key::PageUp, control);
            let elsewhere = elsewhere_in_the_other_pane(nav, place);
            &&& is_nearest_within(row_in_focus(down), row_in_focus(nav) + rows, 0, last)
            &&& is_nearest_within(row_in_focus(up), row_in_focus(nav) - rows, 0, last)
            &&& row_in_focus(key_effect(elsewhere, counts, Key::PageDown, control))
                == row_in_focus(down)
            &&& row_in_focus(key_effect(elsewhere, counts, Key::PageUp, control)) == row_in_focus(
                up,
            )
        }),
{
}

/// The arrow keys, `j` and `k` move the selection of the pane that they act on by one row, as far
/// as the list goes, and Home and End select its first and its last row.
pub proof fn arrow_keys_move_by_one_row(nav: NavView, counts: Counts, control: bool)
    requires
        !nav.details_open,
        0 <= row_in_focus(nav) < count_in_focus(nav, counts),
    ensures
        ({
            let last = count_in_focus(nav, counts) - 1;
            let row = row_in_focus(nav);
            &&& is_nearest_within(
                row_in_focus(key_effect(nav, counts, Key::Down, control)),
                row + 1,
                0,
                last,
            )
            &&& is_nearest_within(
                row_in_focus(key_effect(nav, counts, Key::Char('j'), control)),
                row + 1,
                0,
                last,
            )
            &&& is_nearest_within(
                row_in_focus(key_effect(nav, counts, Key::Up, control)),
                row - 1,
                0,
                last,
            )
            &&& is_nearest_within(
                row_in_focus(key_effect(nav, counts, Key::Char('k'), control)),
                row - 1,
                0,
                last,
            )
            &&& row_in_focus(key_effect(nav, counts, Key::Home, control)) == 0
            &&& row_in_focus(key_effect(nav, counts, Key::End, control)) == last
        }),
{
}

/// Whether a key moves the selection.
pub open spec fn is_moving_key(key: Key) -> bool {
    ||| key == Key::Down || key == Key::Up || key == Key::Char('j') || key == Key::Char('k')
    ||| key == Key::PageDown || key == Key::PageUp || key == Key::Home || key == Key::End
}

/// Whether a pane that starts at `top` and shows so many rows, at least one, shows a row of a list
/// and leaves no room unused that it could fill.
pub open spec fn shows_row(top: int, rows: int, row: int, count: int) -> bool {
    let shown = if rows < 1 {
        1
    } else {
        rows
    };
    &&& 0 <= top <= row < top + shown
    &&& top == 0 || top + shown <= count
}

proof fn lemma_moving_key_selects(nav: NavView, counts: Counts, key: Key, control: bool) -> (row: int)
    requires
        !nav.details_open,
        is_moving_key(key),
        0 <= row_in_focus(nav) < count_in_focus(nav, counts),
    ensures
        0 <= row < count_in_focus(nav, counts),
        key_effect(nav, counts, key, control) == nav_synced(with_selected(nav, row), counts),
{
    let count = focused_number(nav, counts);
    let rows = shown_rows(focused_pane(nav).page);
    let delta = match key {
        Key::Down | Key::Char('j') => 1,
        Key::Up | Key::Char('k') => -1,
        Key::PageDown => to_word(1 * rows),
        Key::PageUp => to_word(-1 * rows),
        _ => 0,
    };
    let moved = focused_pane(nav).selected + delta;
    match key {
        Key::Home => 0,
        Key::End => count - 1,
        _ => if delta < 0 {
            if moved < 0 {
                0
            } else {
                moved
            }
        } else {
            smaller(moved, count - 1)
        },
    }
}

/// A key that moves the selection leaves the pane showing it, without room unused, and moves the
/// pane no further than that takes. It changes no page, no height, not the pane that keys act on,
/// and opens no details; and it leaves the other pane alone, if that one shows its row.
pub proof fn moving_keys_keep_the_row_shown(
    nav: NavView,
    counts: Counts,
    key: Key,
    control: bool,
    top: int,
)
    requires
        !nav.details_open,
        is_moving_key(key),
        0 <= row_in_focus(nav) < count_in_focus(nav, counts),
        0 <= top_in_focus(nav),
    ensures
        ({
            let after = key_effect(nav, counts, key, control);
            let count = count_in_focus(nav, counts);
            &&& shows_row(top_in_focus(after), rows_in_focus(after), row_in_focus(after), count)
            &&& shows_row(top, rows_in_focus(after), row_in_focus(after), count) ==> distance(
                top_in_focus(after),
                top_in_focus(nav),
            ) <= distance(top, top_in_focus(nav))
            &&& after.focus == nav.focus
            &&& after.numeric.page == nav.numeric.page && after.charts.page == nav.charts.page
            &&& after.chart_height == nav.chart_height
            &&& !after.details_open
            &&& nav.focus == Focus::Charts && 0 <= nav.numeric.selected < counts.numeric
                && shows_row(
                nav.numeric.scroll,
                nav.numeric.page,
                nav.numeric.selected,
                counts.numeric,
            ) ==> after.numeric == nav.numeric
            &&& nav.focus == Focus::Numeric && 0 <= nav.charts.selected < counts.charts
                && shows_row(
                nav.charts.scroll,
                nav.charts.page,
                nav.charts.selected,
                counts.charts,
            ) ==> after.charts == nav.charts
        }),
{
    let row = lemma_moving_key_selects(nav, counts, key, control);
    let count = count_in_focus(nav, counts);
    let pane = focused_pane(with_selected(nav, row));
    synced_pane_shows_the_selection(pane, count);
    if shows_row(top, pane.page, row, count) {
        pane_is_moved_no_further_than_needed(pane, count, top);
    }
}

/// The keys that change panes change the pane that keys act on and nothing else. The keys that
/// change the height of the charts make it one row more or less, between 6 and 24, and change
/// nothing else.
pub proof fn pane_and_height_keys_change_nothing_else(nav: NavView, counts: Counts, control: bool)
    requires
        !nav.details_open,
        6 <= nav.chart_height <= 24,
    ensures
        forall|key: Key|
            key == Key::Tab || key == Key::Left || key == Key::Right ==> #[trigger] key_effect(
                nav,
                counts,
                key,
                control,
            ) == (NavView {
                focus: if nav.focus == Focus::Numeric {
                    Focus::Charts
                } else {
                    Focus::Numeric
                },
                ..nav
            }),
        forall|key: Key|
            key == Key::Char('+') || key == Key::Char('=') ==> #[trigger] key_effect(
                nav,
                counts,
                key,
                control,
            ) == (NavView {
                chart_height: if nav.chart_height == 24 {
                    24
                } else {
                    nav.chart_height + 1
                },
                ..nav
            }),
        forall|key: Key|
            key == Key::Char('-') || key == Key::Char('_') ==> #[trigger] key_effect(
                nav,
                counts,
                key,
                control,
            ) == (NavView {
                chart_height: if nav.chart_height == 6 {
                    6
                } else {
                    nav.chart_height - 1
                },
                ..nav
            }),
{
}

/// However the height of the charts is to change, it lands between 6 and 24, and nearest to where
/// it was to go; nothing else changes.
pub proof fn heights_stay_between_six_and_twenty_four(nav: NavView, delta: int)
    ensures
        is_nearest_within(nav_resized(nav, delta).chart_height, nav.chart_height + delta, 6, 24),
        nav_resized(nav, delta) == (NavView {
            chart_height: nav_resized(nav, delta).chart_height,
            ..nav
        }),
{
}

/// Enter opens the details if and only if a series is selected in the pane that the keys act on,
/// and changes nothing else.
pub proof fn enter_opens_the_details_of_a_series(nav: NavView, counts: Counts, control: bool)
    requires
        !nav.details_open,
    ensures
        key_effect(nav, counts, Key::Enter, control) == (NavView {
            details_open: row_in_focus(nav) < count_in_focus(nav, counts),
            ..nav
        }),
{
}

/// Any other key does nothing, and Control makes a difference to none.
pub proof fn other_keys_do_nothing(nav: NavView, counts: Counts, key: Key, control: bool)
    requires
        !nav.details_open,
        !is_moving_key(key),
        key != Key::Tab && key != Key::Left && key != Key::Right && key != Key::Enter,
        key != Key::Char('+') && key != Key::Char('=') && key != Key::Char('-') && key != Key::Char(
            '_',
        ),
    ensures
        key_effect(nav, counts, key, control) == nav,
        !quits(false, key, control) <==> key != Key::Char('q') && key != Key::Esc && !(key
            == Key::Char('c') && control),
{
}

/// What a key does does not depend on Control, and neither does whether it ends the program, but
/// for `c`.
pub proof fn control_matters_for_one_key(
    nav: NavView,
    counts: Counts,
    details_open: bool,
    key: Key,
)
    ensures
        key_effect(nav, counts, key, true) == key_effect(nav, counts, key, false),
        key != Key::Char('c') ==> (quits(details_open, key, true) <==> quits(
            details_open,
            key,
            false,
        )),
        quits(details_open, Key::Char('c'), true),
        !quits(details_open, Key::Char('c'), false),
{
}

/// `q` ends the program, and Escape does where no details are open; no key does that moves the
/// selection, changes panes or heights, or opens or closes details.
pub proof fn few_keys_end_the_program(details_open: bool, key: Key, control: bool)
    ensures
        quits(details_open, Key::Char('q'), control),
        quits(details_open, Key::Esc, control) <==> !details_open,
        key != Key::Char('q') && key != Key::Esc && key != Key::Char('c') ==> !quits(
            details_open,
            key,
            control,
        ),
{
}

/// Only the press of a key does something, namely what the key does, and only it can end the
/// program. After anything else, and after a key that does not end it, the terminal is asked for
/// more; and what it has is read as long as it has something.
pub proof fn only_presses_of_keys_count(
    nav: NavView,
    counts: Counts,
    event: InputEvent,
    ready: bool,
)
    ensures
        match event {
            InputEvent::Key { action, key, control } => if action == KeyAction::Press {
                &&& event_effect(nav, counts, event) == key_effect(nav, counts, key, control)
                &&& quits(nav.details_open, key, control) ==> step_after_event(
                    nav.details_open,
                    event,
                ) == (InputStep::Finish { quit: true })
                &&& !quits(nav.details_open, key, control) ==> step_after_event(
                    nav.details_open,
                    event,
                ) == InputStep::Poll
            } else {
                event_effect(nav, counts, event) == nav && step_after_event(
                    nav.details_open,
                    event,
                ) == InputStep::Poll
            },
            InputEvent::Other => event_effect(nav, counts, event) == nav && step_after_event(
                nav.details_open,
                event,
            ) == InputStep::Poll,
        },
        ready ==> step_after_poll(ready) == InputStep::Read,
        !ready ==> step_after_poll(ready) == (InputStep::Finish { quit: false }),
{
}

} // verus!
