use std::time::Instant;

use spinal_tap::app::{App, Focus};
use spinal_tap::config::{Config, MetricConfig, MetricDisplay, MetricKindConfig, MetricView};
use spinal_tap::dogstatsd::{MetricKind, Sample};
use spinal_tap::navigation::{InputEvent, InputStep, Key, KeyAction};
use spinal_tap::numbers::Operation;
use spinal_tap::viewport::sync_viewport;

fn sum(operation: Operation<f64>) -> f64 {
    match operation {
        Operation::Plus(a, b) => a + b,
        other => panic!("{other:?}"),
    }
}

fn board(numeric: usize, charts: usize) -> App<f64> {
    let mut config = Config::default();
    let mut names = Vec::new();
    for index in 0..numeric {
        names.push((format!("n{index:03}"), MetricView::Numeric));
    }
    for index in 0..charts {
        names.push((format!("c{index:03}"), MetricView::Chart));
    }
    for (name, view) in &names {
        config.metrics.push(MetricConfig {
            name: name.clone(),
            view: *view,
            kind: MetricKindConfig::Auto,
            display: MetricDisplay::Default,
            unit: String::new(),
        });
    }
    let mut app = App::new(config, 0.0);
    for (name, _) in names {
        app.record(
            Sample {
                name,
                value: 1.0,
                kind: MetricKind::Gauge,
                tags: vec![],
                received_at: Instant::now(),
            },
            &sum,
        );
    }
    app
}

fn press(app: &mut App<f64>, key: Key) {
    assert!(!app.handle_key(key, false));
}

#[test]
fn a_viewport_follows_the_selection() {
    let synced = |scroll: usize, selected: usize, page: usize, count: usize| {
        let (mut scroll, mut selected) = (scroll, selected);
        sync_viewport(&mut scroll, &mut selected, page, count);
        (scroll, selected)
    };
    assert_eq!(synced(7, 9, 5, 0), (0, 0));
    assert_eq!(synced(0, 0, 5, 20), (0, 0));
    assert_eq!(synced(0, 5, 5, 20), (1, 5));
    assert_eq!(synced(0, 19, 5, 20), (15, 19));
    assert_eq!(synced(0, 99, 5, 20), (15, 19));
    assert_eq!(synced(10, 3, 5, 20), (3, 3));
    assert_eq!(synced(18, 19, 5, 20), (15, 19));
    assert_eq!(synced(3, 3, 5, 4), (0, 3));
    assert_eq!(synced(0, 2, 0, 4), (2, 2));
    assert_eq!(synced(usize::MAX, usize::MAX, usize::MAX, 3), (0, 2));
    assert_eq!(synced(usize::MAX, usize::MAX, 1, usize::MAX), (usize::MAX - 1, usize::MAX - 1));
}

#[test]
fn arrows_move_the_selection_within_the_list() {
    let mut app = board(3, 0);
    press(&mut app, Key::Up);
    assert_eq!(app.numeric_selected, 0);
    press(&mut app, Key::Down);
    press(&mut app, Key::Char('j'));
    assert_eq!(app.numeric_selected, 2);
    press(&mut app, Key::Down);
    assert_eq!(app.numeric_selected, 2);
    assert_eq!(app.numeric_scroll, 2);
    press(&mut app, Key::Char('k'));
    assert_eq!(app.numeric_selected, 1);
    press(&mut app, Key::Down);
    press(&mut app, Key::Up);
    assert_eq!(app.numeric_selected, 1);
}

#[test]
fn pages_are_as_long_as_the_pane() {
    let mut app = board(30, 0);
    app.numeric_page = 7;
    press(&mut app, Key::PageDown);
    assert_eq!((app.numeric_scroll, app.numeric_selected), (1, 7));
    press(&mut app, Key::PageDown);
    assert_eq!((app.numeric_scroll, app.numeric_selected), (8, 14));
    press(&mut app, Key::PageUp);
    assert_eq!((app.numeric_scroll, app.numeric_selected), (7, 7));
    app.page_focused(isize::MAX);
    assert_eq!((app.numeric_scroll, app.numeric_selected), (23, 29));
    app.page_focused(isize::MIN);
    assert_eq!((app.numeric_scroll, app.numeric_selected), (0, 0));
    app.move_selected(isize::MAX);
    assert_eq!(app.numeric_selected, 29);
    app.move_selected(isize::MIN);
    assert_eq!(app.numeric_selected, 0);
    app.numeric_page = 0;
    press(&mut app, Key::PageDown);
    assert_eq!(app.numeric_selected, 1);
}

#[test]
fn home_and_end_select_the_first_and_the_last() {
    let mut app = board(10, 4);
    app.numeric_page = 4;
    press(&mut app, Key::End);
    assert_eq!((app.numeric_scroll, app.numeric_selected), (6, 9));
    press(&mut app, Key::Home);
    assert_eq!((app.numeric_scroll, app.numeric_selected), (0, 0));
    press(&mut app, Key::Tab);
    press(&mut app, Key::End);
    assert_eq!(app.chart_selected, 3);
    assert_eq!(app.numeric_selected, 0);
    press(&mut app, Key::Home);
    assert_eq!(app.chart_selected, 0);
}

#[test]
fn keys_act_on_the_focused_pane() {
    let mut app = board(5, 5);
    press(&mut app, Key::Right);
    assert_eq!(app.focus, Focus::Charts);
    press(&mut app, Key::Down);
    assert_eq!((app.numeric_selected, app.chart_selected), (0, 1));
    press(&mut app, Key::Left);
    assert_eq!(app.focus, Focus::Numeric);
    press(&mut app, Key::Down);
    press(&mut app, Key::Down);
    assert_eq!((app.numeric_selected, app.chart_selected), (2, 1));
    press(&mut app, Key::Tab);
    press(&mut app, Key::Tab);
    assert_eq!(app.focus, Focus::Numeric);
}

#[test]
fn an_empty_list_has_nothing_to_select() {
    let mut app = board(0, 0);
    for key in [Key::Down, Key::Up, Key::PageDown, Key::PageUp, Key::Home, Key::End, Key::Enter] {
        press(&mut app, key);
        assert_eq!((app.numeric_selected, app.numeric_scroll), (0, 0));
        assert!(!app.details_open);
    }
}

#[test]
fn charts_are_resized_within_bounds() {
    let mut app = board(0, 0);
    press(&mut app, Key::Char('+'));
    assert_eq!(app.chart_height, 10);
    press(&mut app, Key::Char('='));
    assert_eq!(app.chart_height, 11);
    press(&mut app, Key::Char('-'));
    press(&mut app, Key::Char('_'));
    assert_eq!(app.chart_height, 9);
    for _ in 0..40 {
        press(&mut app, Key::Char('+'));
    }
    assert_eq!(app.chart_height, 24);
    for _ in 0..40 {
        press(&mut app, Key::Char('-'));
    }
    assert_eq!(app.chart_height, 6);
    app.resize_charts(30_000);
    assert_eq!(app.chart_height, 24);
    app.resize_charts(i16::MIN);
    assert_eq!(app.chart_height, 6);
}

#[test]
fn details_open_on_a_series_and_close_again() {
    let mut app = board(2, 0);
    press(&mut app, Key::Enter);
    assert!(app.details_open);
    press(&mut app, Key::Down);
    press(&mut app, Key::Tab);
    press(&mut app, Key::Char('+'));
    assert!(app.details_open);
    assert_eq!((app.numeric_selected, app.focus, app.chart_height), (0, Focus::Numeric, 9));
    press(&mut app, Key::Esc);
    assert!(!app.details_open);
    press(&mut app, Key::Enter);
    press(&mut app, Key::Enter);
    assert!(!app.details_open);
    press(&mut app, Key::Tab);
    press(&mut app, Key::Enter);
    assert!(!app.details_open);
}

#[test]
fn some_keys_end_the_program() {
    let mut app = board(1, 0);
    assert!(app.handle_key(Key::Char('q'), false));
    assert!(app.handle_key(Key::Esc, false));
    assert!(app.handle_key(Key::Char('c'), true));
    assert!(!app.handle_key(Key::Char('c'), false));
    assert!(!app.handle_key(Key::Other, true));
    assert!(!app.handle_key(Key::Enter, false));
    assert!(app.details_open);
    assert!(app.handle_key(Key::Char('q'), false));
    assert!(app.handle_key(Key::Char('c'), true));
    assert!(app.details_open);
    assert!(!app.handle_key(Key::Esc, false));
    assert!(!app.details_open);
}

#[test]
fn events_are_read_until_there_are_no_more() {
    let mut app = board(3, 0);
    assert_eq!(App::<f64>::after_poll(true), InputStep::Read);
    assert_eq!(App::<f64>::after_poll(false), InputStep::Finish { quit: false });
    assert_eq!(app.handle_event(InputEvent::Other), InputStep::Poll);
    let key = |action: KeyAction, key: Key, control: bool| InputEvent::Key { action, key, control };
    for action in [KeyAction::Repeat, KeyAction::Release] {
        assert_eq!(app.handle_event(key(action, Key::Down, false)), InputStep::Poll);
        assert_eq!(app.handle_event(key(action, Key::Char('q'), false)), InputStep::Poll);
        assert_eq!(app.numeric_selected, 0);
    }
    let down = key(KeyAction::Press, Key::Down, false);
    assert_eq!(app.handle_event(down), InputStep::Poll);
    assert_eq!(app.numeric_selected, 1);
    let quit = key(KeyAction::Press, Key::Char('c'), true);
    assert_eq!(app.handle_event(quit), InputStep::Finish { quit: true });
}

#[test]
fn selection_beyond_the_list_is_brought_back() {
    let mut app = board(3, 2);
    app.numeric_selected = 10;
    app.numeric_scroll = 10;
    app.chart_selected = 10;
    app.clamp_scrolls();
    assert_eq!((app.numeric_selected, app.numeric_scroll), (2, 2));
    assert_eq!((app.chart_selected, app.chart_scroll), (1, 1));
}

#[test]
fn a_viewport_is_moved_no_further_than_needed() {
    for count in 1..8_usize {
        for page in 1..8_usize {
            for before in 0..8_usize {
                for row in 0..count {
                    let (mut scroll, mut selected) = (before, row);
                    sync_viewport(&mut scroll, &mut selected, page, count);
                    let nearest = (0..count)
                        .filter(|place| *place <= row && row < place + page)
                        .filter(|place| *place == 0 || place + page <= count)
                        .min_by_key(|place| place.abs_diff(before));
                    assert_eq!(Some(scroll), nearest);
                    assert_eq!(selected, row);
                }
            }
        }
    }
}
