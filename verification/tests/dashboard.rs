use std::time::Instant;

use spinal_tap::app::{App, Focus, DEFAULT_CHART_HEIGHT};
use spinal_tap::config::{Config, MetricConfig, MetricDisplay, MetricKindConfig, MetricView};
use spinal_tap::dogstatsd::{MetricKind, Sample};
use spinal_tap::metrics::{retained_delta, retained_stats, MetricState};
use spinal_tap::numbers::Operation;
use spinal_tap::series::{labels_text, series_key};

fn compute(operation: Operation<f64>) -> f64 {
    match operation {
        Operation::Plus(a, b) => a + b,
        Operation::Minus(a, b) => a - b,
        Operation::Lesser(a, b) => a.min(b),
        Operation::Greater(a, b) => a.max(b),
        Operation::Mean(sum, count) => sum / count as f64,
        other => panic!("{other:?}"),
    }
}

fn sample(name: &str, value: f64, kind: MetricKind, tags: &[(&str, &str)]) -> Sample<f64> {
    Sample {
        name: name.to_string(),
        value,
        kind,
        tags: tags
            .iter()
            .map(|(key, value)| (key.to_string(), value.to_string()))
            .collect(),
        received_at: Instant::now(),
    }
}

fn configured(metrics: &[(&str, MetricView, &str)]) -> Config {
    let mut config = Config::default();
    for (name, view, unit) in metrics {
        config.metrics.push(MetricConfig {
            name: name.to_string(),
            view: *view,
            kind: MetricKindConfig::Auto,
            display: MetricDisplay::Default,
            unit: unit.to_string(),
        });
    }
    config
}

fn names(metrics: &[&MetricState<f64>]) -> Vec<String> {
    metrics
        .iter()
        .map(|metric| format!("{}{}", metric.name, metric.labels))
        .collect()
}

#[test]
fn labelled_samples_are_distinct_series() {
    let mut app = App::new(Config::default(), 0.0);
    let now = Instant::now();

    app.metrics.insert(
        series_key("requests", &[("service".to_string(), "api".to_string())]),
        MetricState::new(
            "requests".to_string(),
            labels_text(&[("service".to_string(), "api".to_string())]),
            0.0,
        ),
    );
    app.metrics.insert(
        series_key("requests", &[("service".to_string(), "worker".to_string())]),
        MetricState::new(
            "requests".to_string(),
            labels_text(&[("service".to_string(), "worker".to_string())]),
            0.0,
        ),
    );

    app.metrics
        .get_mut(&series_key(
            "requests",
            &[("service".to_string(), "api".to_string())],
        ))
        .unwrap()
        .push(
            Sample {
                name: "requests".to_string(),
                value: 1.0,
                kind: MetricKind::Counter,
                tags: vec![("service".to_string(), "api".to_string())],
                received_at: now,
            },
            8,
            &compute,
        );

    assert_eq!(app.metrics.len(), 2);
}

#[test]
fn a_new_dashboard_is_empty() {
    let before = Instant::now();
    let app = App::new(Config::default(), 0.0);
    assert_eq!(app.metrics.len(), 0);
    assert_eq!(app.received, 0);
    assert_eq!(app.focus, Focus::Numeric);
    assert_eq!(app.numeric_page, 1);
    assert_eq!(app.chart_page, 1);
    assert_eq!(app.chart_height, DEFAULT_CHART_HEIGHT);
    assert_eq!(app.chart_height, 9);
    assert!(!app.details_open);
    assert!(app.started_at >= before);
    assert!(app.selected_metric().is_none());
}

#[test]
fn counters_add_up_and_gauges_do_not() {
    let mut app = App::new(Config::default(), 0.0);
    app.drain_samples(
        vec![
            sample("hits", 2.0, MetricKind::Counter, &[]),
            sample("load", 5.0, MetricKind::Gauge, &[]),
            sample("hits", 3.0, MetricKind::Counter, &[]),
            sample("load", 4.0, MetricKind::Gauge, &[]),
        ],
        &compute,
    );
    assert_eq!(app.received, 4);
    let hits = app.metrics.get("hits").unwrap();
    assert_eq!(hits.latest, 3.0);
    assert_eq!(hits.total, 5.0);
    assert_eq!(hits.kind, MetricKind::Counter);
    let load = app.metrics.get("load").unwrap();
    assert_eq!(load.latest, 4.0);
    assert_eq!(load.total, 4.0);
    assert!(app.metrics.get("other").is_none());
}

#[test]
fn series_with_other_tags_are_kept_apart() {
    let mut app = App::new(Config::default(), 0.0);
    app.record(sample("m", 1.0, MetricKind::Counter, &[("a", "1"), ("b", "2")]), &compute);
    app.record(sample("m", 2.0, MetricKind::Counter, &[("b", "2"), ("a", "1")]), &compute);
    app.record(sample("m", 4.0, MetricKind::Counter, &[("a", "1")]), &compute);
    app.record(sample("m", 8.0, MetricKind::Counter, &[]), &compute);
    assert_eq!(app.metrics.len(), 3);
    assert_eq!(app.metrics.get("m|a=1|b=2").unwrap().total, 3.0);
    assert_eq!(app.metrics.get("m|a=1|b=2").unwrap().labels, "[a:1, b:2]");
    assert_eq!(app.metrics.get("m|a=1").unwrap().total, 4.0);
    assert_eq!(app.metrics.get("m").unwrap().total, 8.0);
    assert_eq!(app.metrics.get("m").unwrap().labels, "");
}

#[test]
fn metrics_that_are_not_configured_are_counted_but_not_kept() {
    let mut app = App::new(configured(&[("a", MetricView::Numeric, "")]), 0.0);
    assert!(app.should_track("a"));
    assert!(!app.should_track("b"));
    app.record(sample("b", 1.0, MetricKind::Gauge, &[]), &compute);
    assert_eq!(app.received, 1);
    assert_eq!(app.metrics.len(), 0);
    app.record(sample("a", 1.0, MetricKind::Gauge, &[]), &compute);
    assert_eq!(app.received, 2);
    assert_eq!(app.metrics.len(), 1);
    assert!(App::new(Config::default(), 0.0).should_track("anything"));
}

#[test]
fn views_and_units_are_those_configured() {
    let app = App::new(
        configured(&[("a", MetricView::Chart, "ms"), ("b", MetricView::Numeric, "")]),
        0.0,
    );
    assert_eq!(app.configured_view("a"), MetricView::Chart);
    assert_eq!(app.configured_view("b"), MetricView::Numeric);
    assert_eq!(app.configured_view("c"), MetricView::Numeric);
    assert_eq!(app.unit("a"), "ms");
    assert_eq!(app.unit("b"), "");
    assert_eq!(app.unit("c"), "");
}

#[test]
fn only_the_last_points_are_kept() {
    let mut config = Config::default();
    config.history_points = 3;
    let mut app = App::new(config, 0.0);
    for value in [1.0, 2.0, 3.0, 4.0, 5.0] {
        app.record(sample("g", value, MetricKind::Gauge, &[]), &compute);
    }
    let metric = app.metrics.get("g").unwrap();
    let kept: Vec<f64> = metric.samples.iter().map(|point| point.value).collect();
    assert_eq!(kept, vec![3.0, 4.0, 5.0]);
    assert_eq!(metric.latest, 5.0);
}

#[test]
fn a_series_bears_the_tags_of_its_last_sample() {
    let mut app = App::new(Config::default(), 0.0);
    app.record(sample("m", 1.0, MetricKind::Gauge, &[("b", ""), ("a", "1")]), &compute);
    app.record(sample("m", 1.0, MetricKind::Timer, &[("a", "1"), ("b", "")]), &compute);
    let metric = app.metrics.get("m|a=1|b=").unwrap();
    assert_eq!(metric.tags[0], ("a".to_string(), "1".to_string()));
    assert_eq!(metric.kind, MetricKind::Timer);
    assert_eq!(metric.labels, "[a:1, b]");
    assert_eq!(metric.name, "m");
}

#[test]
fn stats_are_those_of_the_points_kept() {
    let mut metric = MetricState::new("m".to_string(), String::new(), 0.0);
    assert_eq!(metric.kind, MetricKind::Unknown("?".to_string()));
    assert!(retained_stats(&metric, &compute).is_none());
    assert!(retained_delta(&metric, &compute).is_none());
    metric.push(sample("m", 4.0, MetricKind::Gauge, &[]), 3, &compute);
    assert!(retained_delta(&metric, &compute).is_none());
    let alone = retained_stats(&metric, &compute).unwrap();
    assert_eq!((alone.min, alone.max, alone.avg), (4.0, 4.0, 4.0));
    for value in [9.0, -1.0, 7.0] {
        metric.push(sample("m", value, MetricKind::Gauge, &[]), 3, &compute);
    }
    let stats = retained_stats(&metric, &compute).unwrap();
    assert_eq!((stats.min, stats.max, stats.avg), (-1.0, 9.0, 5.0));
    assert_eq!(retained_delta(&metric, &compute), Some(8.0));
}

#[test]
fn no_points_are_kept_where_none_are_asked_for() {
    let mut metric = MetricState::new("m".to_string(), String::new(), 0.0);
    metric.push(sample("m", 4.0, MetricKind::Counter, &[]), 0, &compute);
    assert!(metric.samples.is_empty());
    assert_eq!(metric.total, 4.0);
}

#[test]
fn series_are_sorted_by_name_and_label() {
    let mut app = App::new(Config::default(), 0.0);
    for (name, tags) in [
        ("b", vec![]),
        ("a", vec![("z", "1")]),
        ("a", vec![]),
        ("ab", vec![]),
        ("a", vec![("b", "1")]),
    ] {
        app.record(sample(name, 1.0, MetricKind::Gauge, &tags), &compute);
    }
    let expected = vec!["a", "a[b:1]", "a[z:1]", "ab", "b"];
    assert_eq!(names(&app.sorted_metrics()), expected);
    assert_eq!(names(&app.pane_metrics(Focus::Numeric)), expected);
    assert!(app.pane_metrics(Focus::Charts).is_empty());
    assert_eq!(app.numeric_metric_count(), 5);
    assert_eq!(app.chart_metric_count(), 0);
}

#[test]
fn panes_show_the_series_that_are_counted() {
    let mut app = App::new(
        configured(&[
            ("a", MetricView::Chart, ""),
            ("b", MetricView::Numeric, ""),
            ("c", MetricView::Chart, ""),
        ]),
        0.0,
    );
    for name in ["c", "b", "a", "d"] {
        app.record(sample(name, 1.0, MetricKind::Gauge, &[]), &compute);
    }
    assert_eq!(names(&app.pane_metrics(Focus::Numeric)), vec!["b"]);
    assert_eq!(names(&app.pane_metrics(Focus::Charts)), vec!["a", "c"]);
    assert_eq!(app.numeric_metric_count(), 1);
    assert_eq!(app.chart_metric_count(), 2);
    assert_eq!(app.focused_count(), 1);
    assert_eq!(app.selected_metric().unwrap().name, "b");
    app.toggle_focus();
    assert_eq!(app.focused_count(), 2);
    app.chart_selected = 1;
    assert_eq!(app.selected_metric().unwrap().name, "c");
    app.chart_selected = 2;
    assert!(app.selected_metric().is_none());
}

#[test]
fn each_series_is_counted_in_one_pane() {
    for config in [
        Config::default(),
        configured(&[("a", MetricView::Chart, ""), ("b", MetricView::Numeric, "")]),
        configured(&[("a", MetricView::Chart, "")]),
    ] {
        let mut app = App::new(config, 0.0);
        for (name, tags) in [("a", vec![]), ("a", vec![("t", "1")]), ("b", vec![]), ("c", vec![])] {
            app.record(sample(name, 1.0, MetricKind::Gauge, &tags), &compute);
        }
        assert_eq!(
            app.numeric_metric_count() + app.chart_metric_count(),
            app.metrics.len()
        );
    }
}

#[test]
fn series_stay_in_the_order_in_which_they_were_seen() {
    let mut app = App::new(Config::default(), 0.0);
    let in_order = |app: &App<f64>| {
        app.metrics
            .states
            .iter()
            .map(|state| state.name.clone())
            .collect::<Vec<_>>()
    };
    for name in ["c", "a", "c", "b", "a"] {
        app.record(sample(name, 1.0, MetricKind::Gauge, &[]), &compute);
    }
    assert_eq!(in_order(&app), vec!["c", "a", "b"]);
    app.drain_samples(
        vec![
            sample("d", 1.0, MetricKind::Gauge, &[]),
            sample("c", 2.0, MetricKind::Gauge, &[]),
        ],
        &compute,
    );
    assert_eq!(in_order(&app), vec!["c", "a", "b", "d"]);
    assert_eq!(app.metrics.states[0].latest, 2.0);
}
