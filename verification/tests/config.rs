use std::time::Duration;

use spinal_tap::config::{
    Config, ConfigFile, LoadStep, MetricConfig, MetricDisplay, MetricEntry, MetricKindConfig,
    MetricView, ReadOutcome,
};

fn text_of_key(table: &toml::Table, key: &str) -> Option<String> {
    table.get(key).and_then(|value| value.as_str()).map(|text| text.to_string())
}

fn entry_of(table: &toml::Table) -> MetricEntry {
    MetricEntry {
        name: text_of_key(table, "name").unwrap(),
        view: text_of_key(table, "view").map(|view| match view.as_str() {
            "chart" => MetricView::Chart,
            "numeric" => MetricView::Numeric,
            _ => panic!("{view}"),
        }),
        kind: text_of_key(table, "kind").map(|kind| match kind.as_str() {
            "counter" => MetricKindConfig::Counter,
            "set" => MetricKindConfig::UniqueSet,
            _ => panic!("{kind}"),
        }),
        display: text_of_key(table, "display").map(|display| match display.as_str() {
            "rate" => MetricDisplay::Rate,
            _ => panic!("{display}"),
        }),
        unit: text_of_key(table, "unit"),
    }
}

fn config_of(text: &str) -> Config {
    let table: toml::Table = toml::from_str(text).unwrap();
    let metrics = table.get("metrics").and_then(|value| value.as_array()).map(|entries| {
        entries
            .iter()
            .map(|entry| entry_of(entry.as_table().unwrap()))
            .collect::<Vec<_>>()
    });
    let integer = |key: &str| table.get(key).and_then(|value| value.as_integer());
    Config::from_file(ConfigFile {
        listen: text_of_key(&table, "listen"),
        history_points: integer("history_points").map(|points| points as usize),
        redraw_millis: integer("redraw_millis").map(|millis| millis as u64),
        metrics,
    })
}

fn metric(name: &str, unit: &str) -> MetricConfig {
    MetricConfig {
        name: name.to_string(),
        view: MetricView::Chart,
        kind: MetricKindConfig::Gauge,
        display: MetricDisplay::Latest,
        unit: unit.to_string(),
    }
}

#[test]
fn metric_kind_and_display_default_for_existing_configs() {
    let config: Config = config_of(
        r#"
            [[metrics]]
            name = "requests"
            view = "chart"
            unit = "req"
            "#,
    );

    assert_eq!(config.metrics[0].kind, MetricKindConfig::Auto);
    assert_eq!(config.metrics[0].display, MetricDisplay::Default);
}

#[test]
fn settings_that_are_given_are_kept() {
    let config = config_of(
        r#"
            listen = "0.0.0.0:9125"
            history_points = 30
            redraw_millis = 100

            [[metrics]]
            name = "users"
            kind = "set"
            display = "rate"
            "#,
    );
    assert_eq!(config.listen, "0.0.0.0:9125");
    assert_eq!(config.history_points, 30);
    assert_eq!(config.redraw_millis, 100);
    assert_eq!(config.metrics.len(), 1);
    assert_eq!(config.metrics[0].name, "users");
    assert_eq!(config.metrics[0].view, MetricView::Numeric);
    assert_eq!(config.metrics[0].kind, MetricKindConfig::UniqueSet);
    assert_eq!(config.metrics[0].display, MetricDisplay::Rate);
    assert_eq!(config.metrics[0].unit, "");
}

#[test]
fn an_empty_file_stands_for_the_defaults() {
    for config in [config_of(""), Config::default()] {
        assert_eq!(config.listen, "127.0.0.1:8125");
        assert_eq!(config.history_points, 120);
        assert_eq!(config.redraw_millis, 250);
        assert!(config.metrics.is_empty());
    }
    assert_eq!(MetricView::default(), MetricView::Numeric);
    assert_eq!(MetricKindConfig::default(), MetricKindConfig::Auto);
    assert_eq!(MetricDisplay::default(), MetricDisplay::Default);
}

#[test]
fn screen_is_redrawn_no_more_often_than_every_fifty_milliseconds() {
    let mut config = Config::default();
    assert_eq!(config.redraw_interval(), Duration::from_millis(250));
    config.redraw_millis = 0;
    assert_eq!(config.redraw_interval(), Duration::from_millis(50));
    config.redraw_millis = 49;
    assert_eq!(config.redraw_interval(), Duration::from_millis(50));
    config.redraw_millis = 51;
    assert_eq!(config.redraw_interval(), Duration::from_millis(51));
    config.redraw_millis = u64::MAX;
    assert_eq!(config.redraw_interval(), Duration::from_millis(u64::MAX));
}

#[test]
fn no_fewer_than_two_points_are_kept() {
    let mut config = Config::default();
    assert_eq!(config.history_points(), 120);
    for (given, kept) in [(0, 2), (1, 2), (2, 2), (3, 3), (usize::MAX, usize::MAX)] {
        config.history_points = given;
        assert_eq!(config.history_points(), kept);
    }
}

#[test]
fn the_last_metric_of_a_name_counts() {
    let mut config = Config::default();
    config.metrics.push(metric("a", "x"));
    config.metrics.push(metric("b", "y"));
    config.metrics.push(metric("a", "z"));
    let map = config.metric_map();
    assert_eq!(map.len(), 2);
    assert_eq!(map.get("a").unwrap().unit, "z");
    assert_eq!(map.get("b").unwrap().unit, "y");
    assert!(map.get("c").is_none());
    let copy = config.clone();
    assert_eq!(copy.listen, config.listen);
    assert_eq!(copy.metrics.len(), 3);
    assert_eq!(copy.metrics[2].unit, "z");
    assert_eq!(copy.metrics[2].view, MetricView::Chart);
}

#[test]
fn only_the_default_file_may_be_missing() {
    assert_eq!(Config::default_path(), "spinal-tap.toml");
    assert!(matches!(
        Config::load_step(ReadOutcome::NotFound, true),
        LoadStep::UseDefaults
    ));
    assert!(matches!(
        Config::load_step(ReadOutcome::NotFound, false),
        LoadStep::Fail
    ));
    assert!(matches!(
        Config::load_step(ReadOutcome::Failed, true),
        LoadStep::Fail
    ));
    assert!(matches!(
        Config::load_step(ReadOutcome::Failed, false),
        LoadStep::Fail
    ));
    match Config::load_step(ReadOutcome::Contents("x = 1".to_string()), false) {
        LoadStep::Parse(contents) => assert_eq!(contents, "x = 1"),
        step => panic!("{step:?}"),
    }
}
