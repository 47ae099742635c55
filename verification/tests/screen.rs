use std::time::{Duration, Instant};

use spinal_tap::app::{App, Focus};
use spinal_tap::charts::{render_chart, ChartFrame, ChartsPane};
use spinal_tap::config::{Config, MetricConfig, MetricDisplay, MetricKindConfig, MetricView};
use spinal_tap::details::{detail_lines, detail_texts, DetailSettings, DetailsPane};
use spinal_tap::dogstatsd::{MetricKind, Sample};
use spinal_tap::geometry::Area;
use spinal_tap::metrics::MetricState;
use spinal_tap::navigation::Key;
use spinal_tap::numbers::{Numbers, Operation, Test};
use spinal_tap::numeric::{grouped_metric_name, metric_chart_title, ColumnWidth};
use spinal_tap::screen::{
    detail_label_style, footer_line, header_lines, key_style, pane_title, plain_style,
    selected_style, Color, Span, TextStyle,
};

fn compute_number(operation: Operation<f64>) -> f64 {
    match operation {
        Operation::Plus(a, b) => a + b,
        Operation::Minus(a, b) => a - b,
        Operation::Lesser(a, b) => a.min(b),
        Operation::Greater(a, b) => a.max(b),
        Operation::Mean(sum, count) => sum / count as f64,
        Operation::Count(count) => count as f64,
        Operation::Highest => f64::INFINITY,
        Operation::Lowest => f64::NEG_INFINITY,
        Operation::Tenth(value) => value * 0.1,
    }
}

fn test_number(test: Test<f64>) -> bool {
    match test {
        Test::AtLeast(value, bound) => value.abs() >= f64::from(bound),
        Test::Whole(value) => value.fract() == 0.0,
    }
}

fn fixed_number(value: f64, decimals: usize) -> String {
    format!("{value:.decimals$}")
}

fn seconds_of(time: Duration) -> String {
    format!("{:.1}", time.as_secs_f64())
}

fn numbers() -> Numbers<
    impl Fn(Operation<f64>) -> f64,
    impl Fn(Test<f64>) -> bool,
    impl Fn(f64, usize) -> String,
    impl Fn(Duration) -> String,
> {
    Numbers {
        compute: compute_number,
        test: test_number,
        fixed: fixed_number,
        seconds: seconds_of,
    }
}

fn gauge(name: &str, value: f64, tags: &[(&str, &str)]) -> Sample<f64> {
    Sample {
        name: name.to_string(),
        value,
        kind: MetricKind::Gauge,
        tags: tags
            .iter()
            .map(|(key, value)| (key.to_string(), value.to_string()))
            .collect(),
        received_at: Instant::now(),
    }
}

fn entry(name: &str, view: MetricView, unit: &str) -> MetricConfig {
    MetricConfig {
        name: name.to_string(),
        view,
        kind: MetricKindConfig::Auto,
        display: MetricDisplay::Default,
        unit: unit.to_string(),
    }
}

fn rect(x: u16, y: u16, width: u16, height: u16) -> Area {
    Area { x, y, width, height }
}

fn texts_of(line: &[Span]) -> Vec<&str> {
    line.iter().map(|span| span.text.as_str()).collect()
}

fn plain_text(line: &[Span]) -> String {
    texts_of(line).concat()
}

#[test]
fn numbers_are_written_with_few_decimals() {
    let numbers = numbers();
    for (value, text) in [
        (0.0, "0"),
        (7.0, "7"),
        (-7.0, "-7"),
        (1.234, "1.23"),
        (-1.236, "-1.24"),
        (9.999, "10.00"),
        (10.04, "10.0"),
        (-12.56, "-12.6"),
        (999.96, "1000.0"),
        (1000.4, "1000"),
        (-123456.7, "-123457"),
    ] {
        assert_eq!(numbers.format_compact(value), text);
        assert_eq!(numbers.format_value(value, ""), text);
        assert_eq!(numbers.format_value(value, "ms"), format!("{text} ms"));
    }
    assert_eq!(numbers.format_compact(f64::NAN), "NaN");
    assert_eq!(numbers.format_age::<f64>(Duration::from_millis(1250), "s"), "1.2s");
}

#[test]
fn styles_have_their_colors() {
    let plain = TextStyle { fg: None, bg: None, bold: false, dim: false };
    assert_eq!(plain_style(), plain);
    assert_eq!(
        key_style(),
        TextStyle { fg: Some(Color::Black), bg: Some(Color::Gray), ..plain }
    );
    assert_eq!(
        detail_label_style(),
        TextStyle { fg: Some(Color::Yellow), bold: true, ..plain }
    );
    assert_eq!(
        selected_style(true),
        TextStyle { fg: Some(Color::Yellow), bg: Some(Color::DarkGray), bold: true, ..plain }
    );
    assert_eq!(
        selected_style(false),
        TextStyle { fg: Some(Color::Yellow), dim: true, ..plain }
    );
}

#[test]
fn the_footer_names_the_keys() {
    let line = footer_line(9, "127.0.0.1:8125");
    assert_eq!(
        texts_of(&line),
        vec![
            " q ",
            " quit  ",
            " Tab ",
            " focus  ",
            " PgUp/PgDn ",
            " page  ",
            " Enter ",
            " details  ",
            " +/- ",
            " chart height 9  listening on 127.0.0.1:8125",
        ]
    );
    for (index, span) in line.iter().enumerate() {
        let style = if index % 2 == 0 { key_style() } else { plain_style() };
        assert_eq!(span.style, style);
    }
}

#[test]
fn the_header_counts_samples_and_metrics() {
    let lines = header_lines(120, 7, 65);
    assert_eq!(plain_text(&lines[0]), "spinal-tap  dogstatsd dashboard");
    assert_eq!(
        lines[0][0].style,
        TextStyle { fg: Some(Color::Cyan), bold: true, ..plain_style() }
    );
    assert_eq!(plain_text(&lines[1]), "120 samples  7 metrics  uptime 65s");
    assert_eq!(lines.len(), 2);

    let mut app = App::new(Config::default(), 0.0);
    app.record(gauge("a", 1.0, &[]), &compute_number);
    app.record(gauge("a", 1.0, &[]), &compute_number);
    let lines = app.render_header();
    assert_eq!(plain_text(&lines[1]), "2 samples  1 metrics  uptime 0s");
    app.started_at = Instant::now() - Duration::from_secs(90);
    let text = plain_text(&app.render_header()[1]);
    assert!(text == "2 samples  1 metrics  uptime 90s" || text.ends_with("uptime 91s"));
}

#[test]
fn pane_titles_count_from_one() {
    assert_eq!(
        pane_title("Numeric", true, 0, 5, 12, 3),
        " * Numeric selected 4/12 visible 1-5 "
    );
    assert_eq!(
        pane_title("Charts", false, 2, 4, 4, 2),
        "   Charts selected 3/4 visible 3-4 "
    );
    assert_eq!(pane_title("Numeric", true, 0, 0, 0, 0), " * Numeric 0/0 ");
    assert_eq!(pane_title("Charts", false, 0, 0, 0, usize::MAX), "   Charts 0/0 ");
}

#[test]
fn series_of_one_metric_are_grouped() {
    let states = [
        MetricState::new("a".to_string(), String::new(), 0.0),
        MetricState::new("a".to_string(), "[x:1]".to_string(), 0.0),
        MetricState::new("b".to_string(), "[x:1]".to_string(), 0.0),
        MetricState::new("b".to_string(), "[x:2]".to_string(), 0.0),
        MetricState::new("b".to_string(), String::new(), 0.0),
    ];
    let refs: Vec<&MetricState<f64>> = states.iter().collect();
    let grouped: Vec<String> = (0..5).map(|index| grouped_metric_name(&refs, index)).collect();
    assert_eq!(grouped, vec!["a", "  [x:1]", "b [x:1]", "  [x:2]", "b"]);
    assert_eq!(metric_chart_title(&states[0]), "a");
    assert_eq!(metric_chart_title(&states[3]), "b [x:2]");
}

#[test]
fn the_table_shows_a_page_of_rows() {
    let mut config = Config::default();
    config.metrics.push(entry("b", MetricView::Numeric, "ms"));
    for name in ["a", "c", "d", "e"] {
        config.metrics.push(entry(name, MetricView::Numeric, ""));
    }
    let mut app = App::new(config, 0.0);
    for (name, value) in [("e", 5.0), ("d", 4.0), ("c", 3.5), ("b", 2.25), ("a", 1.0)] {
        app.record(gauge(name, value, &[]), &compute_number);
    }
    app.numeric_selected = 1;
    let pane = app.render_numeric(rect(0, 0, 40, 6), &numbers());
    assert_eq!(app.numeric_page, 3);
    assert_eq!(pane.title, " * Numeric selected 2/5 visible 1-3 ");
    assert_eq!(pane.header.cells, vec!["metric", "kind", "latest", "total", "age"]);
    assert_eq!(pane.header.style, detail_label_style());
    assert_eq!(
        pane.widths,
        vec![
            ColumnWidth::Fill(1),
            ColumnWidth::Length(10),
            ColumnWidth::Length(16),
            ColumnWidth::Length(16),
            ColumnWidth::Length(7),
        ]
    );
    assert_eq!(pane.rows.len(), 3);
    assert_eq!(pane.rows[1].cells, vec!["b", "gauge", "2.25 ms", "2.25 ms", "0.0s"]);
    assert_eq!(pane.rows[1].style, selected_style(true));
    assert_eq!(pane.rows[2].cells[2], "3.50");
    assert_eq!(pane.rows[0].style, plain_style());

    app.handle_key(Key::End, false);
    app.handle_key(Key::Tab, false);
    let pane = app.render_numeric(rect(0, 0, 40, 6), &numbers());
    assert_eq!(pane.title, "   Numeric selected 5/5 visible 3-5 ");
    assert_eq!(pane.rows[2].cells[0], "e");
    assert_eq!(pane.rows[2].style, selected_style(false));

    let pane = app.render_numeric(rect(0, 0, 40, 2), &numbers());
    assert_eq!(app.numeric_page, 1);
    assert_eq!(pane.rows.len(), 1);
}

#[test]
fn ages_grow_with_time() {
    let mut app = App::new(Config::default(), 0.0);
    app.record(gauge("a", 1.0, &[]), &compute_number);
    let metrics = app.pane_metrics(Focus::Numeric);
    let row = app.numeric_row(&metrics, 0, Duration::from_millis(3456), &numbers());
    assert_eq!(row.cells[4], "3.5s");
    drop(metrics);
    app.metrics.get_mut("a").unwrap().last_seen = Instant::now() - Duration::from_secs(100);
    let pane = app.render_numeric(rect(0, 0, 40, 6), &numbers());
    assert!(pane.rows[0].cells[4].starts_with("100."));
}

#[test]
fn an_empty_table_has_a_title() {
    let mut app = App::new(Config::default(), 0.0);
    let pane = app.render_numeric(rect(0, 0, 40, 10), &numbers());
    assert_eq!(pane.title, " * Numeric 0/0 ");
    assert!(pane.rows.is_empty());
    match app.render_charts(rect(0, 0, 40, 10), &numbers()) {
        ChartsPane::Notice { title, text } => {
            assert_eq!(title, " Charts ");
            assert_eq!(text, "No chart metrics configured yet.");
        }
        pane => panic!("{pane:?}"),
    }
}

#[test]
fn a_chart_shows_its_points() {
    let mut metric = MetricState::new("m".to_string(), "[h:1]".to_string(), 0.0);
    let frame = |pane_title: Option<String>, selected: bool| ChartFrame {
        area: rect(1, 2, 30, 9),
        unit: "ms".to_string(),
        history_points: 60,
        pane_title,
        selected,
        focused: true,
    };
    assert!(render_chart(&metric, frame(None, false), &numbers()).is_none());
    for value in [10.0, 40.0, 20.0] {
        metric.push(gauge("m", value, &[]), 60, &compute_number);
    }
    let chart = render_chart(&metric, frame(None, false), &numbers()).unwrap();
    assert_eq!(chart.area, rect(1, 2, 30, 9));
    assert_eq!(chart.title, " m [h:1] ");
    assert_eq!(chart.name, "m [h:1]");
    assert_eq!(chart.border_style, plain_style());
    assert_eq!(chart.line_color, Color::Cyan);
    assert_eq!(chart.data, vec![(0.5, 10.0), (1.5, 40.0), (2.5, 20.0)]);
    assert_eq!(chart.x_bounds, (0.0, 60.0));
    assert_eq!(chart.x_labels, vec!["0", "60"]);
    assert_eq!(chart.y_bounds, (7.0, 43.0));
    assert_eq!(chart.y_labels, vec!["7", "25", "43"]);
    assert_eq!(chart.y_title.text, "gauge (ms)");
    assert_eq!(
        chart.y_title.style,
        TextStyle { fg: Some(Color::Yellow), ..plain_style() }
    );

    let chart = render_chart(&metric, frame(Some("T".to_string()), true), &numbers()).unwrap();
    assert_eq!(chart.title, "T  m [h:1]");
    assert_eq!(chart.line_color, Color::Yellow);
    assert_eq!(chart.border_style, selected_style(true));

    let narrow = ChartFrame {
        unit: String::new(),
        history_points: 1,
        focused: false,
        ..frame(None, true)
    };
    let chart = render_chart(&metric, narrow, &numbers()).unwrap();
    assert_eq!(chart.x_bounds, (0.0, 2.0));
    assert_eq!(chart.y_title.text, "gauge");
    assert_eq!(chart.border_style, selected_style(false));
}

#[test]
fn a_flat_chart_has_a_margin_of_one() {
    let mut metric = MetricState::new("m".to_string(), String::new(), 0.0);
    metric.push(gauge("m", 5.0, &[]), 10, &compute_number);
    let frame = ChartFrame {
        area: rect(0, 0, 30, 9),
        unit: String::new(),
        history_points: 10,
        pane_title: None,
        selected: false,
        focused: false,
    };
    let chart = render_chart(&metric, frame, &numbers()).unwrap();
    assert_eq!(chart.y_bounds, (4.0, 6.0));
    assert_eq!(chart.y_labels, vec!["4", "5", "6"]);
}

#[test]
fn charts_fill_their_pane() {
    let mut config = Config::default();
    for name in ["a", "b", "c", "d"] {
        config.metrics.push(entry(name, MetricView::Chart, "req"));
    }
    let mut app = App::new(config, 0.0);
    for name in ["d", "c", "b", "a"] {
        app.record(gauge(name, 1.0, &[]), &compute_number);
    }
    app.metrics.get_mut("b").unwrap().samples.clear();
    app.chart_selected = 2;
    app.toggle_focus();
    let charts = match app.render_charts(rect(40, 3, 60, 25), &numbers()) {
        ChartsPane::Charts(charts) => charts,
        pane => panic!("{pane:?}"),
    };
    assert_eq!(app.chart_page, 2);
    assert_eq!(app.chart_scroll, 1);
    assert_eq!(charts.len(), 2);
    assert!(charts[0].is_none());
    let chart = charts[1].as_ref().unwrap();
    assert_eq!(chart.area, rect(40, 12, 60, 9));
    assert_eq!(chart.title, " c ");
    assert_eq!(chart.line_color, Color::Yellow);
    assert_eq!(chart.y_title.text, "gauge (req)");
    assert_eq!(chart.x_labels, vec!["0", "120"]);

    app.handle_key(Key::Home, false);
    let charts = match app.render_charts(rect(40, 3, 60, 5), &numbers()) {
        ChartsPane::Charts(charts) => charts,
        pane => panic!("{pane:?}"),
    };
    assert_eq!(charts.len(), 1);
    let chart = charts[0].as_ref().unwrap();
    assert_eq!(chart.area, rect(40, 3, 60, 5));
    assert_eq!(chart.title, " * Charts selected 1/4 visible 1-1   a");

    match app.render_charts(rect(40, 3, 60, 0), &numbers()) {
        ChartsPane::Charts(charts) => assert!(charts.is_empty()),
        pane => panic!("{pane:?}"),
    }
}

#[test]
fn details_say_all_of_a_series() {
    let mut metric = MetricState::new("m".to_string(), "[a:1, b]".to_string(), 0.0);
    for value in [1.0, 4.0] {
        metric.push(gauge("m", value, &[("b", ""), ("a", "1")]), 10, &compute_number);
    }
    let settings = DetailSettings {
        unit: "ms".to_string(),
        configured: true,
        view: MetricView::Chart,
        history_points: 10,
    };
    let texts = detail_texts(&metric, "ms", Duration::from_millis(2500), &numbers());
    let lines = detail_lines(&metric, &settings, texts);
    let shown: Vec<String> = lines.iter().map(|line| plain_text(line)).collect();
    assert_eq!(
        shown,
        vec![
            "name m",
            "labels [a:1, b]",
            "kind gauge  view chart  unit ms  configured yes",
            "latest 4 ms  total 4 ms  delta 3  last seen 2.5s ago",
            "retained 2/10 samples  min 1 ms  max 4 ms  avg 2.50 ms",
            "tags b, a:1",
            "Enter/Esc  close  future actions can target this selected metric",
        ]
    );
    assert_eq!(lines[0][0].style, detail_label_style());
    assert_eq!(lines[0][1].style, plain_style());
    assert_eq!(lines[6][0].style, key_style());
}

#[test]
fn details_of_a_bare_series_say_none() {
    let metric = MetricState::new("m".to_string(), String::new(), 0.0);
    let settings = DetailSettings {
        unit: String::new(),
        configured: false,
        view: MetricView::Numeric,
        history_points: 2,
    };
    let texts = detail_texts(&metric, "", Duration::ZERO, &numbers());
    let lines = detail_lines(&metric, &settings, texts);
    let shown: Vec<String> = lines.iter().map(|line| plain_text(line)).collect();
    assert_eq!(shown[1], "labels none");
    assert_eq!(shown[2], "kind ?  view numeric  unit none  configured auto");
    assert_eq!(shown[3], "latest 0  total 0  delta n/a  last seen 0.0s ago");
    assert_eq!(shown[4], "retained 0/2 samples  min n/a  max n/a  avg n/a");
    assert_eq!(shown[5], "tags none");
}

#[test]
fn details_stand_at_the_bottom() {
    let mut app = App::new(Config::default(), 0.0);
    match app.render_details(rect(0, 0, 80, 30), &numbers()) {
        DetailsPane::Notice { area, title, text } => {
            assert_eq!(area, rect(0, 20, 80, 10));
            assert_eq!(title, " Metric Details ");
            assert_eq!(text, "No metric selected");
        }
        pane => panic!("{pane:?}"),
    }
    app.record(gauge("m", 3.0, &[]), &compute_number);
    match app.render_details(rect(0, 0, 80, 30), &numbers()) {
        DetailsPane::Details { area, title, border_style, lines } => {
            assert_eq!(area, rect(0, 20, 80, 10));
            assert_eq!(title, " Metric Details ");
            assert_eq!(border_style, selected_style(true));
            assert_eq!(plain_text(&lines[0]), "name m");
            assert_eq!(lines[4][1].text, "1/120 samples");
        }
        pane => panic!("{pane:?}"),
    }
}

#[test]
fn the_screen_holds_all_panes() {
    let mut config = Config::default();
    config.metrics.push(entry("c", MetricView::Chart, ""));
    for index in 0..50 {
        config.metrics.push(entry(&format!("n{index:02}"), MetricView::Numeric, ""));
    }
    let mut app = App::new(config, 0.0);
    app.record(gauge("c", 1.0, &[]), &compute_number);
    for index in 0..50 {
        app.record(gauge(&format!("n{index:02}"), 1.0, &[]), &compute_number);
    }
    app.handle_key(Key::End, false);
    let screen = app.render(rect(0, 0, 100, 40), &numbers());
    assert_eq!(screen.regions.numeric, rect(0, 3, 42, 36));
    assert_eq!(plain_text(&screen.header[1]), "51 samples  51 metrics  uptime 0s");
    assert_eq!(screen.numeric.title, " * Numeric selected 50/50 visible 18-50 ");
    assert_eq!(screen.numeric.rows.len(), 33);
    assert_eq!(screen.numeric.rows[32].style, selected_style(true));
    assert_eq!(app.numeric_scroll, 17);
    assert_eq!(app.chart_page, 4);
    match &screen.charts {
        ChartsPane::Charts(charts) => {
            assert_eq!(charts.len(), 1);
            let chart = charts[0].as_ref().unwrap();
            assert_eq!(chart.area, rect(42, 3, 58, 9));
            assert_eq!(chart.title, "   Charts selected 1/1 visible 1-1   c");
        }
        pane => panic!("{pane:?}"),
    }
    assert_eq!(screen.footer.len(), 10);
    assert!(screen.details.is_none());

    app.handle_key(Key::Enter, false);
    let screen = app.render(rect(0, 0, 100, 40), &numbers());
    assert_eq!((app.numeric_scroll, app.numeric_selected), (17, 49));
    match screen.details {
        Some(DetailsPane::Details { area, lines, .. }) => {
            assert_eq!(area, rect(0, 27, 100, 13));
            assert_eq!(plain_text(&lines[0]), "name n49");
        }
        details => panic!("{details:?}"),
    }

    let tiny = app.render(rect(0, 0, 3, 2), &numbers());
    assert_eq!(tiny.numeric.rows.len(), 1);
    assert_eq!((app.numeric_scroll, app.numeric_selected), (49, 49));
}

#[test]
fn only_the_selected_chart_is_marked() {
    let mut config = Config::default();
    for name in ["a", "b", "c"] {
        config.metrics.push(entry(name, MetricView::Chart, ""));
    }
    let mut app = App::new(config, 0.0);
    for name in ["a", "b", "c"] {
        app.record(gauge(name, 1.0, &[]), &compute_number);
    }
    for selected in 0..3 {
        app.chart_selected = selected;
        let charts = match app.render_charts(rect(0, 0, 60, 27), &numbers()) {
            ChartsPane::Charts(charts) => charts,
            pane => panic!("{pane:?}"),
        };
        assert_eq!(charts.len(), 3);
        for (index, chart) in charts.iter().enumerate() {
            let chart = chart.as_ref().unwrap();
            assert_eq!(chart.border_style == selected_style(false), index == selected);
            assert_eq!(chart.line_color == Color::Yellow, index == selected);
        }
    }
}

#[test]
fn the_details_tell_the_age_of_the_series() {
    let mut app = App::new(Config::default(), 0.0);
    app.started_at = Instant::now() - Duration::from_secs(500);
    app.record(gauge("m", 3.0, &[]), &compute_number);
    app.metrics.get_mut("m").unwrap().last_seen = Instant::now() - Duration::from_secs(70);
    match app.render_details(rect(0, 0, 80, 30), &numbers()) {
        DetailsPane::Details { lines, .. } => {
            assert!(lines[3][7].text.starts_with("70."));
            assert!(lines[3][7].text.ends_with("s ago"));
        }
        pane => panic!("{pane:?}"),
    }
}
