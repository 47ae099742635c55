use std::time::Instant;

use spinal_tap::dogstatsd::{parse_datagram, parse_line, MetricKind, Sample};

fn number(text: &str) -> Option<f64> {
    text.parse::<f64>().ok()
}

fn tag(key: &str, value: &str) -> (String, String) {
    (key.to_string(), value.to_string())
}

fn read(text: &str) -> Vec<Sample<f64>> {
    parse_datagram(text.as_bytes(), Instant::now(), number)
}

#[test]
fn parses_newline_delimited_metrics() {
    let samples = parse_datagram(
        b"requests:3|c|#service:api\nqueue.depth:7|g\nlatency:12.5|ms",
        Instant::now(),
        number,
    );

    assert_eq!(samples.len(), 3);
    assert_eq!(samples[0].name, "requests");
    assert_eq!(samples[0].value, 3.0);
    assert_eq!(samples[0].kind, MetricKind::Counter);
    assert_eq!(
        samples[0].tags,
        vec![("service".to_string(), "api".to_string())]
    );
    assert_eq!(samples[2].kind, MetricKind::Timer);
}

#[test]
fn skips_invalid_lines() {
    let samples = parse_datagram(
        b"nope\nok:1|g\nalso_nope:wat|c",
        Instant::now(),
        number,
    );

    assert_eq!(samples.len(), 1);
    assert_eq!(samples[0].name, "ok");
}

#[test]
fn bytes_that_are_not_utf8_give_nothing() {
    let samples = parse_datagram(b"ok:1|g\n\xff\xfe", Instant::now(), number);
    assert!(samples.is_empty());
    assert!(parse_datagram(b"", Instant::now(), number).is_empty());
}

#[test]
fn text_beyond_ascii_is_read() {
    let samples = read("größe:1|g|#ort:köln");
    assert_eq!(samples[0].name, "größe");
    assert_eq!(samples[0].tags, vec![tag("ort", "köln")]);
}

#[test]
fn each_kind_has_its_code_and_its_word() {
    let words = [
        ("c", MetricKind::Counter, "counter"),
        ("g", MetricKind::Gauge, "gauge"),
        ("h", MetricKind::Histogram, "histogram"),
        ("ms", MetricKind::Timer, "timer"),
        ("d", MetricKind::Distribution, "distribution"),
        ("s", MetricKind::UniqueSet, "set"),
        ("x", MetricKind::Unknown("x".to_string()), "x"),
        ("", MetricKind::Unknown(String::new()), ""),
        ("C", MetricKind::Unknown("C".to_string()), "C"),
        ("mss", MetricKind::Unknown("mss".to_string()), "mss"),
    ];
    for (code, kind, word) in words {
        let parsed = MetricKind::parse(code);
        assert_eq!(parsed, kind);
        assert_eq!(parsed.to_string(), word);
        assert_eq!(parsed.clone(), kind);
    }
}

#[test]
fn a_line_needs_a_name_a_value_and_a_kind() {
    let now = Instant::now();
    assert!(parse_line("", now, number).is_none());
    assert!(parse_line("requests", now, number).is_none());
    assert!(parse_line("requests:3", now, number).is_none());
    assert!(parse_line("requests:|c", now, number).is_none());
    assert!(parse_line("requests: 3|c", now, number).is_none());
    assert!(parse_line("requests:3|", now, number).is_some());
    let nameless = parse_line(":3|c", now, number).unwrap();
    assert_eq!(nameless.name, "");
    assert_eq!(nameless.value, 3.0);
    assert_eq!(nameless.received_at, now);
}

#[test]
fn the_first_colon_ends_the_name() {
    assert!(parse_line("a:b:3|c", Instant::now(), number).is_none());
    let sample = parse_line("a|b:3|c", Instant::now(), number).unwrap();
    assert_eq!(sample.name, "a|b");
}

#[test]
fn tags_come_from_every_field_that_starts_with_a_hash() {
    let samples = read("m:1|c|@0.5|#a:1,b,,c:x:y|T1|#d:|#");
    assert_eq!(
        samples[0].tags,
        vec![tag("a", "1"), tag("b", ""), tag("c", "x:y"), tag("d", "")]
    );
}

#[test]
fn a_written_line_gives_its_parts() {
    let samples = read("name:-2.5|h|#k:v,l:w");
    assert_eq!(samples.len(), 1);
    assert_eq!(samples[0].name, "name");
    assert_eq!(samples[0].value, -2.5);
    assert_eq!(samples[0].kind, MetricKind::Histogram);
    assert_eq!(samples[0].tags, vec![tag("k", "v"), tag("l", "w")]);
}

#[test]
fn space_around_lines_is_dropped() {
    let samples = read("  a:1|g \r\n\t\n\u{a0}b:2|g\u{3000}\r\n");
    assert_eq!(samples.len(), 2);
    assert_eq!(samples[0].name, "a");
    assert_eq!(samples[0].kind, MetricKind::Gauge);
    assert_eq!(samples[1].name, "b");
    assert_eq!(samples[1].value, 2.0);
    assert_eq!(samples[1].kind, MetricKind::Gauge);
}

#[test]
fn lines_of_two_datagrams_are_read_as_those_of_one() {
    let both = read("a:1|c\nb:2|g");
    let first = read("a:1|c");
    let second = read("b:2|g");
    assert_eq!(both.len(), first.len() + second.len());
    assert_eq!(both[0].name, first[0].name);
    assert_eq!(both[1].name, second[0].name);
}

#[test]
fn samples_of_a_datagram_bear_its_moment() {
    let now = Instant::now();
    let samples = parse_datagram(b"a:1|c\nb:2|g", now, number);
    assert!(samples.iter().all(|sample| sample.received_at == now));
    let copy = samples[0].clone();
    assert_eq!(copy.name, "a");
    assert_eq!(copy.value, 1.0);
    assert_eq!(copy.received_at, now);
}

#[test]
fn joined_datagrams_give_the_samples_of_both() {
    let texts = [
        "", "a:1|c", "a:1|c\r", "a:1|c\n", "a:1|c \t", "\n\n", "nope", " b:2|g|#k:v\nc:x|c", "é:3|s",
    ];
    let now = Instant::now();
    for first in texts {
        for second in texts {
            let joined = [first.as_bytes(), b"\n", second.as_bytes()].concat();
            let both = parse_datagram(&joined, now, number);
            let mut expected = parse_datagram(first.as_bytes(), now, number);
            expected.extend(parse_datagram(second.as_bytes(), now, number));
            assert_eq!(both.len(), expected.len());
            for (left, right) in both.iter().zip(&expected) {
                assert_eq!(left.name, right.name);
                assert_eq!(left.value, right.value);
                assert_eq!(left.kind, right.kind);
                assert_eq!(left.tags, right.tags);
                assert_eq!(left.received_at, now);
            }
        }
    }
}
