use spinal_tap::series::{canonical_tags, format_tags_full, labels_text, series_key};

fn pair(key: &str, value: &str) -> (String, String) {
    (key.to_string(), value.to_string())
}

#[test]
fn labelled_series_keys_are_tag_order_independent() {
    let left = vec![
        ("service".to_string(), "api".to_string()),
        ("host".to_string(), "a".to_string()),
    ];
    let right = vec![
        ("host".to_string(), "a".to_string()),
        ("service".to_string(), "api".to_string()),
    ];

    assert_eq!(
        series_key("requests", &left),
        series_key("requests", &right)
    );
    assert_eq!(labels_text(&left), "[host:a, service:api]");
}

#[test]
fn keys_hold_the_name_and_the_sorted_tags() {
    assert_eq!(series_key("m", &[]), "m");
    assert_eq!(
        series_key("m", &[pair("b", "2"), pair("a", ""), pair("b", "1")]),
        "m|a=|b=1|b=2"
    );
}

#[test]
fn labels_are_empty_without_tags() {
    assert_eq!(labels_text(&[]), "");
    assert_eq!(labels_text(&[pair("", "")]), "[]");
    assert_eq!(labels_text(&[pair("b", ""), pair("a", "1")]), "[a:1, b]");
}

#[test]
fn tags_are_listed_in_the_order_given() {
    assert_eq!(format_tags_full(&[]), "");
    assert_eq!(
        format_tags_full(&[pair("b", "2"), pair("a", "")]),
        "b:2, a"
    );
}

#[test]
fn tags_are_sorted_like_pairs_of_strings() {
    let tags = vec![
        pair("b", "1"),
        pair("a", "z"),
        pair("", "x"),
        pair("b", ""),
        pair("ab", "1"),
        pair("a", "é"),
        pair("ä", "1"),
        pair("\u{10000}", "1"),
        pair("\u{ffff}", "1"),
        pair("b", "1"),
        pair("A", "1"),
    ];
    let mut expected = tags.clone();
    expected.sort();
    assert_eq!(canonical_tags(&tags), expected);
    let empty: Vec<(String, String)> = vec![];
    assert_eq!(canonical_tags(&empty), empty);
}

#[test]
fn different_tags_give_different_keys() {
    let keys = [
        series_key("m", &[]),
        series_key("m", &[pair("a", "1")]),
        series_key("m", &[pair("a", "2")]),
        series_key("m", &[pair("b", "1")]),
        series_key("m", &[pair("a", "1"), pair("a", "1")]),
        series_key("n", &[pair("a", "1")]),
    ];
    for (i, left) in keys.iter().enumerate() {
        for (j, right) in keys.iter().enumerate() {
            assert_eq!(left == right, i == j);
        }
    }
}
