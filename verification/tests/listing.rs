use eans::json::render_list;
use eans::model::Ean;
use eans::service::handle_fetch;
use eans::service::FetchError;
use eans::config::ConfigError;

fn entry(ean: &str, name: &str) -> Ean {
    Ean { ean: ean.to_string(), name: name.to_string() }
}

#[test]
fn empty_listing_is_ok_with_empty_array() {
    let resp = handle_fetch(Ok(Vec::new()));
    assert_eq!(resp.status, 200);
    assert_eq!(resp.body, "[]");
    assert_eq!(resp.content_type(), "application/json");
}

#[test]
fn round_trip_single_row() {
    let rows = vec![entry("1234567890123", "Widget")];
    let resp = handle_fetch(Ok(rows));
    assert_eq!(resp.status, 200);
    assert_eq!(resp.body, "[{\"ean\":\"1234567890123\",\"name\":\"Widget\"}]");
}

#[test]
fn fixed_rows_come_back_in_order() {
    let rows = vec![
        entry("0000000000001", "First"),
        entry("0000000000002", "Second"),
        entry("0000000000003", "Third"),
    ];
    let resp = handle_fetch(Ok(rows));
    assert_eq!(resp.status, 200);
    assert_eq!(
        resp.body,
        "[{\"ean\":\"0000000000001\",\"name\":\"First\"},\
         {\"ean\":\"0000000000002\",\"name\":\"Second\"},\
         {\"ean\":\"0000000000003\",\"name\":\"Third\"}]"
    );
}

#[test]
fn unreachable_database_is_generic_500() {
    let resp = handle_fetch(Err(FetchError::Connect));
    assert_eq!(resp.status, 500);
    assert_eq!(resp.body, "Internal Server Error");
    assert_eq!(resp.content_type(), "text/plain");
}

#[test]
fn prepare_and_query_failures_are_generic_500() {
    for err in [FetchError::Prepare, FetchError::Query] {
        let resp = handle_fetch(Err(err));
        assert_eq!(resp.status, 500);
        assert_eq!(resp.body, "Internal Server Error");
    }
}

#[test]
fn missing_configuration_is_generic_500() {
    let resp = handle_fetch(Err(FetchError::Config(ConfigError::MissingHost)));
    assert_eq!(resp.status, 500);
    assert_eq!(resp.body, "Internal Server Error");
}

#[test]
fn quotes_and_backslashes_are_escaped() {
    let rows = vec![entry("e", "a\"b\\c")];
    let body = render_list(&rows);
    assert_eq!(body, "[{\"ean\":\"e\",\"name\":\"a\\\"b\\\\c\"}]");
}

#[test]
fn control_characters_are_escaped() {
    let rows = vec![entry("e", "\n\t\r\u{8}\u{c}\u{1}\u{1f}")];
    let body = render_list(&rows);
    assert_eq!(
        body,
        "[{\"ean\":\"e\",\"name\":\"\\n\\t\\r\\b\\f\\u0001\\u001f\"}]"
    );
}

#[test]
fn other_characters_stay_verbatim() {
    let rows = vec![entry("4006381333931", "Uberraschung {mit} [Klammern], :und: Schnee")];
    let body = render_list(&rows);
    assert_eq!(
        body,
        "[{\"ean\":\"4006381333931\",\"name\":\"Uberraschung {mit} [Klammern], :und: Schnee\"}]"
    );
}
