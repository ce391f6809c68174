use solana_proxy::health::{handle_health, health_report};
use solana_proxy::json::Json;

fn text(value: &str) -> Json {
    Json::Text(value.to_string())
}

#[test]
fn report_names_the_time_and_the_addresses() {
    let report = handle_health(1_767_628_800, 0, "http://localhost:8899", "http://localhost:8900").unwrap();
    assert_eq!(
        report,
        Json::Object(vec![
            ("status".to_string(), text("ok")),
            ("timestamp".to_string(), text("2026-01-05T16:00:00Z")),
            ("validator_url".to_string(), text("http://localhost:8899")),
            ("entrypoint".to_string(), text("http://localhost:8900")),
        ])
    );
}

#[test]
fn report_keeps_the_fraction_of_a_second() {
    let report = handle_health(0, 250_000_000, "v", "e").unwrap();
    assert_eq!(report.get("timestamp"), Some(&text("1970-01-01T00:00:00.250Z")));
}

#[test]
fn no_report_outside_the_calendar() {
    assert_eq!(handle_health(i64::MAX, 0, "v", "e"), None);
    assert_eq!(handle_health(0, 2_000_000_000, "v", "e"), None);
}

#[test]
fn report_at_a_given_time() {
    let report = health_report("now".to_string(), "v", "e");
    assert_eq!(report.get("timestamp"), Some(&text("now")));
    assert_eq!(report.get("status"), Some(&text("ok")));
    assert_eq!(report.get("validator_url"), Some(&text("v")));
    assert_eq!(report.get("entrypoint"), Some(&text("e")));
}
