use umami_alerts::api::relabel_metrics;
use umami_alerts::countries::{get_country_name, CountryMap};
use umami_alerts::AppError;

fn map() -> CountryMap {
    CountryMap::from_json(r#"{"DE": "Germany", "IN": "India", "US": "United States"}"#).unwrap()
}

#[test]
fn known_codes_get_names() {
    let m = map();
    assert_eq!(get_country_name("DE", &m), "Germany");
    assert_eq!(get_country_name("US", &m), "United States");
    assert_eq!(m.lookup("IN").map(|s| s.as_str()), Some("India"));
    assert_eq!(m.lookup("FR"), None);
}

#[test]
fn unknown_and_missing_codes() {
    let m = map();
    assert_eq!(get_country_name("", &m), "Unknown");
    assert_eq!(get_country_name("(Unknown)", &m), "Unknown");
    assert_eq!(get_country_name("  (Unknown)\n", &m), "Unknown");
    assert_eq!(get_country_name("XX", &m), "XX");
    assert_eq!(get_country_name("DE", &CountryMap::new()), "DE");
}

#[test]
fn malformed_json_is_a_json_error() {
    assert!(matches!(CountryMap::from_json("[1, 2]"), Err(AppError::Json(_))));
    assert!(matches!(CountryMap::from_json(r#"{"DE": 1}"#), Err(AppError::Json(_))));
}

#[test]
fn only_country_metrics_are_relabelled() {
    let m = map();
    let labels = vec!["DE".to_string(), "".to_string(), "ZZ".to_string()];
    assert_eq!(
        relabel_metrics("country", labels.clone(), &m),
        vec!["Germany".to_string(), "Unknown".to_string(), "ZZ".to_string()]
    );
    assert_eq!(relabel_metrics("browser", labels.clone(), &m), labels);
}
