use careerbot::collector::{enabled_collectors, Collector, IngestorConfig, MicrosoftCollector};
use std::collections::HashSet;
use std::str::FromStr;

#[test]
fn collector_test_as_str_microsoft() {
    assert_eq!("microsoft", Collector::Microsoft.as_str())
}

#[test]
fn collector_test_as_str_google() {
    assert_eq!("google", Collector::Google.as_str())
}

#[test]
fn collector_test_from_str_microsoft() {
    let result = Collector::from_str("microsoft");
    assert!(result.is_ok());
    assert_eq!(Collector::Microsoft, result.unwrap())
}

#[test]
fn collector_test_from_str_google() {
    let result = Collector::from_str("google");
    assert!(result.is_ok());
    assert_eq!(Collector::Google, result.unwrap());
}

#[test]
fn collector_test_from_str_invalid_value() {
    assert!(Collector::from_str("invalid").is_err())
}

#[test]
fn collector_test_load_collector_config_valid_values() {
    let config = vec![String::from("microsoft"), String::from("google")];
    let expected: HashSet<_> = vec![Collector::Microsoft, Collector::Google].into_iter().collect();
    let actual = Collector::load_collector_config(&config).into_iter().collect();
    assert_eq!(expected, actual)
}

#[test]
fn collector_test_load_collector_config_invalid_values() {
    let invalid_config = vec![String::from("invalid")];
    assert!(Collector::load_collector_config(&invalid_config).is_empty())
}

#[test]
fn collector_test_load_collector_config_mixed_values() {
    let mixed_config = vec![String::from("microsoft"), String::from("invalid")];
    let expected = vec![Collector::Microsoft];
    let actual = Collector::load_collector_config(&mixed_config);
    assert_eq!(expected, actual)
}

#[test]
fn collector_test_load_collector_config_empty() {
    assert!(Collector::load_collector_config(&[]).is_empty())
}

#[test]
fn collector_test_load_collector_config_with_duplicates() {
    let duplicate_config = vec![String::from("microsoft"), String::from("microsoft")];
    let expected = vec![Collector::Microsoft];
    assert_eq!(expected, Collector::load_collector_config(&duplicate_config))
}

#[test]
fn collector_test_load_collector_config_case_insensitivity() {
    let case_insensitive_config = vec![String::from("micRosOft")];
    let expected = vec![Collector::Microsoft];
    assert_eq!(expected, Collector::load_collector_config(&case_insensitive_config))
}

#[test]
fn test_default_config() {
    let default_config = IngestorConfig::default();
    let expected_collectors = vec![String::from("microsoft")];
    let expected_duration = 5 * 60;

    assert_eq!(expected_collectors, default_config.collectors);
    assert_eq!(expected_duration, default_config.delay_duration);
}

#[test]
fn invalid_name_error_names_the_input() {
    match Collector::parse("yahoo") {
        Err(m) => assert_eq!(m, "Invalid Collector Name: yahoo"),
        Ok(_) => panic!("yahoo is no collector"),
    }
    // Parsing is exact: only configuration loading lowercases.
    assert!(Collector::parse("Google").is_err());
}

#[test]
fn names_round_trip_through_parse() {
    for c in [Collector::Microsoft, Collector::Google] {
        assert_eq!(Collector::parse(c.as_str()).ok(), Some(c));
    }
}

#[test]
fn loading_keeps_first_appearance_order_without_repeats() {
    let names: Vec<String> = ["GOOGLE", "x", "microsoft", "google", "Microsoft"]
        .iter()
        .map(|s| s.to_string())
        .collect();
    assert_eq!(Collector::load_collector_config(&names), vec![Collector::Google, Collector::Microsoft]);
    assert_eq!(Collector::collectors_from_names(&names), vec![Collector::Microsoft, Collector::Google]);
}

#[test]
fn only_microsoft_has_an_implementation() {
    assert_eq!(Collector::all_variants(), vec![Collector::Microsoft]);
    assert_eq!(enabled_collectors(), vec![Collector::Microsoft]);
}

#[test]
fn microsoft_collector_queries_the_search_api() {
    let c = MicrosoftCollector::new();
    assert_eq!(c.endpoint(), "https://gcsservices.careers.microsoft.com/search/api/v1/search");
    assert_eq!(c.name(), "microsoft");
    let params = c.search_params();
    let flat: Vec<(&str, &str)> = params.iter().map(|(k, v)| (k.as_str(), v.as_str())).collect();
    assert_eq!(flat, vec![("pg", "1"), ("pgSz", "20"), ("o", "Recent"), ("flt", "true")]);
}
