use magic_eye::settings::{target_address_key, ConfigError, SettingValue, Settings};

fn text(v: &str) -> SettingValue {
    SettingValue::Text(v.to_string())
}

fn record(pairs: &[(&str, &str)]) -> Settings {
    let mut s = Settings::new();
    for (k, v) in pairs {
        s.set(k, text(v));
    }
    s
}

#[test]
fn get_of_missing_key_is_none() {
    let s = record(&[("a", "1")]);
    assert_eq!(s.get("b"), None);
    assert_eq!(s.get("a"), Some(&text("1")));
}

#[test]
fn set_overwrites_existing_key() {
    let mut s = record(&[("a", "1"), ("b", "2")]);
    s.set("a", text("3"));
    assert_eq!(s.get("a"), Some(&text("3")));
    assert_eq!(s.get("b"), Some(&text("2")));
    assert_eq!(s.entries().len(), 2);
}

#[test]
fn merge_of_two_patches_keeps_both() {
    let mut s = Settings::new();
    s.merge(record(&[("a", "1")]));
    s.merge(record(&[("b", "2")]));
    assert_eq!(s.get("a"), Some(&text("1")));
    assert_eq!(s.get("b"), Some(&text("2")));
}

#[test]
fn merge_overrides_and_preserves() {
    let mut s = record(&[("a", "1"), ("c", "x")]);
    s.merge(record(&[("a", "9"), ("b", "2")]));
    assert_eq!(s.get("a"), Some(&text("9")));
    assert_eq!(s.get("b"), Some(&text("2")));
    assert_eq!(s.get("c"), Some(&text("x")));
}

#[test]
fn merge_twice_equals_merge_once() {
    let patch = [("a", "1"), ("b", "2")];
    let mut once = record(&[("a", "0"), ("z", "5")]);
    once.merge(record(&patch));
    let mut twice = record(&[("a", "0"), ("z", "5")]);
    twice.merge(record(&patch));
    twice.merge(record(&patch));
    assert_eq!(once.to_json(), twice.to_json());
}

#[test]
fn from_pairs_later_entry_wins() {
    let pairs = vec![("a".to_string(), text("1")), ("a".to_string(), text("2"))];
    let s = Settings::from_pairs(pairs);
    assert_eq!(s.get("a"), Some(&text("2")));
    assert_eq!(s.entries().len(), 1);
}

#[test]
fn target_address_round_trip() {
    let mut s = Settings::new();
    assert_eq!(s.target_address(), None);
    assert_eq!(s.set_target_address("192.168.1.5:8080"), Ok(()));
    assert_eq!(s.target_address(), Some("192.168.1.5:8080".to_string()));
}

#[test]
fn empty_target_address_is_refused() {
    let mut s = record(&[("api_ip", "10.0.0.1")]);
    assert_eq!(s.set_target_address(""), Err(ConfigError::EmptyAddress));
    assert_eq!(s.target_address(), Some("10.0.0.1".to_string()));
}

#[test]
fn non_text_address_is_not_an_address() {
    let mut s = Settings::new();
    s.set("api_ip", SettingValue::Bool(true));
    assert_eq!(s.target_address(), None);
}

#[test]
fn reserved_key_name() {
    assert_eq!(target_address_key(), "api_ip");
}

#[test]
fn json_text_of_record() {
    let s = record(&[("b", "2"), ("a", "1")]);
    assert_eq!(s.to_json(), "{\"a\":\"1\",\"b\":\"2\"}");
}

#[test]
fn json_round_trip() {
    let s = record(&[("api_ip", "1.2.3.4:80"), ("theme", "dark \"x\"")]);
    let back = Settings::from_json(&s.to_json()).unwrap();
    assert_eq!(back.get("api_ip"), Some(&text("1.2.3.4:80")));
    assert_eq!(back.get("theme"), Some(&text("dark \"x\"")));
}

#[test]
fn scalar_values_are_kept() {
    let s = Settings::from_json("{\"port\": 8080, \"ratio\": 0.1, \"dark\": true, \"none\": null}").unwrap();
    assert_eq!(s.get("port"), Some(&SettingValue::Number(serde_json::Number::from(8080))));
    assert_eq!(s.get("dark"), Some(&SettingValue::Bool(true)));
    assert_eq!(s.get("none"), Some(&SettingValue::Null));
    assert_eq!(s.to_json(), "{\"dark\":true,\"none\":null,\"port\":8080,\"ratio\":0.1}");
    let back = Settings::from_json(&s.to_json()).unwrap();
    assert_eq!(back.to_json(), s.to_json());
}

#[test]
fn nested_values_are_a_parse_error() {
    assert_eq!(Settings::from_json("{\"a\": [1]}").unwrap_err(), ConfigError::Parse);
    assert_eq!(Settings::from_json("{\"a\": {\"b\": 1}}").unwrap_err(), ConfigError::Parse);
}

#[test]
fn corrupt_text_is_a_parse_error() {
    assert_eq!(Settings::from_json("{\"a\": ").unwrap_err(), ConfigError::Parse);
    assert_eq!(Settings::from_json("[1, 2]").unwrap_err(), ConfigError::Parse);
}

#[test]
fn load_without_file_is_empty() {
    let s = Settings::load(None).unwrap();
    assert!(s.entries().is_empty());
    let t = Settings::load(Some("{\"k\":\"v\"}")).unwrap();
    assert_eq!(t.get("k"), Some(&text("v")));
    assert_eq!(Settings::load(Some("not json")).unwrap_err(), ConfigError::Parse);
}
