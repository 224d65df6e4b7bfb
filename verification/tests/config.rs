use statui::config::{Endpoint, StatuiConfig, DEFAULT_INTERVAL, DEFAULT_TIMEOUT};
use std::collections::HashMap;

fn bare(name: &str) -> Endpoint {
    Endpoint {
        name: name.to_string(),
        url: "http://localhost".to_string(),
        interval: None,
        timeout: None,
        method: None,
        headers: HashMap::new(),
    }
}

#[test]
fn default_configuration() {
    let config = StatuiConfig::default();
    assert_eq!(config.default_interval, 60);
    assert_eq!(config.default_timeout, 5);
    assert!(config.endpoints.is_empty());
    assert_eq!(DEFAULT_INTERVAL, 60);
    assert_eq!(DEFAULT_TIMEOUT, 5);
}

#[test]
fn endpoint_without_overrides_takes_the_defaults() {
    let config = StatuiConfig { default_interval: 30, default_timeout: 2, endpoints: Vec::new() };
    let e = bare("api");
    assert_eq!(config.interval_for(&e), 30);
    assert_eq!(config.timeout_for(&e), 2);
    assert_eq!(e.effective_method(), "GET");
}

#[test]
fn endpoint_overrides_win() {
    let config = StatuiConfig::default();
    let mut e = bare("api");
    e.interval = Some(1);
    e.timeout = Some(9);
    e.method = Some("HEAD".to_string());
    assert_eq!(config.interval_for(&e), 1);
    assert_eq!(config.timeout_for(&e), 9);
    assert_eq!(e.effective_method(), "HEAD");
}

#[test]
fn timeout_may_exceed_the_interval() {
    let config = StatuiConfig::default();
    let mut e = bare("api");
    e.interval = Some(1);
    assert_eq!(config.interval_for(&e), 1);
    assert_eq!(config.timeout_for(&e), 5);
}

#[test]
fn clone_keeps_every_field() {
    let mut e = bare("api");
    e.interval = Some(3);
    e.method = Some("PUT".to_string());
    e.headers.insert("accept".to_string(), "text/plain".to_string());
    let config =
        StatuiConfig { default_interval: 7, default_timeout: 8, endpoints: vec![e, bare("b")] };
    let copy = config.clone();
    assert_eq!(copy.default_interval, 7);
    assert_eq!(copy.default_timeout, 8);
    assert_eq!(copy.endpoints.len(), 2);
    assert_eq!(copy.endpoints[0].name, "api");
    assert_eq!(copy.endpoints[0].url, "http://localhost");
    assert_eq!(copy.endpoints[0].interval, Some(3));
    assert_eq!(copy.endpoints[0].timeout, None);
    assert_eq!(copy.endpoints[0].method, Some("PUT".to_string()));
    assert_eq!(copy.endpoints[0].headers.get("accept"), Some(&"text/plain".to_string()));
    assert_eq!(copy.endpoints[1].name, "b");
    assert!(copy.endpoints[1].headers.is_empty());
}

#[test]
fn every_positive_interval_can_be_scheduled() {
    let mut a = bare("a");
    a.interval = Some(1);
    let config =
        StatuiConfig { default_interval: 60, default_timeout: 5, endpoints: vec![a, bare("b")] };
    assert_eq!(config.first_without_interval(), None);
    assert_eq!(StatuiConfig::default().first_without_interval(), None);
}

#[test]
fn zero_interval_is_found() {
    let mut a = bare("a");
    a.interval = Some(3);
    let mut b = bare("b");
    b.interval = Some(0);
    let mut c = bare("c");
    c.interval = Some(0);
    let config =
        StatuiConfig { default_interval: 60, default_timeout: 5, endpoints: vec![a, b, c] };
    assert_eq!(config.first_without_interval(), Some(1));
}

#[test]
fn zero_default_interval_hits_endpoints_without_their_own() {
    let mut a = bare("a");
    a.interval = Some(2);
    let config =
        StatuiConfig { default_interval: 0, default_timeout: 5, endpoints: vec![a, bare("b")] };
    assert_eq!(config.first_without_interval(), Some(1));
}

#[test]
fn descriptors_fill_in_the_defaults() {
    let mut a = bare("a");
    a.interval = Some(3);
    a.method = Some("HEAD".to_string());
    a.headers.insert("accept".to_string(), "*/*".to_string());
    let mut b = bare("b");
    b.timeout = Some(9);
    b.url = "http://b.example".to_string();
    let config =
        StatuiConfig { default_interval: 30, default_timeout: 2, endpoints: vec![a, b] };

    let descriptors = config.descriptors();
    assert_eq!(descriptors.len(), 2);

    assert_eq!(descriptors[0].name, "a");
    assert_eq!(descriptors[0].url, "http://localhost");
    assert_eq!(descriptors[0].method, "HEAD");
    assert_eq!(descriptors[0].interval, 3);
    assert_eq!(descriptors[0].timeout, 2);
    assert_eq!(descriptors[0].headers.get("accept"), Some(&"*/*".to_string()));

    assert_eq!(descriptors[1].name, "b");
    assert_eq!(descriptors[1].url, "http://b.example");
    assert_eq!(descriptors[1].method, "GET");
    assert_eq!(descriptors[1].interval, 30);
    assert_eq!(descriptors[1].timeout, 9);
    assert!(descriptors[1].headers.is_empty());

    let single = config.descriptor_of(&config.endpoints[1]);
    assert_eq!(single.name, "b");
    assert_eq!(single.interval, 30);
    assert_eq!(single.timeout, 9);
}

#[test]
fn default_configuration_has_no_descriptors() {
    assert!(StatuiConfig::default().descriptors().is_empty());
}

#[test]
fn default_configuration_gives_sixty_and_five_seconds() {
    let config = StatuiConfig::default();
    let descriptor = config.descriptor_of(&bare("api"));
    assert_eq!(descriptor.interval, 60);
    assert_eq!(descriptor.timeout, 5);
    assert_eq!(descriptor.method, "GET");
}
