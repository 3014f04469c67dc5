use nexora::loadtest::config::LoadTestConfig;

#[test]
fn config_default_config() {
    let c = LoadTestConfig::default();
    assert_eq!(c.concurrent, 10);
    assert_eq!(c.total, 100);
    assert_eq!(c.method, "GET");
}

#[test]
fn config_builder_methods() {
    let c = LoadTestConfig::new("http://test")
        .with_concurrent(50)
        .with_total(1000)
        .with_method("POST")
        .with_timeout(3000)
        .with_header("Authorization", "Bearer token")
        .with_body(r#"{"key":"value"}"#);
    assert_eq!(c.url, "http://test");
    assert_eq!(c.concurrent, 50);
    assert_eq!(c.total, 1000);
    assert_eq!(c.method, "POST");
    assert_eq!(c.timeout_ms, 3000);
    assert_eq!(c.headers.len(), 1);
    assert!(c.body.is_some());
}

#[test]
fn concurrent_minimum_1() {
    let c = LoadTestConfig::new("test").with_concurrent(0);
    assert_eq!(c.concurrent, 1);
}

#[test]
fn total_minimum_1() {
    let c = LoadTestConfig::new("test").with_total(0);
    assert_eq!(c.total, 1);
}

#[test]
fn requests_per_worker() {
    let c = LoadTestConfig::new("test").with_concurrent(10).with_total(100);
    assert_eq!(c.requests_per_worker(), 10);
}

#[test]
fn requests_per_worker_rounds_down() {
    let c = LoadTestConfig::new("test").with_concurrent(3).with_total(10);
    assert_eq!(c.requests_per_worker(), 3);
}

#[test]
fn requests_per_worker_at_least_one() {
    let c = LoadTestConfig::new("test").with_concurrent(50).with_total(10);
    assert_eq!(c.requests_per_worker(), 1);
}

#[test]
fn default_url_and_timeout() {
    let c = LoadTestConfig::default();
    assert_eq!(c.url, "http://localhost:8080/api/health");
    assert_eq!(c.timeout_ms, 5000);
    assert!(c.headers.is_empty());
    assert!(c.body.is_none());
}
