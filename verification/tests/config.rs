use twilight_dispatch::config::{amqp_url, is_metrics_request, log_enabled, node_address, redis_url};

#[test]
fn connection_addresses() {
    assert_eq!(redis_url("localhost", 6379), "redis://localhost:6379/");
    assert_eq!(amqp_url("guest", "pw", "rabbit", 5672), "amqp://guest:pw@rabbit:5672/%2f");
    assert_eq!(node_address("127.0.0.1", 2333), "127.0.0.1:2333");
}

#[test]
fn log_channel_zero_is_off() {
    assert!(!log_enabled(0));
    assert!(log_enabled(127121515262115840));
}

#[test]
fn only_get_metrics_is_served() {
    assert!(is_metrics_request("GET", "/metrics"));
    assert!(!is_metrics_request("POST", "/metrics"));
    assert!(!is_metrics_request("GET", "/"));
    assert!(!is_metrics_request("GET", "/metrics/"));
}
