use graphflow::config::{
    default_binary_chunk_size, default_compression_enabled, default_compression_threshold,
    default_heartbeat_interval, default_heartbeat_timeout, default_max_connections,
    default_max_message_size, default_owner, default_path, default_rate_limit,
    default_reconnect_attempts, default_reconnect_delay, default_repo, default_token,
    default_update_rate, GitHubSettings, WebSocketSettings,
};

#[test]
fn test_websocket_defaults() {
    let w = WebSocketSettings::default();
    assert!(w.compression_enabled);
    assert_eq!(w.compression_threshold, 1024);
    assert_eq!(w.max_message_size, 100 * 1024 * 1024);
    assert_eq!(w.update_rate, 5);
    assert_eq!(w.heartbeat_interval, 15000);
    assert_eq!(w.heartbeat_timeout, 60000);
    assert_eq!(w.max_connections, 1000);
    assert_eq!(w.reconnect_attempts, 3);
    assert_eq!(w.reconnect_delay, 5000);
    assert_eq!(w.binary_chunk_size, 64 * 1024);
}

#[test]
fn test_websocket_default_functions() {
    assert!(default_compression_enabled());
    assert_eq!(default_compression_threshold(), 1024);
    assert_eq!(default_max_message_size(), 104857600);
    assert_eq!(default_update_rate(), 5);
    assert_eq!(default_heartbeat_interval(), 15000);
    assert_eq!(default_heartbeat_timeout(), 60000);
    assert_eq!(default_max_connections(), 1000);
    assert_eq!(default_reconnect_attempts(), 3);
    assert_eq!(default_reconnect_delay(), 5000);
    assert_eq!(default_binary_chunk_size(), 65536);
}

#[test]
fn test_github_defaults() {
    let g = GitHubSettings::default();
    assert_eq!(g.token, "");
    assert_eq!(g.owner, "");
    assert_eq!(g.repo, "");
    assert_eq!(g.base_path, "");
    assert!(g.rate_limit);
    assert_eq!(default_token(), "");
    assert_eq!(default_owner(), "");
    assert_eq!(default_repo(), "");
    assert_eq!(default_path(), "");
    assert!(default_rate_limit());
}
