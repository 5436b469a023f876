//! Plain configuration records consumed by the server: socket tunables,
//! debug switches, network and security options, and the settings of the
//! upstream collaborators. Loading them from a file or the environment
//! happens outside the verified core; here they are data with defaults.

use vstd::prelude::*;

verus! {

/// Socket transport tunables.
#[derive(Debug, Clone)]
pub struct WebSocketSettings {
    pub compression_enabled: bool,
    pub compression_threshold: usize,
    pub max_message_size: usize,
    pub update_rate: u32,
    pub heartbeat_interval: u64,
    pub heartbeat_timeout: u64,
    pub max_connections: usize,
    pub reconnect_attempts: u32,
    pub reconnect_delay: u64,
    pub binary_chunk_size: usize,
}

pub fn default_compression_enabled() -> (r: bool)
    ensures
        r == true,
{
    true
}

pub fn default_compression_threshold() -> (r: usize)
    ensures
        r == 1024usize,
{
    1024
}

pub fn default_max_message_size() -> (r: usize)
    ensures
        r == 104857600usize,
{
    100 * 1024 * 1024
}

pub fn default_update_rate() -> (r: u32)
    ensures
        r == 5u32,
{
    5
}

pub fn default_heartbeat_interval() -> (r: u64)
    ensures
        r == 15000u64,
{
    15000
}

pub fn default_heartbeat_timeout() -> (r: u64)
    ensures
        r == 60000u64,
{
    60000
}

pub fn default_max_connections() -> (r: usize)
    ensures
        r == 1000usize,
{
    1000
}

pub fn default_reconnect_attempts() -> (r: u32)
    ensures
        r == 3u32,
{
    3
}

pub fn default_reconnect_delay() -> (r: u64)
    ensures
        r == 5000u64,
{
    5000
}

pub fn default_binary_chunk_size() -> (r: usize)
    ensures
        r == 65536usize,
{
    64 * 1024
}

impl Default for WebSocketSettings {
    /// The documented defaults of every socket tunable.
    fn default() -> (r: WebSocketSettings)
        ensures
            r.compression_enabled == true,
            r.compression_threshold == 1024usize,
            r.max_message_size == 104857600usize,
            r.update_rate == 5u32,
            r.heartbeat_interval == 15000u64,
            r.heartbeat_timeout == 60000u64,
            r.max_connections == 1000usize,
            r.reconnect_attempts == 3u32,
            r.reconnect_delay == 5000u64,
            r.binary_chunk_size == 65536usize,
    {
        WebSocketSettings {
            compression_enabled: default_compression_enabled(),
            compression_threshold: default_compression_threshold(),
            max_message_size: default_max_message_size(),
            update_rate: default_update_rate(),
            heartbeat_interval: default_heartbeat_interval(),
            heartbeat_timeout: default_heartbeat_timeout(),
            max_connections: default_max_connections(),
            reconnect_attempts: default_reconnect_attempts(),
            reconnect_delay: default_reconnect_delay(),
            binary_chunk_size: default_binary_chunk_size(),
        }
    }
}

/// Switches for server- or client-side diagnostics.
#[derive(Debug, Clone)]
pub struct DebugSettings {
    pub enabled: bool,
    pub enable_websocket_debug: bool,
    pub enable_data_debug: bool,
    pub log_binary_headers: bool,
    pub log_full_json: bool,
}

/// Where the markdown corpus lives and how it is fetched.
#[derive(Debug, Clone)]
pub struct GitHubSettings {
    pub token: String,
    pub owner: String,
    pub repo: String,
    pub base_path: String,
    pub rate_limit: bool,
}

pub fn default_token() -> (r: String)
    ensures
        r@ == Seq::<char>::empty(),
{
    String::new()
}

pub fn default_owner() -> (r: String)
    ensures
        r@ == Seq::<char>::empty(),
{
    String::new()
}

pub fn default_repo() -> (r: String)
    ensures
        r@ == Seq::<char>::empty(),
{
    String::new()
}

pub fn default_path() -> (r: String)
    ensures
        r@ == Seq::<char>::empty(),
{
    String::new()
}

pub fn default_rate_limit() -> (r: bool)
    ensures
        r == true,
{
    true
}

impl Default for GitHubSettings {
    /// Empty coordinates, rate limiting on.
    fn default() -> (r: GitHubSettings)
        ensures
            r.token@ == Seq::<char>::empty(),
            r.owner@ == Seq::<char>::empty(),
            r.repo@ == Seq::<char>::empty(),
            r.base_path@ == Seq::<char>::empty(),
            r.rate_limit == true,
    {
        GitHubSettings {
            token: default_token(),
            owner: default_owner(),
            repo: default_repo(),
            base_path: default_path(),
            rate_limit: default_rate_limit(),
        }
    }
}

/// Bind address, TLS and rate-limit options of the HTTP front.
#[derive(Debug, Clone)]
pub struct NetworkSettings {
    pub domain: String,
    pub port: u16,
    pub bind_address: String,
    pub enable_tls: bool,
    pub min_tls_version: String,
    pub enable_http2: bool,
    pub max_request_size: usize,
    pub enable_rate_limiting: bool,
    pub rate_limit_requests: u32,
    pub rate_limit_window: u32,
    pub tunnel_id: String,
}

/// Cross-origin, cookie and audit options.
#[derive(Debug, Clone)]
pub struct SecuritySettings {
    pub enable_cors: bool,
    pub allowed_origins: Vec<String>,
    pub enable_csrf: bool,
    pub csrf_token_timeout: u32,
    pub session_timeout: u32,
    pub cookie_secure: bool,
    pub cookie_httponly: bool,
    pub cookie_samesite: String,
    pub enable_security_headers: bool,
    pub enable_request_validation: bool,
    pub enable_audit_logging: bool,
    pub audit_log_path: String,
}

/// Coordinates of the retrieval/chat collaborator.
#[derive(Debug, Clone)]
pub struct RagFlowSettings {
    pub api_key: String,
    pub base_url: String,
    pub timeout: u64,
    pub max_retries: u32,
}

/// Coordinates of the realtime speech collaborator.
#[derive(Debug, Clone)]
pub struct OpenAISettings {
    pub api_key: String,
    pub base_url: String,
    pub timeout: u64,
    pub rate_limit: u32,
    pub model: String,
}

/// Request-handling defaults shared by the API clients.
#[derive(Debug, Clone)]
pub struct DefaultSettings {
    pub max_concurrent_requests: usize,
    pub max_retries: u32,
    pub retry_delay: u64,
    pub api_client_timeout: u64,
    pub max_payload_size: usize,
    pub enable_request_logging: bool,
    pub enable_metrics: bool,
    pub metrics_port: u16,
    pub log_level: String,
    pub log_format: String,
}

} // verus!
