//! The configuration document and its defaults.

use vstd::prelude::*;

use super::pricing::ModelPricing;
use super::provider::Provider;
use super::upstream::UpstreamConfig;
use crate::text::{owned, str_eq};

verus! {

/// Name of the proxy upstream that auto-detects the provider from the request URL.
pub const AUTO_PROXY_UPSTREAM: &'static str = "__auto__";

/// Name of the proxy upstream that refuses forward-proxy traffic.
pub const FORBID_PROXY_UPSTREAM: &'static str = "__forbid__";

/// Top-level application configuration.
#[derive(Debug)]
pub struct AppConfig {
    pub model_pricing: Vec<ModelPricing>,
    pub proxy: ProxyConfig,
    pub server: ServerConfig,
    pub logging: LoggingConfig,
}

/// Proxy behaviour settings.
#[derive(Debug)]
pub struct ProxyConfig {
    pub active_upstream: String,
    pub active_proxy_upstream: String,
    pub active_effort: String,
    /// Optional global HTTP proxy; providers inherit it unless they override it.
    pub http_proxy: Option<String>,
    pub providers: Vec<Provider>,
    pub upstreams: Vec<UpstreamConfig>,
    pub retry_count: u32,
    pub request_timeout_secs: u64,
    pub request_retention_hours: u32,
    pub session_max_count: u32,
    pub session_delete_after_days: u32,
}

/// Network bind settings.
#[derive(Debug)]
pub struct ServerConfig {
    pub listen_address: String,
    pub http_port: u16,
    pub proxy_port: u16,
    pub mcp_proxy_port: u16,
    /// Auth token for the dashboard and WebSocket.
    pub auth_token: Option<String>,
    /// MCP forwarding destination, persisted across restarts.
    pub mcp_destination: Option<String>,
    /// Include prompt/response bodies in WebSocket events.
    pub ws_include_bodies: bool,
}

/// Logging configuration.
#[derive(Debug)]
pub struct LoggingConfig {
    pub level: String,
}

pub fn default_proxy_upstream() -> (r: String)
    ensures
        r@ == FORBID_PROXY_UPSTREAM@,
{
    owned(FORBID_PROXY_UPSTREAM)
}

pub fn default_retry_count() -> (r: u32)
    ensures
        r == 3,
{
    3
}

pub fn default_request_timeout_secs() -> (r: u64)
    ensures
        r == 120,
{
    120
}

pub fn default_request_retention_hours() -> (r: u32)
    ensures
        r == 8,
{
    8
}

pub fn default_max_sessions() -> (r: u32)
    ensures
        r == 20,
{
    20
}

pub fn default_listen_addr() -> (r: String)
    ensures
        r@ == "127.0.0.1"@,
{
    owned("127.0.0.1")
}

pub fn default_http_port() -> (r: u16)
    ensures
        r == 5000,
{
    5000
}

pub fn default_proxy_port() -> (r: u16)
    ensures
        r == 8888,
{
    8888
}

pub fn default_mcp_proxy_port() -> (r: u16)
    ensures
        r == 9999,
{
    9999
}

pub fn default_log_level() -> (r: String)
    ensures
        r@ == "info"@,
{
    owned("info")
}

/// The state of a default configuration.
pub open spec fn is_default_config(c: AppConfig) -> bool {
    &&& c.model_pricing@.len() == 0
    &&& c.proxy.active_upstream@.len() == 0
    &&& c.proxy.active_proxy_upstream@ == FORBID_PROXY_UPSTREAM@
    &&& c.proxy.active_effort@.len() == 0
    &&& c.proxy.http_proxy.is_none()
    &&& c.proxy.providers@.len() == 0
    &&& c.proxy.upstreams@.len() == 0
    &&& c.proxy.retry_count == 3
    &&& c.proxy.request_timeout_secs == 120
    &&& c.proxy.request_retention_hours == 8
    &&& c.proxy.session_max_count == 20
    &&& c.proxy.session_delete_after_days == 0
    &&& c.server.listen_address@ == "127.0.0.1"@
    &&& c.server.http_port == 5000
    &&& c.server.proxy_port == 8888
    &&& c.server.mcp_proxy_port == 9999
    &&& c.server.auth_token.is_none()
    &&& c.server.mcp_destination.is_none()
    &&& !c.server.ws_include_bodies
    &&& c.logging.level@ == "info"@
}

impl Default for AppConfig {
    fn default() -> (r: Self)
        ensures
            is_default_config(r),
    {
        AppConfig {
            model_pricing: Vec::new(),
            proxy: ProxyConfig {
                active_upstream: String::new(),
                active_proxy_upstream: default_proxy_upstream(),
                active_effort: String::new(),
                http_proxy: None,
                providers: Vec::new(),
                upstreams: Vec::new(),
                retry_count: 3,
                request_timeout_secs: 120,
                request_retention_hours: 8,
                session_max_count: 20,
                session_delete_after_days: 0,
            },
            server: ServerConfig {
                listen_address: default_listen_addr(),
                http_port: 5000,
                proxy_port: 8888,
                mcp_proxy_port: 9999,
                auth_token: None,
                mcp_destination: None,
                ws_include_bodies: false,
            },
            logging: LoggingConfig { level: default_log_level() },
        }
    }
}

/// Whether some upstream is named `name`.
pub open spec fn has_upstream(ups: Seq<UpstreamConfig>, name: Seq<char>) -> bool {
    exists|i: int| 0 <= i < ups.len() && #[trigger] ups[i].name@ == name
}

/// The active upstream after migration: kept when it names an upstream, otherwise
/// the first upstream's name (empty when there is none).
pub open spec fn migrated_active(p: ProxyConfig) -> Seq<char> {
    if has_upstream(p.upstreams@, p.active_upstream@) {
        p.active_upstream@
    } else if p.upstreams@.len() > 0 {
        p.upstreams@[0].name@
    } else {
        Seq::empty()
    }
}

/// The active proxy upstream after migration: kept when it is `__auto__` or names an
/// upstream, otherwise the migrated active upstream.
pub open spec fn migrated_proxy(p: ProxyConfig) -> Seq<char> {
    if p.active_proxy_upstream@ != AUTO_PROXY_UPSTREAM@ && !has_upstream(
        p.upstreams@,
        p.active_proxy_upstream@,
    ) {
        migrated_active(p)
    } else {
        p.active_proxy_upstream@
    }
}

/// Whether some upstream is named `name`.
pub fn upstream_exists(ups: &Vec<UpstreamConfig>, name: &str) -> (b: bool)
    ensures
        b == has_upstream(ups@, name@),
{
    let mut i: usize = 0;
    while i < ups.len()
        invariant
            i <= ups.len(),
            forall|j: int| 0 <= j < i ==> #[trigger] ups@[j].name@ != name@,
        decreases ups.len() - i,
    {
        if str_eq(ups[i].name.as_str(), name) {
            return true;
        }
        i += 1;
    }
    false
}

impl ProxyConfig {
    /// Self-healing migration: repoint `active_upstream` when it names no upstream,
    /// and `active_proxy_upstream` when it is neither `__auto__` nor an upstream.
    pub fn migrate(&mut self)
        ensures
            final(self).active_upstream@ == migrated_active(*old(self)),
            final(self).active_proxy_upstream@ == migrated_proxy(*old(self)),
            final(self).active_effort == old(self).active_effort,
            final(self).http_proxy == old(self).http_proxy,
            final(self).providers == old(self).providers,
            final(self).upstreams == old(self).upstreams,
            final(self).retry_count == old(self).retry_count,
            final(self).request_timeout_secs == old(self).request_timeout_secs,
            final(self).request_retention_hours == old(self).request_retention_hours,
            final(self).session_max_count == old(self).session_max_count,
            final(self).session_delete_after_days == old(self).session_delete_after_days,
    {
        if !upstream_exists(&self.upstreams, self.active_upstream.as_str()) {
            self.active_upstream = if self.upstreams.len() > 0 {
                self.upstreams[0].name.clone()
            } else {
                String::new()
            };
        }
        if !str_eq(self.active_proxy_upstream.as_str(), AUTO_PROXY_UPSTREAM) && !upstream_exists(
            &self.upstreams,
            self.active_proxy_upstream.as_str(),
        ) {
            self.active_proxy_upstream = self.active_upstream.clone();
        }
    }
}

/// Migration is idempotent: a configuration that already holds the migrated
/// upstream names is left unchanged by a second migration.
pub proof fn migrate_is_idempotent(p: ProxyConfig, q: ProxyConfig)
    requires
        q.upstreams == p.upstreams,
        q.active_upstream@ == migrated_active(p),
        q.active_proxy_upstream@ == migrated_proxy(p),
    ensures
        migrated_active(q) == q.active_upstream@,
        migrated_proxy(q) == q.active_proxy_upstream@,
{
    if !has_upstream(p.upstreams@, p.active_upstream@) && p.upstreams@.len() > 0 {
        assert(q.upstreams@[0].name@ == q.active_upstream@);
    }
    if has_upstream(p.upstreams@, p.active_upstream@) {
        assert(has_upstream(q.upstreams@, q.active_upstream@));
    }
    if p.active_proxy_upstream@ != AUTO_PROXY_UPSTREAM@ && !has_upstream(
        p.upstreams@,
        p.active_proxy_upstream@,
    ) {
        if q.active_upstream@.len() > 0 || has_upstream(q.upstreams@, q.active_upstream@) {
        }
    }
}

/// After migration the active upstream names an existing upstream whenever any
/// upstream exists, and the active proxy upstream is `__auto__`, an existing
/// upstream, or the active upstream.
pub proof fn migrate_points_at_existing_upstreams(p: ProxyConfig)
    ensures
        p.upstreams@.len() > 0 ==> has_upstream(p.upstreams@, migrated_active(p)),
        migrated_proxy(p) == AUTO_PROXY_UPSTREAM@ || has_upstream(p.upstreams@, migrated_proxy(p))
            || migrated_proxy(p) == migrated_active(p),
{
    if p.upstreams@.len() > 0 && !has_upstream(p.upstreams@, p.active_upstream@) {
        assert(p.upstreams@[0].name@ == migrated_active(p));
    }
}


/// The first upstream that has no default tier, if any.
pub fn upstream_without_default(ups: &Vec<UpstreamConfig>) -> (r: Option<usize>)
    ensures
        match r {
            Some(i) => i < ups@.len() && ups@[i as int].default is None && forall|j: int|
                0 <= j < i ==> ups@[j].default is Some,
            None => forall|j: int| 0 <= j < ups@.len() ==> ups@[j].default is Some,
        },
{
    let mut i: usize = 0;
    while i < ups.len()
        invariant
            i <= ups@.len(),
            forall|j: int| 0 <= j < i ==> ups@[j].default is Some,
        decreases ups@.len() - i,
    {
        if ups[i].default.is_none() {
            return Some(i);
        }
        i += 1;
    }
    None
}

} // verus!
