//! Configuration of the monitor: its sections, their defaults, the
//! substitution of `${VAR}` references, and the consistency checks a loaded
//! configuration must pass.
use vstd::prelude::*;
use crate::strmap::{StrMap, string_views};
use crate::text::{
    debug_quoted, dec_digits, first_occurrence_from, joined, lemma_first_occurrence, push_str,
    str_eq, string_from, string_of_chars,
};

verus! {

/// Error type for configuration issues.
#[derive(Debug, Clone)]
pub struct ConfigError {
    /// Error message.
    pub message: String,
}

impl ConfigError {
    /// `Config error: ` and the message.
    pub fn to_string(&self) -> (r: String)
        ensures
            r@ == "Config error: "@ + self.message@,
    {
        let mut s = string_from("Config error: ");
        push_str(&mut s, self.message.as_str());
        s
    }
}

/// Metadata section.
#[derive(Debug, Clone)]
pub struct Metadata {
    /// Project name.
    pub name: String,
    /// Project version.
    pub version: String,
    /// Optional description.
    pub description: Option<String>,
}

/// A chain endpoint.
#[derive(Debug, Clone)]
pub struct ChainConfig {
    /// Chain identifier used by invariants.
    pub id: String,
    /// Chain type ("evm", ...).
    pub chain_type: String,
    /// Numeric chain ID.
    pub chain_id: u64,
    /// RPC endpoints.
    pub rpc_urls: Vec<String>,
    /// Optional websocket endpoint.
    pub ws_url: Option<String>,
    /// Polling interval.
    pub poll_interval_ms: u64,
    /// Request timeout.
    pub timeout_ms: u64,
    /// Retry policy.
    pub retry: RetryConfig,
    /// Connection pool.
    pub pool: PoolConfig,
}

/// The default polling interval, in milliseconds.
pub fn default_poll_interval() -> (r: u64)
    ensures
        r == 12000,
{
    12000
}

/// The default request timeout, in milliseconds.
pub fn default_timeout() -> (r: u64)
    ensures
        r == 30000,
{
    30000
}

/// Retry policy.
#[derive(Debug, Clone)]
pub struct RetryConfig {
    /// Maximum attempts.
    pub max_attempts: u32,
    /// First backoff.
    pub initial_backoff_ms: u64,
    /// Largest backoff.
    pub max_backoff_ms: u64,
}

impl Default for RetryConfig {
    fn default() -> (r: Self)
        ensures
            r.max_attempts == 0 && r.initial_backoff_ms == 0 && r.max_backoff_ms == 0,
    {
        RetryConfig { max_attempts: 0, initial_backoff_ms: 0, max_backoff_ms: 0 }
    }
}

/// The default number of attempts.
pub fn default_max_attempts() -> (r: u32)
    ensures
        r == 3,
{
    3
}

/// The default first backoff, in milliseconds.
pub fn default_initial_backoff() -> (r: u64)
    ensures
        r == 100,
{
    100
}

/// The default largest backoff, in milliseconds.
pub fn default_max_backoff() -> (r: u64)
    ensures
        r == 400,
{
    400
}

/// Connection pool.
#[derive(Debug, Clone)]
pub struct PoolConfig {
    /// Maximum connections.
    pub max_connections: u32,
    /// Keepalive.
    pub keepalive_seconds: u64,
}

impl Default for PoolConfig {
    fn default() -> (r: Self)
        ensures
            r.max_connections == 0 && r.keepalive_seconds == 0,
    {
        PoolConfig { max_connections: 0, keepalive_seconds: 0 }
    }
}

/// The default maximum number of connections.
pub fn default_max_connections() -> (r: u32)
    ensures
        r == 10,
{
    10
}

/// The default keepalive, in seconds.
pub fn default_keepalive() -> (r: u64)
    ensures
        r == 90,
{
    90
}

/// An invariant to monitor.
#[derive(Debug, Clone)]
pub struct InvariantConfig {
    /// Invariant name.
    pub name: String,
    /// Optional description.
    pub description: Option<String>,
    /// The chain it is checked on.
    pub chain: String,
    /// The contract it concerns.
    pub contract: String,
    /// The check expression.
    pub check: String,
    /// Optional baseline block.
    pub baseline_block: Option<u64>,
    /// Severity.
    pub severity: String,
    /// Tags.
    pub tags: Vec<String>,
}

/// The default severity.
pub fn default_severity() -> (r: String)
    ensures
        r@ == "high"@,
{
    string_from("high")
}

/// Alert routing and filtering.
#[derive(Debug, Clone)]
pub struct AlertConfig {
    /// Throttle window.
    pub throttle_seconds: u64,
    /// Whether alerts are on.
    pub enabled: bool,
    /// Log level of alerts.
    pub log_level: String,
    /// Where alerts go.
    pub sinks: Vec<AlertSink>,
}

impl Default for AlertConfig {
    fn default() -> (r: Self)
        ensures
            r.throttle_seconds == 0,
            !r.enabled,
            r.log_level@.len() == 0,
            r.sinks@.len() == 0,
    {
        AlertConfig { throttle_seconds: 0, enabled: false, log_level: String::new(), sinks: Vec::new() }
    }
}

/// The default throttle window, in seconds.
pub fn default_throttle() -> (r: u64)
    ensures
        r == 300,
{
    300
}

/// Alerts are on by default.
pub fn default_alert_enabled() -> (r: bool)
    ensures
        r,
{
    true
}

/// The default log level.
pub fn default_log_level() -> (r: String)
    ensures
        r@ == "error"@,
{
    string_from("error")
}

/// A destination of alerts.
#[derive(Debug, Clone)]
pub struct AlertSink {
    /// Sink type: "slack" or "webhook".
    pub sink_type: String,
    /// Optional name.
    pub name: Option<String>,
    /// Slack webhook.
    pub webhook_url: Option<String>,
    /// Message template.
    pub message_template: Option<String>,
    /// Severities routed here.
    pub severities: Vec<String>,
    /// Webhook URL.
    pub url: Option<String>,
    /// Extra headers.
    pub headers: StrMap<String>,
    /// HTTP method.
    pub method: String,
    /// Whether to retry.
    pub retry_enabled: bool,
    /// Retry attempts.
    pub retry_max_attempts: u32,
}

/// The default HTTP method.
pub fn default_method() -> (r: String)
    ensures
        r@ == "post"@,
{
    string_from("post")
}

/// The outcome of checking a sink: a Slack sink needs a webhook, a webhook
/// sink needs a URL, and no other type is known.
pub open spec fn sink_check(s: AlertSink) -> Result<(), Seq<char>> {
    if s.sink_type@ == "slack"@ {
        if s.webhook_url is None {
            Err("Slack sink requires 'webhook_url'"@)
        } else {
            Ok(())
        }
    } else if s.sink_type@ == "webhook"@ {
        if s.url is None {
            Err("Webhook sink requires 'url'"@)
        } else {
            Ok(())
        }
    } else {
        Err("Unknown alert sink type: "@ + s.sink_type@)
    }
}

impl AlertSink {
    /// Checks that the sink is of a known type and has its endpoint.
    pub fn validate(&self) -> (r: Result<(), ConfigError>)
        ensures
            match r {
                Ok(_) => sink_check(*self) is Ok,
                Err(e) => sink_check(*self) == Err::<(), Seq<char>>(e.message@),
            },
    {
        if str_eq(self.sink_type.as_str(), "slack") {
            if self.webhook_url.is_none() {
                return Err(ConfigError { message: string_from("Slack sink requires 'webhook_url'") });
            }
            Ok(())
        } else if str_eq(self.sink_type.as_str(), "webhook") {
            if self.url.is_none() {
                return Err(ConfigError { message: string_from("Webhook sink requires 'url'") });
            }
            Ok(())
        } else {
            let mut m = string_from("Unknown alert sink type: ");
            push_str(&mut m, self.sink_type.as_str());
            Err(ConfigError { message: m })
        }
    }
}

/// Evaluation parameters.
#[derive(Debug, Clone)]
pub struct EvaluationConfig {
    /// Interval between evaluations.
    pub interval_secs: u64,
    /// Evaluation timeout.
    pub timeout_secs: u64,
    /// Evaluation mode.
    pub mode: String,
}

impl Default for EvaluationConfig {
    fn default() -> (r: Self)
        ensures
            r.interval_secs == 0 && r.timeout_secs == 0 && r.mode@.len() == 0,
    {
        EvaluationConfig { interval_secs: 0, timeout_secs: 0, mode: String::new() }
    }
}

/// The default evaluation interval, in seconds.
pub fn default_eval_interval() -> (r: u64)
    ensures
        r == 12,
{
    12
}

/// The default evaluation timeout, in seconds.
pub fn default_eval_timeout() -> (r: u64)
    ensures
        r == 30,
{
    30
}

/// The default evaluation mode.
pub fn default_eval_mode() -> (r: String)
    ensures
        r@ == "block_based"@,
{
    string_from("block_based")
}

/// Daemon mode settings.
#[derive(Debug, Clone)]
pub struct DaemonConfig {
    /// Whether the daemon runs.
    pub enabled: bool,
    /// Metrics port.
    pub metrics_port: u16,
    /// Metrics host.
    pub metrics_host: String,
    /// Health check endpoint.
    pub health_check_enabled: bool,
    /// Reload on SIGHUP.
    pub reload_on_sighup: bool,
    /// Shutdown grace period.
    pub graceful_shutdown_timeout_secs: u64,
}

impl Default for DaemonConfig {
    fn default() -> (r: Self)
        ensures
            !r.enabled && r.metrics_port == 0 && r.metrics_host@.len() == 0
                && !r.health_check_enabled && !r.reload_on_sighup
                && r.graceful_shutdown_timeout_secs == 0,
    {
        DaemonConfig {
            enabled: false,
            metrics_port: 0,
            metrics_host: String::new(),
            health_check_enabled: false,
            reload_on_sighup: false,
            graceful_shutdown_timeout_secs: 0,
        }
    }
}

/// The default metrics port.
pub fn default_metrics_port() -> (r: u16)
    ensures
        r == 9090,
{
    9090
}

/// The default metrics host.
pub fn default_metrics_host() -> (r: String)
    ensures
        r@ == "127.0.0.1"@,
{
    string_from("127.0.0.1")
}

/// Health checks are on by default.
pub fn default_health_check() -> (r: bool)
    ensures
        r,
{
    true
}

/// The default shutdown grace period, in seconds.
pub fn default_shutdown_timeout() -> (r: u64)
    ensures
        r == 5,
{
    5
}

/// Logging configuration.
#[derive(Debug, Clone)]
pub struct LoggingConfig {
    /// Log level.
    pub level: String,
    /// Log format.
    pub format: String,
    /// Optional log file.
    pub file: Option<String>,
    /// Optional rotation size.
    pub max_size_mb: Option<u32>,
    /// Optional number of backups.
    pub max_backups: Option<u32>,
    /// Redact sensitive values.
    pub redact_sensitive: bool,
}

impl Default for LoggingConfig {
    fn default() -> (r: Self)
        ensures
            r.level@.len() == 0 && r.format@.len() == 0 && r.file is None && r.max_size_mb is None
                && r.max_backups is None && !r.redact_sensitive,
    {
        LoggingConfig {
            level: String::new(),
            format: String::new(),
            file: None,
            max_size_mb: None,
            max_backups: None,
            redact_sensitive: false,
        }
    }
}

/// The default log format.
pub fn default_format() -> (r: String)
    ensures
        r@ == "pretty"@,
{
    string_from("pretty")
}

/// Redaction is on by default.
pub fn default_redact() -> (r: bool)
    ensures
        r,
{
    true
}

/// The default metrics format.
pub fn default_metrics_format() -> (r: String)
    ensures
        r@ == "prometheus"@,
{
    string_from("prometheus")
}

/// The default histogram buckets, in milliseconds.
pub fn default_histogram_buckets() -> (r: Vec<u64>)
    ensures
        r@ == seq![10u64, 50, 100, 500, 1000, 5000],
{
    let v = vec![10u64, 50, 100, 500, 1000, 5000];
    assert(v@ =~= seq![10u64, 50, 100, 500, 1000, 5000]);
    v
}

/// Security settings.
#[derive(Debug, Clone)]
pub struct SecurityConfig {
    /// Redact sensitive values in logs.
    pub redact_sensitive_in_logs: bool,
}

impl Default for SecurityConfig {
    fn default() -> (r: Self)
        ensures
            !r.redact_sensitive_in_logs,
    {
        SecurityConfig { redact_sensitive_in_logs: false }
    }
}

/// Performance tuning.
#[derive(Debug, Clone)]
pub struct PerformanceConfig {
    /// Evaluation workers.
    pub eval_workers: u32,
    /// Cache compiled expressions.
    pub cache_expressions: bool,
    /// Cache chain state.
    pub cache_state: bool,
    /// Cache lifetime.
    pub cache_ttl_secs: u64,
}

impl Default for PerformanceConfig {
    fn default() -> (r: Self)
        ensures
            r.eval_workers == 0 && !r.cache_expressions && !r.cache_state && r.cache_ttl_secs == 0,
    {
        PerformanceConfig {
            eval_workers: 0,
            cache_expressions: false,
            cache_state: false,
            cache_ttl_secs: 0,
        }
    }
}

/// The default number of evaluation workers.
pub fn default_eval_workers() -> (r: u32)
    ensures
        r == 4,
{
    4
}

/// The default cache lifetime, in seconds.
pub fn default_cache_ttl() -> (r: u64)
    ensures
        r == 60,
{
    60
}

/// The first index from `i` on whose item recurs later.
pub open spec fn first_dup_from(items: Seq<Seq<char>>, i: int) -> Option<int>
    decreases items.len() - i,
{
    if i < 0 || i >= items.len() {
        None
    } else if exists|j: int| i < j < items.len() && #[trigger] items[j] == items[i] {
        Some(i)
    } else {
        first_dup_from(items, i + 1)
    }
}

/// The first index whose item recurs later.
pub open spec fn first_duplicate(items: Seq<Seq<char>>) -> Option<int> {
    first_dup_from(items, 0)
}

/// Whether some later item equals the `i`-th.
fn has_later_duplicate(items: &Vec<String>, i: usize) -> (r: bool)
    requires
        i < items.len(),
    ensures
        r == exists|j: int| i < j < items@.len() && items@[i as int]@ == items@[j]@,
{
    let mut j = i + 1;
    while j < items.len()
        invariant
            i < j <= items.len(),
            forall|k: int| i < k < j ==> items@[i as int]@ != #[trigger] items@[k]@,
        decreases items.len() - j,
    {
        if str_eq(items[i].as_str(), items[j].as_str()) {
            return true;
        }
        j = j + 1;
    }
    false
}

/// The index of the first item equal to a later one, if any.
fn find_duplicate(items: &Vec<String>) -> (r: Option<usize>)
    ensures
        match r {
            Some(i) => first_duplicate(string_views(items@)) == Some(i as int) && i < items@.len(),
            None => first_duplicate(string_views(items@)) is None,
        },
{
    let ghost v = string_views(items@);
    let mut i: usize = 0;
    while i < items.len()
        invariant
            i <= items.len(),
            v == string_views(items@),
            first_dup_from(v, 0) == first_dup_from(v, i as int),
        decreases items.len() - i,
    {
        let found = has_later_duplicate(items, i);
        proof {
            if found {
                let j = choose|j: int| i < j < items@.len() && items@[i as int]@ == items@[j]@;
                assert(v[j] == v[i as int]);
            } else {
                assert(!exists|j: int| i < j < v.len() && #[trigger] v[j] == v[i as int]) by {
                    if exists|j: int| i < j < v.len() && #[trigger] v[j] == v[i as int] {
                        let j = choose|j: int| i < j < v.len() && #[trigger] v[j] == v[i as int];
                        assert(items@[i as int]@ == items@[j]@);
                    }
                }
            }
        }
        if found {
            return Some(i);
        }
        i = i + 1;
    }
    None
}

/// How `{:?}` shows a list of strings.
pub open spec fn debug_list(items: Seq<Seq<char>>) -> Seq<char> {
    "["@ + joined(items.map_values(|s: Seq<char>| debug_quoted(s)), ", "@) + "]"@
}

/// The IDs of the chains, in order.
pub open spec fn chain_ids(chains: Seq<ChainConfig>) -> Seq<Seq<char>> {
    chains.map_values(|c: ChainConfig| c.id@)
}

/// The names of the invariants, in order.
pub open spec fn invariant_names(invs: Seq<InvariantConfig>) -> Seq<Seq<char>> {
    invs.map_values(|i: InvariantConfig| i.name@)
}

/// The first invariant from index `i` on whose chain is not configured.
pub open spec fn first_unknown_chain(invs: Seq<InvariantConfig>, ids: Seq<Seq<char>>, i: int) -> Option<
    int,
>
    decreases invs.len() - i,
{
    if i < 0 || i >= invs.len() {
        None
    } else if !ids.contains(invs[i].chain@) {
        Some(i)
    } else {
        first_unknown_chain(invs, ids, i + 1)
    }
}

/// The first sink from index `i` on that fails its check, with its message.
pub open spec fn first_bad_sink(sinks: Seq<AlertSink>, i: int) -> Option<Seq<char>>
    decreases sinks.len() - i,
{
    if i < 0 || i >= sinks.len() {
        None
    } else {
        match sink_check(sinks[i]) {
            Err(m) => Some(m),
            Ok(_) => first_bad_sink(sinks, i + 1),
        }
    }
}

/// The outcome of checking a configuration: chains configured and unique,
/// invariants configured, the first invariant's chain known, invariant
/// names unique, every invariant's chain known, and every sink valid; the
/// message of the first failure.
pub open spec fn config_check(
    chains: Seq<ChainConfig>,
    invs: Seq<InvariantConfig>,
    sinks: Seq<AlertSink>,
) -> Result<(), Seq<char>> {
    let ids = chain_ids(chains);
    let names = invariant_names(invs);
    if chains.len() == 0 {
        Err("At least one chain must be configured in [[chains]]"@)
    } else if first_duplicate(ids) is Some {
        Err("Duplicate chain ID: "@ + ids[first_duplicate(ids)->0])
    } else if invs.len() == 0 {
        Err("At least one invariant must be configured in [[invariants]]"@)
    } else if !ids.contains(invs[0].chain@) {
        Err(unknown_chain_message(invs[0], ids))
    } else if first_duplicate(names) is Some {
        Err("Duplicate invariant name: "@ + names[first_duplicate(names)->0])
    } else if first_unknown_chain(invs, ids, 0) is Some {
        Err(unknown_chain_message(invs[first_unknown_chain(invs, ids, 0)->0], ids))
    } else if first_bad_sink(sinks, 0) is Some {
        Err(first_bad_sink(sinks, 0)->0)
    } else {
        Ok(())
    }
}

/// The message for an invariant on an unknown chain.
pub open spec fn unknown_chain_message(inv: InvariantConfig, ids: Seq<Seq<char>>) -> Seq<char> {
    "Invariant '"@ + inv.name@ + "' references unknown chain '"@ + inv.chain@
        + "'. Configured chains: "@ + debug_list(ids)
}

fn unknown_chain_error(inv: &InvariantConfig, ids: &Vec<String>) -> (r: ConfigError)
    ensures
        r.message@ == unknown_chain_message(*inv, string_views(ids@)),
{
    let mut quoted: Vec<String> = Vec::new();
    let mut k: usize = 0;
    while k < ids.len()
        invariant
            k <= ids.len(),
            quoted@.len() == k,
            forall|j: int| 0 <= j < k ==> #[trigger] quoted@[j]@ == debug_quoted(ids@[j]@),
        decreases ids.len() - k,
    {
        quoted.push(crate::text::debug_string(ids[k].as_str()));
        k = k + 1;
    }
    let list = crate::text::join_strings(quoted.as_slice(), ", ");
    let mut m = string_from("Invariant '");
    push_str(&mut m, inv.name.as_str());
    push_str(&mut m, "' references unknown chain '");
    push_str(&mut m, inv.chain.as_str());
    push_str(&mut m, "'. Configured chains: ");
    push_str(&mut m, "[");
    push_str(&mut m, list.as_str());
    push_str(&mut m, "]");
    proof {
        assert(quoted@.map_values(|s: String| s@) =~= string_views(ids@).map_values(
            |s: Seq<char>| debug_quoted(s),
        ));
        assert(m@ =~= unknown_chain_message(*inv, string_views(ids@)));
    }
    ConfigError { message: m }
}

/// Whether `name` is one of `list`.
fn listed(list: &Vec<String>, name: &str) -> (r: bool)
    ensures
        r == string_views(list@).contains(name@),
{
    crate::ir::ast::contains_string(list, name)
}

fn collect_ids(chains: &[ChainConfig]) -> (r: Vec<String>)
    ensures
        string_views(r@) == chain_ids(chains@),
{
    let mut ids: Vec<String> = Vec::new();
    let mut k: usize = 0;
    while k < chains.len()
        invariant
            k <= chains.len(),
            ids@.len() == k,
            forall|j: int| 0 <= j < k ==> #[trigger] ids@[j]@ == chains@[j].id@,
        decreases chains.len() - k,
    {
        ids.push(chains[k].id.clone());
        k = k + 1;
    }
    assert(string_views(ids@) =~= chain_ids(chains@));
    ids
}

fn collect_names(invs: &[InvariantConfig]) -> (r: Vec<String>)
    ensures
        string_views(r@) == invariant_names(invs@),
{
    let mut names: Vec<String> = Vec::new();
    let mut k: usize = 0;
    while k < invs.len()
        invariant
            k <= invs.len(),
            names@.len() == k,
            forall|j: int| 0 <= j < k ==> #[trigger] names@[j]@ == invs@[j].name@,
        decreases invs.len() - k,
    {
        names.push(invs[k].name.clone());
        k = k + 1;
    }
    assert(string_views(names@) =~= invariant_names(invs@));
    names
}

/// Checks a configuration's chains, invariants and alert sinks for
/// consistency; the error is that of the first failed check.
pub fn validate_config(
    chains: &[ChainConfig],
    invariants: &[InvariantConfig],
    alert: &AlertConfig,
) -> (r: Result<(), ConfigError>)
    ensures
        match r {
            Ok(_) => config_check(chains@, invariants@, alert.sinks@) is Ok,
            Err(e) => config_check(chains@, invariants@, alert.sinks@) == Err::<(), Seq<char>>(
                e.message@,
            ),
        },
{
    if chains.len() == 0 {
        return Err(
            ConfigError {
                message: string_from("At least one chain must be configured in [[chains]]"),
            },
        );
    }
    let ghost ids_spec = chain_ids(chains@);
    let ids = collect_ids(chains);

    match find_duplicate(&ids) {
        Some(i) => {
            let mut m = string_from("Duplicate chain ID: ");
            push_str(&mut m, ids[i].as_str());
            return Err(ConfigError { message: m });
        },
        None => {},
    }
    if invariants.len() == 0 {
        return Err(
            ConfigError {
                message: string_from("At least one invariant must be configured in [[invariants]]"),
            },
        );
    }
    if !listed(&ids, invariants[0].chain.as_str()) {
        return Err(unknown_chain_error(&invariants[0], &ids));
    }
    let ghost names_spec = invariant_names(invariants@);
    let names = collect_names(invariants);

    match find_duplicate(&names) {
        Some(i) => {
            let mut m = string_from("Duplicate invariant name: ");
            push_str(&mut m, names[i].as_str());
            return Err(ConfigError { message: m });
        },
        None => {},
    }
    let ghost tail = match first_bad_sink(alert.sinks@, 0) {
        Some(m) => Err::<(), Seq<char>>(m),
        None => Ok::<(), Seq<char>>(()),
    };
    assert(config_check(chains@, invariants@, alert.sinks@) == (match first_unknown_chain(
        invariants@,
        ids_spec,
        0,
    ) {
        Some(x) => Err::<(), Seq<char>>(unknown_chain_message(invariants@[x], ids_spec)),
        None => tail,
    }));
    let mut i: usize = 0;
    while i < invariants.len()
        invariant
            i <= invariants.len(),
            string_views(ids@) == ids_spec,
            ids_spec == chain_ids(chains@),
            first_unknown_chain(invariants@, ids_spec, 0) == first_unknown_chain(
                invariants@,
                ids_spec,
                i as int,
            ),
            config_check(chains@, invariants@, alert.sinks@) == (match first_unknown_chain(
                invariants@,
                ids_spec,
                0,
            ) {
                Some(x) => Err::<(), Seq<char>>(unknown_chain_message(invariants@[x], ids_spec)),
                None => tail,
            }),
        decreases invariants.len() - i,
    {
        if !listed(&ids, invariants[i].chain.as_str()) {
            return Err(unknown_chain_error(&invariants[i], &ids));
        }
        i = i + 1;
    }
    let mut s: usize = 0;
    while s < alert.sinks.len()
        invariant
            s <= alert.sinks.len(),
            first_bad_sink(alert.sinks@, 0) == first_bad_sink(alert.sinks@, s as int),
            config_check(chains@, invariants@, alert.sinks@) == tail,
            tail == (match first_bad_sink(alert.sinks@, 0) {
                Some(m) => Err::<(), Seq<char>>(m),
                None => Ok::<(), Seq<char>>(()),
            }),
        decreases alert.sinks.len() - s,
    {
        alert.sinks[s].validate()?;
        s = s + 1;
    }
    Ok(())
}

/// The first chain with this ID, if any.
pub fn get_chain<'a>(chains: &'a [ChainConfig], id: &str) -> (r: Option<&'a ChainConfig>)
    ensures
        match r {
            Some(c) => exists|i: int|
                0 <= i < chains@.len() && *c == chains@[i] && c.id@ == id@ && forall|j: int|
                    0 <= j < i ==> #[trigger] chains@[j].id@ != id@,
            None => forall|j: int| 0 <= j < chains@.len() ==> #[trigger] chains@[j].id@ != id@,
        },
{
    let mut i: usize = 0;
    while i < chains.len()
        invariant
            i <= chains.len(),
            forall|j: int| 0 <= j < i ==> #[trigger] chains@[j].id@ != id@,
        decreases chains.len() - i,
    {
        if str_eq(chains[i].id.as_str(), id) {
            return Some(&chains[i]);
        }
        i = i + 1;
    }
    None
}

/// The invariants of `invs` on the chain, in order.
pub open spec fn on_chain(invs: Seq<InvariantConfig>, chain_id: Seq<char>) -> Seq<InvariantConfig>
    decreases invs.len(),
{
    if invs.len() == 0 {
        Seq::empty()
    } else {
        on_chain(invs.drop_last(), chain_id) + (if invs.last().chain@ == chain_id {
            seq![invs.last()]
        } else {
            Seq::empty()
        })
    }
}

/// The invariants configured for a chain, in order.
pub fn invariants_for_chain<'a>(invariants: &'a [InvariantConfig], chain_id: &str) -> (r: Vec<
    &'a InvariantConfig,
>)
    ensures
        r@.len() == on_chain(invariants@, chain_id@).len(),
        forall|i: int| 0 <= i < r@.len() ==> *#[trigger] r@[i] == on_chain(invariants@, chain_id@)[i],
{
    let mut out: Vec<&InvariantConfig> = Vec::new();
    let mut i: usize = 0;
    assert(invariants@.subrange(0, 0) =~= Seq::<InvariantConfig>::empty());
    while i < invariants.len()
        invariant
            i <= invariants.len(),
            out@.len() == on_chain(invariants@.subrange(0, i as int), chain_id@).len(),
            forall|k: int|
                0 <= k < out@.len() ==> *#[trigger] out@[k] == on_chain(
                    invariants@.subrange(0, i as int),
                    chain_id@,
                )[k],
        decreases invariants.len() - i,
    {
        let inv = &invariants[i];
        let ghost prev = on_chain(invariants@.subrange(0, i as int), chain_id@);
        proof {
            let sub = invariants@.subrange(0, i as int + 1);
            assert(sub.drop_last() =~= invariants@.subrange(0, i as int));
            assert(sub.last() == *inv);
        }
        if str_eq(inv.chain.as_str(), chain_id) {
            out.push(inv);
            assert(on_chain(invariants@.subrange(0, i as int + 1), chain_id@) =~= prev.push(*inv));
        } else {
            assert(on_chain(invariants@.subrange(0, i as int + 1), chain_id@) =~= prev);
        }
        i = i + 1;
    }
    assert(invariants@.subrange(0, invariants@.len() as int) =~= invariants@);
    out
}

/// The message for a reference to an unset variable.
pub open spec fn unset_message(name: Seq<char>) -> Seq<char> {
    "Environment variable not set: "@ + name
        + ". Please export it before running Truent. E.g.: export "@ + name + "=<value>"@
}

/// `s` from index `p` on with each `${NAME}` replaced by the value of
/// `NAME` in `vars`; the error for a reference left open or to a variable
/// not set.
pub open spec fn expanded_from(s: Seq<char>, p: int, vars: Map<Seq<char>, String>) -> Result<
    Seq<char>,
    Seq<char>,
>
    decreases s.len() - p,
{
    if p < 0 || p > s.len() {
        Ok(Seq::empty())
    } else {
        match first_occurrence_from(s, "${"@, p) {
            None => Ok(s.subrange(p, s.len() as int)),
            Some(i) => match first_occurrence_from(s, "}"@, i) {
                None => Err("Unclosed environment variable reference: ${"@),
                Some(j) => if !(p <= i && i + 2 <= j && j < s.len()) {
                    Ok(Seq::empty())
                } else {
                    let name = s.subrange(i + 2, j);
                    if !vars.contains_key(name) {
                        Err(unset_message(name))
                    } else {
                        match expanded_from(s, j + 1, vars) {
                            Err(m) => Err(m),
                            Ok(rest) => Ok(s.subrange(p, i) + vars[name]@ + rest),
                        }
                    }
                },
            },
        }
    }
}

/// The characters of `v` from `lo` up to `hi`.
fn chars_between(v: &Vec<char>, lo: usize, hi: usize) -> (r: String)
    requires
        lo <= hi <= v.len(),
    ensures
        r@ == v@.subrange(lo as int, hi as int),
{
    let mut out = String::new();
    let mut k = lo;
    while k < hi
        invariant
            lo <= k <= hi,
            hi <= v.len(),
            out@ == v@.subrange(lo as int, k as int),
        decreases hi - k,
    {
        crate::text::push_char(&mut out, v[k]);
        k = k + 1;
    }
    out
}

/// Replaces every `${NAME}` in `content` with the value of `NAME` in
/// `vars`; an error for a reference left open or to a variable not set.
pub fn expand_env_vars_with(content: &str, vars: &StrMap<String>) -> (r: Result<String, ConfigError>)
    ensures
        match r {
            Ok(s) => expanded_from(content@, 0, vars@) == Ok::<Seq<char>, Seq<char>>(s@),
            Err(e) => expanded_from(content@, 0, vars@) == Err::<Seq<char>, Seq<char>>(e.message@),
        },
{
    let sc = crate::text::chars_of(content);
    let open_pat: Vec<char> = vec!['$', '{'];
    let close_pat: Vec<char> = vec!['}'];
    proof {
        reveal_strlit("${");
        reveal_strlit("}");
    }
    assert(open_pat@ =~= "${"@);
    assert(close_pat@ =~= "}"@);
    assert("${"@ =~= seq!['$', '{']);
    assert("}"@ =~= seq!['}']);
    let mut out = String::new();
    let mut p: usize = 0;
    loop
        invariant
            p <= sc.len(),
            sc@ == content@,
            open_pat@ == "${"@,
            close_pat@ == "}"@,
            "${"@ == seq!['$', '{'],
            "}"@ == seq!['}'],
            expanded_from(content@, 0, vars@) == (match expanded_from(content@, p as int, vars@) {
                Ok(rest) => Ok::<Seq<char>, Seq<char>>(out@ + rest),
                Err(m) => Err::<Seq<char>, Seq<char>>(m),
            }),
        decreases sc.len() - p,
    {
        let start = crate::text::find_from(&sc, &open_pat, p);
        proof {
            lemma_first_occurrence(sc@, open_pat@, p as int);
        }
        match start {
            None => {
                let rest = chars_between(&sc, p, sc.len());
                push_str(&mut out, rest.as_str());
                return Ok(out);
            },
            Some(i) => {
                let end = crate::text::find_from(&sc, &close_pat, i);
                proof {
                    lemma_first_occurrence(sc@, close_pat@, i as int);
                }
                match end {
                    None => {
                        return Err(
                            ConfigError {
                                message: string_from("Unclosed environment variable reference: ${"),
                            },
                        );
                    },
                    Some(j) => {
                        proof {
                            assert(crate::text::occurs_at(sc@, close_pat@, j as int));
                            assert(crate::text::occurs_at(sc@, open_pat@, i as int));
                            assert(close_pat@.len() == 1);
                            assert(open_pat@.len() == 2);
                            assert(sc@.subrange(j as int, j + 1) =~= close_pat@);
                            assert(sc@.subrange(i as int, i + 2) =~= open_pat@);
                            assert(sc@[j as int] == sc@.subrange(j as int, j + 1)[0]);
                            assert(sc@[i as int] == sc@.subrange(i as int, i + 2)[0]);
                            assert(sc@[i + 1] == sc@.subrange(i as int, i + 2)[1]);
                            assert(close_pat@[0] == '}');
                            assert(open_pat@[0] == '$' && open_pat@[1] == '{');
                            assert(j >= i + 2);
                        }
                        let name = chars_between(&sc, i + 2, j);
                        match vars.get(name.as_str()) {
                            None => {
                                let mut m = string_from("Environment variable not set: ");
                                push_str(&mut m, name.as_str());
                                push_str(
                                    &mut m,
                                    ". Please export it before running Truent. E.g.: export ",
                                );
                                push_str(&mut m, name.as_str());
                                push_str(&mut m, "=<value>");
                                assert(m@ =~= unset_message(name@));
                                return Err(ConfigError { message: m });
                            },
                            Some(value) => {
                                let ghost out0 = out@;
                                let before = chars_between(&sc, p, i);
                                push_str(&mut out, before.as_str());
                                push_str(&mut out, value.as_str());
                                proof {
                                    let nm = sc@.subrange(i + 2, j as int);
                                    assert(name@ == nm);
                                    assert(value@ == vars@[nm]@);
                                    assert(expanded_from(content@, p as int, vars@) == (match expanded_from(
                                        content@,
                                        j + 1,
                                        vars@,
                                    ) {
                                        Err(m) => Err::<Seq<char>, Seq<char>>(m),
                                        Ok(rest) => Ok::<Seq<char>, Seq<char>>(
                                            sc@.subrange(p as int, i as int) + vars@[nm]@ + rest,
                                        ),
                                    }));
                                    match expanded_from(content@, j + 1, vars@) {
                                        Ok(rest) => {
                                            assert(out0 + (sc@.subrange(p as int, i as int)
                                                + vars@[nm]@ + rest) =~= out@ + rest);
                                        },
                                        Err(_) => {},
                                    }
                                }
                                p = j + 1;
                            },
                        }
                    },
                }
            },
        }
    }
}


/// A Truent configuration. The metrics section is left out: its sample rate
/// is a floating-point number.
#[derive(Debug)]
pub struct Config {
    /// Metadata: name, version, description.
    pub metadata: Metadata,
    /// Chain endpoints and configuration.
    pub chains: Vec<ChainConfig>,
    /// Invariant definitions.
    pub invariants: Vec<InvariantConfig>,
    /// Alert routing and filtering.
    pub alert: AlertConfig,
    /// Evaluation parameters.
    pub evaluation: EvaluationConfig,
    /// Daemon mode settings.
    pub daemon: DaemonConfig,
    /// Logging configuration.
    pub logging: LoggingConfig,
    /// Security settings.
    pub security: SecurityConfig,
    /// Performance tuning.
    pub performance: PerformanceConfig,
}

impl Config {
    /// Checks the configuration for consistency, as `validate_config` does.
    pub fn validate(&self) -> (r: Result<(), ConfigError>)
        ensures
            match r {
                Ok(_) => config_check(self.chains@, self.invariants@, self.alert.sinks@) is Ok,
                Err(e) => config_check(self.chains@, self.invariants@, self.alert.sinks@) == Err::<
                    (),
                    Seq<char>,
                >(e.message@),
            },
    {
        validate_config(self.chains.as_slice(), self.invariants.as_slice(), &self.alert)
    }

    /// The first chain with this ID, if any.
    pub fn get_chain(&self, id: &str) -> (r: Option<&ChainConfig>)
        ensures
            match r {
                Some(c) => exists|i: int|
                    0 <= i < self.chains@.len() && *c == self.chains@[i] && c.id@ == id@ && forall|j: int|
                        0 <= j < i ==> #[trigger] self.chains@[j].id@ != id@,
                None => forall|j: int| 0 <= j < self.chains@.len() ==> #[trigger] self.chains@[j].id@ != id@,
            },
    {
        get_chain(self.chains.as_slice(), id)
    }

    /// The invariants configured for a chain, in order.
    pub fn invariants_for_chain(&self, chain_id: &str) -> (r: Vec<&InvariantConfig>)
        ensures
            r@.len() == on_chain(self.invariants@, chain_id@).len(),
            forall|i: int|
                0 <= i < r@.len() ==> *#[trigger] r@[i] == on_chain(self.invariants@, chain_id@)[i],
    {
        invariants_for_chain(self.invariants.as_slice(), chain_id)
    }
}

} // verus!
