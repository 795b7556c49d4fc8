//! The configuration, its defaults, and the copy of it that is kept in memory.

use vstd::prelude::*;
use vstd::string::*;

use crate::clock::{host_name, Moment};

verus! {

// ---------------------------------------------------------------------------
// Configuration
// ---------------------------------------------------------------------------

/// One gateway that is watched.
#[derive(Debug)]
pub struct InstanceConfig {
    pub name: String,
    pub port: u16,
    pub profile: Option<i64>,
    pub openclaw_home: String,
    pub enabled: bool,
}

impl Clone for InstanceConfig {
    fn clone(&self) -> (r: Self)
        ensures
            r == *self,
    {
        InstanceConfig {
            name: self.name.clone(),
            port: self.port,
            profile: self.profile,
            openclaw_home: self.openclaw_home.clone(),
            enabled: self.enabled,
        }
    }
}

/// The home directory of an instance that names none.
pub fn default_openclaw_home() -> (r: String)
    ensures
        r@ == "~/.openclaw"@,
{
    "~/.openclaw".to_owned()
}

/// Instances and automatic restarts are switched on unless the file says otherwise.
pub fn default_true() -> (r: bool)
    ensures
        r,
{
    true
}

/// How instances are probed.
#[derive(Debug, Clone, Copy, PartialEq, Eq, Structural)]
pub struct ProbeConfig {
    pub interval_seconds: u64,
    pub timeout_seconds: u64,
    pub failure_threshold: u32,
    pub retry_delay_seconds: u64,
}

/// Every 30 seconds, for at most 5 seconds, with a second try 10 seconds after a
/// failure and two failures in a row for an instance to count as down.
pub open spec fn probe_defaults() -> ProbeConfig {
    ProbeConfig {
        interval_seconds: 30,
        timeout_seconds: 5,
        failure_threshold: 2,
        retry_delay_seconds: 10,
    }
}

impl Default for ProbeConfig {
    fn default() -> (r: Self)
        ensures
            r == probe_defaults(),
    {
        ProbeConfig {
            interval_seconds: default_interval(),
            timeout_seconds: default_timeout(),
            failure_threshold: default_failure_threshold(),
            retry_delay_seconds: default_retry_delay(),
        }
    }
}

/// The seconds between two rounds of probes.
pub fn default_interval() -> (r: u64)
    ensures
        r == 30,
{
    30
}

/// The seconds after which a probe is given up.
pub fn default_timeout() -> (r: u64)
    ensures
        r == 5,
{
    5
}

/// The failures in a row after which an instance counts as down.
pub fn default_failure_threshold() -> (r: u32)
    ensures
        r == 2,
{
    2
}

/// The seconds before a failed probe is tried again.
pub fn default_retry_delay() -> (r: u64)
    ensures
        r == 10,
{
    10
}

/// When an instance that is down is restarted.
#[derive(Debug, Clone, Copy, PartialEq, Eq, Structural)]
pub struct RestartConfig {
    pub enabled: bool,
    pub max_restarts_per_window: u32,
    pub window_minutes: u32,
    pub wait_after_restart_seconds: u64,
}

/// At most three restarts in ten minutes, with 20 seconds for an instance to come
/// up.
pub open spec fn restart_defaults() -> RestartConfig {
    RestartConfig {
        enabled: true,
        max_restarts_per_window: 3,
        window_minutes: 10,
        wait_after_restart_seconds: 20,
    }
}

impl Default for RestartConfig {
    fn default() -> (r: Self)
        ensures
            r == restart_defaults(),
    {
        RestartConfig {
            enabled: default_true(),
            max_restarts_per_window: default_max_restarts(),
            window_minutes: default_window_minutes(),
            wait_after_restart_seconds: default_wait_after_restart(),
        }
    }
}

/// The most restarts that a window allows.
pub fn default_max_restarts() -> (r: u32)
    ensures
        r == 3,
{
    3
}

/// The length of the window in minutes.
pub fn default_window_minutes() -> (r: u32)
    ensures
        r == 10,
{
    10
}

/// The seconds that an instance has to come up.
pub fn default_wait_after_restart() -> (r: u64)
    ensures
        r == 20,
{
    20
}

/// Where alerts go.
#[derive(Debug)]
pub struct AlertConfig {
    pub feishu_webhook: String,
    pub enabled: bool,
}

impl Clone for AlertConfig {
    fn clone(&self) -> (r: Self)
        ensures
            r == *self,
    {
        AlertConfig { feishu_webhook: self.feishu_webhook.clone(), enabled: self.enabled }
    }
}

impl Default for AlertConfig {
    fn default() -> (r: Self)
        ensures
            r.feishu_webhook@ == Seq::<char>::empty(),
            !r.enabled,
    {
        AlertConfig { feishu_webhook: String::new(), enabled: false }
    }
}

/// How often session files are read for token usage.
#[derive(Debug, Clone, Copy, PartialEq, Eq, Structural)]
pub struct TokenScanConfig {
    pub interval_minutes: u64,
}

impl Default for TokenScanConfig {
    fn default() -> (r: Self)
        ensures
            r.interval_minutes == 5,
    {
        TokenScanConfig { interval_minutes: default_token_interval() }
    }
}

/// The minutes between two scans.
pub fn default_token_interval() -> (r: u64)
    ensures
        r == 5,
{
    5
}

/// Where the service listens.
#[derive(Debug)]
pub struct ServerConfig {
    pub host: String,
    pub port: u16,
}

impl Clone for ServerConfig {
    fn clone(&self) -> (r: Self)
        ensures
            r == *self,
    {
        ServerConfig { host: self.host.clone(), port: self.port }
    }
}

impl Default for ServerConfig {
    fn default() -> (r: Self)
        ensures
            r.host@ == "0.0.0.0"@,
            r.port == 8000,
    {
        ServerConfig { host: default_host(), port: default_port() }
    }
}

/// The address that the service listens at.
pub fn default_host() -> (r: String)
    ensures
        r@ == "0.0.0.0"@,
{
    "0.0.0.0".to_owned()
}

/// The port that the service listens at.
pub fn default_port() -> (r: u16)
    ensures
        r == 8000,
{
    8000
}

/// Who the agent is, and the token that it asks for.
#[derive(Debug)]
pub struct AgentConfig {
    pub name: String,
    pub site: String,
    pub api_token: String,
}

impl Clone for AgentConfig {
    fn clone(&self) -> (r: Self)
        ensures
            r == *self,
    {
        AgentConfig {
            name: self.name.clone(),
            site: self.site.clone(),
            api_token: self.api_token.clone(),
        }
    }
}

/// The agent of the given name, with neither a site nor a token.
pub fn agent_named(name: String) -> (r: AgentConfig)
    ensures
        r.name == name,
        r.site@ == Seq::<char>::empty(),
        r.api_token@ == Seq::<char>::empty(),
{
    AgentConfig { name, site: String::new(), api_token: String::new() }
}

impl Default for AgentConfig {
    /// The agent that bears the host name of the machine.
    fn default() -> (r: Self)
        ensures
            r.site@ == Seq::<char>::empty(),
            r.api_token@ == Seq::<char>::empty(),
    {
        agent_named(default_agent_name())
    }
}

/// The host name of the machine.
pub fn default_agent_name() -> String {
    host_name()
}

/// Where backups are kept, and how many.
#[derive(Debug)]
pub struct OperationsConfig {
    pub backup_dir: String,
    pub max_backups: usize,
}

impl Clone for OperationsConfig {
    fn clone(&self) -> (r: Self)
        ensures
            r == *self,
    {
        OperationsConfig { backup_dir: self.backup_dir.clone(), max_backups: self.max_backups }
    }
}

impl Default for OperationsConfig {
    fn default() -> (r: Self)
        ensures
            r.backup_dir@ == "~/openclaw-agent-backups"@,
            r.max_backups == 10,
    {
        OperationsConfig { backup_dir: default_backup_dir(), max_backups: default_max_backups() }
    }
}

/// The directory that backups are kept in.
pub fn default_backup_dir() -> (r: String)
    ensures
        r@ == "~/openclaw-agent-backups"@,
{
    "~/openclaw-agent-backups".to_owned()
}

/// The number of backups that are kept.
pub fn default_max_backups() -> (r: usize)
    ensures
        r == 10,
{
    10
}

/// The whole configuration.
#[derive(Debug)]
pub struct AppConfig {
    pub instances: Vec<InstanceConfig>,
    pub probe: ProbeConfig,
    pub restart: RestartConfig,
    pub alert: AlertConfig,
    pub token_scan: TokenScanConfig,
    pub server: ServerConfig,
    pub agent: AgentConfig,
    pub operations: OperationsConfig,
}

impl AppConfig {
    /// Whether two configurations say the same.
    pub open spec fn says_the_same(self, other: AppConfig) -> bool {
        &&& self.instances@ == other.instances@
        &&& self.probe == other.probe
        &&& self.restart == other.restart
        &&& self.alert == other.alert
        &&& self.token_scan == other.token_scan
        &&& self.server == other.server
        &&& self.agent == other.agent
        &&& self.operations == other.operations
    }

    /// Whether every section but the agent's name is at its default.
    pub open spec fn is_default(self) -> bool {
        &&& self.instances@ == Seq::<InstanceConfig>::empty()
        &&& self.probe == probe_defaults()
        &&& self.restart == restart_defaults()
        &&& self.alert.feishu_webhook@ == Seq::<char>::empty()
        &&& !self.alert.enabled
        &&& self.token_scan.interval_minutes == 5
        &&& self.server.host@ == "0.0.0.0"@
        &&& self.server.port == 8000
        &&& self.agent.site@ == Seq::<char>::empty()
        &&& self.agent.api_token@ == Seq::<char>::empty()
        &&& self.operations.backup_dir@ == "~/openclaw-agent-backups"@
        &&& self.operations.max_backups == 10
    }
}

/// Another list of the same instances.
pub fn copy_instances(instances: &Vec<InstanceConfig>) -> (r: Vec<InstanceConfig>)
    ensures
        r@ == instances@,
{
    let mut out: Vec<InstanceConfig> = Vec::new();
    let mut i: usize = 0;
    while i < instances.len()
        invariant
            i <= instances@.len(),
            out@ == instances@.take(i as int),
        decreases instances@.len() - i,
    {
        out.push(instances[i].clone());
        assert(instances@.take(i + 1) =~= instances@.take(i as int).push(instances@[i as int]));
        i = i + 1;
    }
    assert(instances@.take(i as int) =~= instances@);
    out
}

impl Clone for AppConfig {
    fn clone(&self) -> (r: Self)
        ensures
            r.says_the_same(*self),
    {
        AppConfig {
            instances: copy_instances(&self.instances),
            probe: self.probe,
            restart: self.restart,
            alert: self.alert.clone(),
            token_scan: self.token_scan,
            server: self.server.clone(),
            agent: self.agent.clone(),
            operations: self.operations.clone(),
        }
    }
}

impl Default for AppConfig {
    fn default() -> (r: Self)
        ensures
            r.is_default(),
    {
        AppConfig {
            instances: Vec::new(),
            probe: ProbeConfig::default(),
            restart: RestartConfig::default(),
            alert: AlertConfig::default(),
            token_scan: TokenScanConfig::default(),
            server: ServerConfig::default(),
            agent: AgentConfig::default(),
            operations: OperationsConfig::default(),
        }
    }
}

// ---------------------------------------------------------------------------
// Configuration in memory
// ---------------------------------------------------------------------------

/// What came of reading the configuration file.
pub enum ConfigFile {
    /// The file could not be read.
    Unreadable,
    /// The file was read, and it holds no configuration.
    Invalid { mtime: Option<Moment> },
    /// The file was read, and it holds a configuration.
    Valid { config: AppConfig, mtime: Option<Moment> },
}

impl ConfigFile {
    /// The time of change that goes with what was read.
    pub open spec fn mtime(self) -> Option<Moment> {
        match self {
            ConfigFile::Unreadable => None,
            ConfigFile::Invalid { mtime } => mtime,
            ConfigFile::Valid { config, mtime } => mtime,
        }
    }
}

/// The copy of the configuration that is kept in memory, with the time of change of
/// the file that it was read from.
pub struct ConfigManager {
    config: AppConfig,
    mtime: Option<Moment>,
}

impl ConfigManager {
    /// The configuration that is kept.
    pub closed spec fn config(self) -> AppConfig {
        self.config
    }

    /// The time of change of the file that it was read from.
    pub closed spec fn mtime(self) -> Option<Moment> {
        self.mtime
    }

    /// Whether this is what is kept after the file was read: what the file holds, or
    /// the defaults where it holds no configuration.
    pub open spec fn holds(self, file: ConfigFile) -> bool {
        &&& self.mtime() == file.mtime()
        &&& match file {
            ConfigFile::Valid { config, .. } => self.config() == config,
            _ => self.config().is_default(),
        }
    }

    /// Whether this configuration, with this time of change, is what is kept.
    pub open spec fn keeps(self, config: AppConfig, mtime: Option<Moment>) -> bool {
        self.config() == config && self.mtime() == mtime
    }

    /// Whether `after` is what is kept after a reload at a time at which the file has
    /// the given time of change and holds `file`.
    pub open spec fn reloads_to(
        self,
        current_mtime: Option<Moment>,
        file: ConfigFile,
        after: ConfigManager,
    ) -> bool {
        if self.mtime() == current_mtime {
            after == self
        } else {
            after.holds(file)
        }
    }

    /// What is kept after the file was read.
    pub fn new(file: ConfigFile) -> (r: Self)
        ensures
            r.holds(file),
    {
        match file {
            ConfigFile::Unreadable => ConfigManager { config: AppConfig::default(), mtime: None },
            ConfigFile::Invalid { mtime } => ConfigManager { config: AppConfig::default(), mtime },
            ConfigFile::Valid { config, mtime } => ConfigManager { config, mtime },
        }
    }

    /// Whether the file has changed since it was read.
    pub fn is_stale(&self, current_mtime: Option<Moment>) -> (r: bool)
        ensures
            r == (self.mtime() != current_mtime),
    {
        match (self.mtime, current_mtime) {
            (Some(a), Some(b)) => a != b,
            (None, None) => false,
            _ => true,
        }
    }

    /// The configuration that is kept.
    pub fn get(&self) -> (r: &AppConfig)
        ensures
            *r == self.config(),
    {
        &self.config
    }

    /// Takes over what the file holds, if it has changed since it was read.
    pub fn reload(&mut self, current_mtime: Option<Moment>, file: ConfigFile)
        ensures
            old(self).reloads_to(current_mtime, file, *final(self)),
    {
        if self.is_stale(current_mtime) {
            *self = ConfigManager::new(file);
        }
    }

    /// Takes over a configuration that was written to the file, which has the given
    /// time of change since.
    pub fn update(&mut self, new_config: AppConfig, mtime: Option<Moment>)
        ensures
            final(self).keeps(new_config, mtime),
    {
        self.config = new_config;
        self.mtime = mtime;
    }
}

// ---------------------------------------------------------------------------
// State of an instance
// ---------------------------------------------------------------------------

/// What is known of an instance from its probes.
#[derive(Debug, Clone, Copy)]
pub struct InstanceState {
    /// Whether the instance is up; unknown before the first probe decides it.
    pub online: Option<bool>,
    pub last_check: Option<Moment>,
    /// The time that the last answer took, in hundredths of a millisecond.
    pub last_response_time: Option<u64>,
    pub last_status_code: Option<u16>,
    pub consecutive_failures: u32,
    pub uptime_since: Option<Moment>,
}

/// What is known of an instance before the first probe.
pub open spec fn unknown_state() -> InstanceState {
    InstanceState {
        online: None,
        last_check: None,
        last_response_time: None,
        last_status_code: None,
        consecutive_failures: 0,
        uptime_since: None,
    }
}

impl Default for InstanceState {
    fn default() -> (r: Self)
        ensures
            r == unknown_state(),
    {
        InstanceState {
            online: None,
            last_check: None,
            last_response_time: None,
            last_status_code: None,
            consecutive_failures: 0,
            uptime_since: None,
        }
    }
}

// ---------------------------------------------------------------------------
// Laws
// ---------------------------------------------------------------------------

/// What was written is what is read back, as long as the file is not changed
/// again: a manager that keeps a configuration still keeps it after any reload at
/// which the file has the same time of change.
pub proof fn law_update_read_back(
    updated: ConfigManager,
    new_config: AppConfig,
    mtime: Option<Moment>,
    file: ConfigFile,
    after: ConfigManager,
)
    requires
        updated.keeps(new_config, mtime),
        updated.reloads_to(mtime, file, after),
    ensures
        after.keeps(new_config, mtime),
{
}

/// A change of the file is taken over once: after a reload at a new time of change
/// the manager holds what was read, and a second reload at the time of change that
/// went with the reading changes nothing.
pub proof fn law_reload_settles(
    before: ConfigManager,
    current_mtime: Option<Moment>,
    file: ConfigFile,
    after: ConfigManager,
    again: ConfigFile,
    last: ConfigManager,
)
    requires
        before.mtime() != current_mtime,
        before.reloads_to(current_mtime, file, after),
        after.reloads_to(file.mtime(), again, last),
    ensures
        after.holds(file),
        last == after,
{
}

/// What is kept is what the file holds; and where it cannot be read or holds no
/// configuration, the defaults: probes every half minute that are given up after five
/// seconds, a second try ten seconds after a failure, two failures in a row until an instance
/// counts as down; and restarts, at most three in ten minutes, with twenty seconds to come up.
pub proof fn law_configuration_kept(m: ConfigManager, file: ConfigFile)
    requires
        m.holds(file),
    ensures
        file matches ConfigFile::Valid { config, mtime } ==> m.config() == config && m.mtime()
            == mtime,
        file matches ConfigFile::Invalid { mtime } ==> m.mtime() == mtime,
        file is Unreadable ==> m.mtime() is None,
        !(file is Valid) ==> {
            let c = m.config();
            &&& c.instances@.len() == 0
            &&& c.probe.interval_seconds == 30 && c.probe.timeout_seconds == 5
            &&& c.probe.failure_threshold == 2 && c.probe.retry_delay_seconds == 10
            &&& c.restart.enabled && c.restart.max_restarts_per_window == 3
            &&& c.restart.window_minutes == 10 && c.restart.wait_after_restart_seconds == 20
            &&& !c.alert.enabled && c.alert.feishu_webhook@.len() == 0
            &&& c.token_scan.interval_minutes == 5
            &&& c.server.host@ == "0.0.0.0"@ && c.server.port == 8000
            &&& c.agent.site@.len() == 0 && c.agent.api_token@.len() == 0
            &&& c.operations.backup_dir@ == "~/openclaw-agent-backups"@
            &&& c.operations.max_backups == 10
        },
{
}

/// A reload takes over what the file holds where its time of change is another one than the
/// one that is kept, and changes nothing otherwise.
pub proof fn law_reload(
    before: ConfigManager,
    current_mtime: Option<Moment>,
    file: ConfigFile,
    after: ConfigManager,
)
    requires
        before.reloads_to(current_mtime, file, after),
    ensures
        before.mtime() == current_mtime ==> after == before,
        before.mtime() != current_mtime ==> after.mtime() == file.mtime() && (
        file matches ConfigFile::Valid { config, mtime } ==> after.config() == config),
{
}

/// The values of what a configuration file leaves out.
pub proof fn law_defaults(
    home: String,
    on: bool,
    interval: u64,
    timeout: u64,
    threshold: u32,
    retry: u64,
    restarts: u32,
    window: u32,
    wait: u64,
    scan: u64,
    host: String,
    port: u16,
    dir: String,
    backups: usize,
)
    requires
        call_ensures(default_openclaw_home, (), home),
        call_ensures(default_true, (), on),
        call_ensures(default_interval, (), interval),
        call_ensures(default_timeout, (), timeout),
        call_ensures(default_failure_threshold, (), threshold),
        call_ensures(default_retry_delay, (), retry),
        call_ensures(default_max_restarts, (), restarts),
        call_ensures(default_window_minutes, (), window),
        call_ensures(default_wait_after_restart, (), wait),
        call_ensures(default_token_interval, (), scan),
        call_ensures(default_host, (), host),
        call_ensures(default_port, (), port),
        call_ensures(default_backup_dir, (), dir),
        call_ensures(default_max_backups, (), backups),
    ensures
        home@ == "~/.openclaw"@,
        on,
        timeout < interval,
        interval == 30 && timeout == 5,
        threshold == 2 && retry == 10,
        restarts == 3 && window == 10 && wait == 20,
        scan == 5,
        host@ == "0.0.0.0"@ && port == 8000,
        dir@ == "~/openclaw-agent-backups"@ && backups == 10,
{
}

/// An instance of which nothing is known is neither up nor down and has no failures.
pub proof fn law_nothing_known()
    ensures
        unknown_state().online is None,
        unknown_state().consecutive_failures == 0,
        unknown_state().uptime_since is None,
        unknown_state().last_check is None,
        unknown_state().last_status_code is None,
        unknown_state().last_response_time is None,
{
}

} // verus!
