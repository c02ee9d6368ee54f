//! Configuration mirroring `vpsguard.toml`, and the cross-module wiring that
//! derives a Caddy site and a database module from the `[app]` table.

use vstd::prelude::*;

use crate::dashboard::ascending;
use crate::text::{decimal, decimal_string, owned, push_str};

verus! {

/// Hardening profile. Selects the default strictness of modules.
#[derive(Debug, Clone, Copy, PartialEq, Eq, Structural)]
pub enum Profile {
    Homelab,
    Balanced,
    Strict,
    Paranoid,
}

impl Default for Profile {
    fn default() -> (r: Self)
        ensures
            r == Profile::Balanced,
    {
        Profile::Balanced
    }
}

/// Monitoring agent backend.
#[derive(Debug, Clone, Copy, PartialEq, Eq, Structural)]
pub enum MonitoringBackend {
    /// All-in-one agent with a built-in web dashboard.
    Netdata,
    /// Prometheus node_exporter, for scraping by a central Prometheus.
    NodeExporter,
}

impl Default for MonitoringBackend {
    fn default() -> (r: Self)
        ensures
            r == MonitoringBackend::Netdata,
    {
        MonitoringBackend::Netdata
    }
}

/// Monitoring settings (`[monitoring]`).
#[derive(Debug, Clone)]
pub struct MonitoringConfig {
    /// Install a monitoring agent.
    pub enabled: bool,
    /// Which agent to install.
    pub backend: MonitoringBackend,
}

impl Default for MonitoringConfig {
    fn default() -> (r: Self)
        ensures
            !r.enabled,
            r.backend == MonitoringBackend::Netdata,
    {
        MonitoringConfig { enabled: false, backend: MonitoringBackend::Netdata }
    }
}

/// Base system settings (`[system]`): hostname, timezone, swap.
#[derive(Debug, Clone)]
pub struct SystemConfig {
    /// Static hostname to set.
    pub hostname: Option<String>,
    /// Timezone, e.g. "Europe/Paris".
    pub timezone: Option<String>,
    /// Swap file size in MiB; None or 0 leaves swap unmanaged.
    pub swap_mb: Option<u32>,
}

impl Default for SystemConfig {
    fn default() -> (r: Self)
        ensures
            r.hostname is None,
            r.timezone is None,
            r.swap_mb is None,
    {
        SystemConfig { hostname: None, timezone: None, swap_mb: None }
    }
}

/// Tailscale settings (`[tailscale]`).
#[derive(Debug, Clone)]
pub struct TailscaleConfig {
    /// Install Tailscale and bring the node up.
    pub enabled: bool,
    /// Pre-auth key for non-interactive `tailscale up`.
    pub auth_key: Option<String>,
    /// Enable Tailscale SSH on this node.
    pub ssh: bool,
}

impl Default for TailscaleConfig {
    fn default() -> (r: Self)
        ensures
            !r.enabled,
            r.auth_key is None,
            !r.ssh,
    {
        TailscaleConfig { enabled: false, auth_key: None, ssh: false }
    }
}

/// PostgreSQL settings (`[postgres]`).
#[derive(Debug, Clone)]
pub struct PostgresConfig {
    /// Install PostgreSQL and enable its service.
    pub enabled: bool,
    /// Databases to create if missing.
    pub databases: Vec<String>,
}

impl Default for PostgresConfig {
    fn default() -> (r: Self)
        ensures
            !r.enabled,
            r.databases@.len() == 0,
    {
        PostgresConfig { enabled: false, databases: Vec::new() }
    }
}

/// Redis settings (`[redis]`).
#[derive(Debug, Clone)]
pub struct RedisConfig {
    /// Install Redis and enable its service.
    pub enabled: bool,
}

impl Default for RedisConfig {
    fn default() -> (r: Self)
        ensures
            !r.enabled,
    {
        RedisConfig { enabled: false }
    }
}

/// Web framework an app uses. Docker runtime is framework-agnostic; the
/// framework guides the native runtime and auto-wiring.
#[derive(Debug, Clone, Copy, PartialEq, Eq, Structural)]
pub enum Framework {
    Django,
    Laravel,
    /// Node.js apps (Express, Next.js, Nest).
    Node,
    /// FastAPI (Python).
    Fastapi,
    /// Ruby on Rails.
    Rails,
    /// Any app with its own compose file, no framework specifics.
    Generic,
    /// Static site served by Caddy (no application runtime).
    Static,
    /// Plain PHP app (php-fpm).
    Php,
    /// WordPress (PHP CMS).
    Wordpress,
}

impl Default for Framework {
    fn default() -> (r: Self)
        ensures
            r == Framework::Django,
    {
        Framework::Django
    }
}

/// How the app is run.
#[derive(Debug, Clone, Copy, PartialEq, Eq, Structural)]
pub enum AppRuntime {
    Docker,
    Native,
}

impl Default for AppRuntime {
    fn default() -> (r: Self)
        ensures
            r == AppRuntime::Docker,
    {
        AppRuntime::Docker
    }
}

/// Database the app is wired to.
#[derive(Debug, Clone, Copy, PartialEq, Eq, Structural)]
pub enum AppDatabase {
    /// No database (`database = "none"`).
    Unset,
    Postgres,
    Mysql,
    Redis,
}

impl Default for AppDatabase {
    fn default() -> (r: Self)
        ensures
            r == AppDatabase::Unset,
    {
        AppDatabase::Unset
    }
}

/// Application deploy settings (`[app]`).
#[derive(Debug, Clone)]
pub struct AppConfig {
    /// Deploy the app.
    pub enabled: bool,
    /// Web framework.
    pub framework: Framework,
    /// How to run it (docker compose or native).
    pub runtime: AppRuntime,
    /// Git repository to deploy.
    pub repo: Option<String>,
    /// Checkout directory (default /srv/app).
    pub dir: Option<String>,
    /// Public domain (for reverse proxy).
    pub domain: Option<String>,
    /// Port the app listens on (for the reverse proxy). Defaults per framework.
    pub port: Option<u16>,
    /// Database to use.
    pub database: AppDatabase,
}

/// The mathematical value of an [`AppConfig`].
pub struct AppConfigV {
    pub enabled: bool,
    pub framework: Framework,
    pub runtime: AppRuntime,
    pub repo: Option<Seq<char>>,
    pub dir: Option<Seq<char>>,
    pub domain: Option<Seq<char>>,
    pub port: Option<u16>,
    pub database: AppDatabase,
}

impl DeepView for AppConfig {
    type V = AppConfigV;

    open spec fn deep_view(&self) -> AppConfigV {
        AppConfigV {
            enabled: self.enabled,
            framework: self.framework,
            runtime: self.runtime,
            repo: self.repo.deep_view(),
            dir: self.dir.deep_view(),
            domain: self.domain.deep_view(),
            port: self.port,
            database: self.database,
        }
    }
}

impl Default for AppConfig {
    fn default() -> (r: Self)
        ensures
            !r.enabled,
            r.framework == Framework::Django,
            r.runtime == AppRuntime::Docker,
            r.repo is None,
            r.dir is None,
            r.domain is None,
            r.port is None,
            r.database == AppDatabase::Unset,
    {
        AppConfig {
            enabled: false,
            framework: Framework::Django,
            runtime: AppRuntime::Docker,
            repo: None,
            dir: None,
            domain: None,
            port: None,
            database: AppDatabase::Unset,
        }
    }
}

/// Docker runtime settings (`[docker]`).
#[derive(Debug, Clone)]
pub struct DockerConfig {
    /// Install Docker and enable its service.
    pub enabled: bool,
    /// Users to add to the docker group.
    pub users: Vec<String>,
}

impl Default for DockerConfig {
    fn default() -> (r: Self)
        ensures
            !r.enabled,
            r.users@.len() == 0,
    {
        DockerConfig { enabled: false, users: Vec::new() }
    }
}

/// One Caddy site block. Automatic HTTPS applies to public domains.
#[derive(Debug, Clone)]
pub struct CaddySite {
    /// Domain to serve, e.g. "example.com".
    pub domain: String,
    /// Upstream to reverse-proxy to, e.g. "localhost:8080".
    pub reverse_proxy: Option<String>,
    /// Directory to serve statically (used when reverse_proxy is unset).
    pub root: Option<String>,
}

/// The mathematical value of a [`CaddySite`].
pub struct CaddySiteV {
    pub domain: Seq<char>,
    pub reverse_proxy: Option<Seq<char>>,
    pub root: Option<Seq<char>>,
}

impl DeepView for CaddySite {
    type V = CaddySiteV;

    open spec fn deep_view(&self) -> CaddySiteV {
        CaddySiteV {
            domain: self.domain@,
            reverse_proxy: self.reverse_proxy.deep_view(),
            root: self.root.deep_view(),
        }
    }
}

impl Default for CaddySite {
    fn default() -> (r: Self)
        ensures
            r.domain@ == Seq::<char>::empty(),
            r.reverse_proxy is None,
            r.root is None,
    {
        CaddySite { domain: String::new(), reverse_proxy: None, root: None }
    }
}

/// Caddy reverse-proxy settings (`[caddy]`).
#[derive(Debug, Clone)]
pub struct CaddyConfig {
    /// Install Caddy and manage its Caddyfile.
    pub enabled: bool,
    /// Sites to serve (`[[caddy.sites]]`).
    pub sites: Vec<CaddySite>,
}

impl Default for CaddyConfig {
    fn default() -> (r: Self)
        ensures
            !r.enabled,
            r.sites@.len() == 0,
    {
        CaddyConfig { enabled: false, sites: Vec::new() }
    }
}

/// fail2ban settings (`[fail2ban]`).
#[derive(Debug, Clone)]
pub struct Fail2banConfig {
    /// Install and enable fail2ban.
    pub enabled: bool,
    /// Jails to enable, e.g. ["sshd"].
    pub jails: Vec<String>,
    /// Ban duration (fail2ban syntax, e.g. "10m"); None uses fail2ban default.
    pub bantime: Option<String>,
    /// Failures before a ban; None uses fail2ban default.
    pub maxretry: Option<u32>,
}

impl Default for Fail2banConfig {
    fn default() -> (r: Self)
        ensures
            r.enabled,
            r.jails.deep_view() == seq!["sshd"@],
            r.bantime is None,
            r.maxretry is None,
    {
        let mut jails: Vec<String> = Vec::new();
        jails.push(owned("sshd"));
        let r = Fail2banConfig { enabled: true, jails, bantime: None, maxretry: None };
        assert(r.jails.deep_view() =~= seq!["sshd"@]);
        r
    }
}

/// Automatic update settings (`[updates]`).
#[derive(Debug, Clone)]
pub struct UpdatesConfig {
    /// Enable unattended security updates.
    pub enabled: bool,
    /// Daily reboot time "HH:MM" when updates require it; None disables reboot.
    pub auto_reboot: Option<String>,
}

impl Default for UpdatesConfig {
    fn default() -> (r: Self)
        ensures
            r.enabled,
            r.auto_reboot is None,
    {
        UpdatesConfig { enabled: true, auto_reboot: None }
    }
}

/// A managed user account (`[users.<name>]`).
#[derive(Debug, Clone)]
pub struct UserConfig {
    /// Grant sudo via /etc/sudoers.d.
    pub sudo: bool,
    /// Authorized SSH public keys to install.
    pub ssh_keys: Vec<String>,
}

impl Default for UserConfig {
    fn default() -> (r: Self)
        ensures
            !r.sudo,
            r.ssh_keys@.len() == 0,
    {
        UserConfig { sudo: false, ssh_keys: Vec::new() }
    }
}

/// SSH daemon hardening settings (`[ssh]`).
#[derive(Debug, Clone, Copy)]
pub struct SshConfig {
    /// Port `sshd` listens on.
    pub port: u16,
    /// Whether root may log in over SSH.
    pub permit_root_login: bool,
    /// Whether password authentication is allowed.
    pub password_auth: bool,
    /// Apply a modern, restrictive cipher/kex/mac set.
    pub modern_ciphers: bool,
}

impl Default for SshConfig {
    /// Secure by default: port 22, root and password login off, modern crypto.
    fn default() -> (r: Self)
        ensures
            r.port == 22,
            !r.permit_root_login,
            !r.password_auth,
            r.modern_ciphers,
    {
        SshConfig { port: 22, permit_root_login: false, password_auth: false, modern_ciphers: true }
    }
}

/// Firewall backend. Only nftables is supported for now.
#[derive(Debug, Clone, Copy, PartialEq, Eq, Structural)]
pub enum FirewallBackend {
    Nftables,
}

impl Default for FirewallBackend {
    fn default() -> (r: Self)
        ensures
            r == FirewallBackend::Nftables,
    {
        FirewallBackend::Nftables
    }
}

/// Default policy for the input chain.
#[derive(Debug, Clone, Copy, PartialEq, Eq, Structural)]
pub enum Policy {
    Deny,
    Allow,
}

impl Default for Policy {
    fn default() -> (r: Self)
        ensures
            r == Policy::Deny,
    {
        Policy::Deny
    }
}

/// Firewall settings (`[firewall]`).
#[derive(Debug, Clone)]
pub struct FirewallConfig {
    /// Whether vpsguard manages the firewall at all.
    pub enabled: bool,
    /// Backend used to program rules.
    pub backend: FirewallBackend,
    /// Input policy when no allow rule matches.
    pub default: Policy,
    /// Allow rules, e.g. "80/tcp", "443/tcp", "22/tcp from 10.0.0.0/8".
    pub allow: Vec<String>,
}

impl Default for FirewallConfig {
    fn default() -> (r: Self)
        ensures
            r.enabled,
            r.backend == FirewallBackend::Nftables,
            r.default == Policy::Deny,
            r.allow@.len() == 0,
    {
        FirewallConfig {
            enabled: true,
            backend: FirewallBackend::Nftables,
            default: Policy::Deny,
            allow: Vec::new(),
        }
    }
}

/// Root configuration document. `users` holds the `[users.<name>]` tables
/// in name order.
#[derive(Debug, Clone)]
pub struct Config {
    /// Optional builtin recipe to use as a base preset.
    pub recipe: Option<String>,
    pub profile: Profile,
    pub ssh: SshConfig,
    pub firewall: FirewallConfig,
    /// Managed users, keyed by username, in name order.
    pub users: Vec<(String, UserConfig)>,
    pub updates: UpdatesConfig,
    pub fail2ban: Fail2banConfig,
    pub docker: DockerConfig,
    pub caddy: CaddyConfig,
    pub system: SystemConfig,
    pub tailscale: TailscaleConfig,
    pub postgres: PostgresConfig,
    pub redis: RedisConfig,
    pub app: AppConfig,
    pub monitoring: MonitoringConfig,
}

/// The usernames of the managed users, in order.
pub open spec fn user_names(users: Seq<(String, UserConfig)>) -> Seq<Seq<char>> {
    users.map_values(|u: (String, UserConfig)| u.0@)
}

impl Config {
    /// Usernames are ascending, so each occurs once.
    pub open spec fn wf(&self) -> bool {
        ascending(user_names(self.users@))
    }
}

impl Default for Config {
    fn default() -> (r: Self)
        ensures
            r.wf(),
            r.recipe is None,
            r.profile == Profile::Balanced,
            r.users@.len() == 0,
            !r.app.enabled,
            !r.caddy.enabled,
            r.caddy.sites@.len() == 0,
            !r.postgres.enabled,
            !r.redis.enabled,
            r.firewall.enabled,
            r.updates.enabled,
            r.fail2ban.enabled,
            r.ssh.port == 22,
    {
        Config {
            recipe: None,
            profile: Profile::default(),
            ssh: SshConfig::default(),
            firewall: FirewallConfig::default(),
            users: Vec::new(),
            updates: UpdatesConfig::default(),
            fail2ban: Fail2banConfig::default(),
            docker: DockerConfig::default(),
            caddy: CaddyConfig::default(),
            system: SystemConfig::default(),
            tailscale: TailscaleConfig::default(),
            postgres: PostgresConfig::default(),
            redis: RedisConfig::default(),
            app: AppConfig::default(),
            monitoring: MonitoringConfig::default(),
        }
    }
}

// ---------------------------------------------------------------------------
// Wiring
// ---------------------------------------------------------------------------

/// Default listening port per framework, used to wire the reverse proxy.
pub open spec fn spec_default_port(f: Framework) -> u16 {
    match f {
        Framework::Node | Framework::Rails => 3000,
        Framework::Php | Framework::Wordpress | Framework::Generic => 8080,
        _ => 8000,
    }
}

/// Default listening port per framework, used to wire the reverse proxy.
pub fn default_port(f: Framework) -> (r: u16)
    ensures
        r == spec_default_port(f),
{
    match f {
        Framework::Node | Framework::Rails => 3000,
        Framework::Php | Framework::Wordpress | Framework::Generic => 8080,
        _ => 8000,
    }
}

/// The Caddy site that serves the app at `domain`: a file server over the
/// checkout for static sites, else a reverse proxy to the app's port.
pub open spec fn app_site(app: AppConfigV, domain: Seq<char>) -> CaddySiteV {
    if app.framework == Framework::Static {
        CaddySiteV {
            domain,
            reverse_proxy: None,
            root: Some(
                match app.dir {
                    Some(d) => d,
                    None => "/srv/app"@,
                },
            ),
        }
    } else {
        let port = match app.port {
            Some(p) => p,
            None => spec_default_port(app.framework),
        };
        CaddySiteV {
            domain,
            reverse_proxy: Some("localhost:"@ + decimal(port as nat)),
            root: None,
        }
    }
}

/// Some site in `sites` serves `domain`.
pub open spec fn has_site(sites: Seq<CaddySiteV>, domain: Seq<char>) -> bool {
    exists|i: int| 0 <= i < sites.len() && #[trigger] sites[i].domain == domain
}

/// The site list after wiring: the app's site is added when the app is
/// enabled with a domain that no site serves yet.
pub open spec fn wired_sites(sites: Seq<CaddySiteV>, app: AppConfigV) -> Seq<CaddySiteV> {
    match app.domain {
        Some(d) => if app.enabled && !has_site(sites, d) {
            sites.push(app_site(app, d))
        } else {
            sites
        },
        None => sites,
    }
}

/// Caddy's `enabled` flag after wiring.
pub open spec fn wired_caddy_enabled(enabled: bool, app: AppConfigV) -> bool {
    enabled || (app.enabled && app.domain is Some)
}

/// The postgres (or redis) `enabled` flag after wiring.
pub open spec fn wired_db_enabled(enabled: bool, app: AppConfigV, db: AppDatabase) -> bool {
    enabled || (app.enabled && app.database == db)
}

impl Config {
    /// Derive cross-module settings from the app config: a Caddy site for the
    /// app's domain and the database module it depends on.
    pub fn wire(&mut self)
        ensures
            final(self).caddy.sites.deep_view() == wired_sites(
                old(self).caddy.sites.deep_view(),
                old(self).app.deep_view(),
            ),
            final(self).caddy.enabled == wired_caddy_enabled(
                old(self).caddy.enabled,
                old(self).app.deep_view(),
            ),
            final(self).postgres.enabled == wired_db_enabled(
                old(self).postgres.enabled,
                old(self).app.deep_view(),
                AppDatabase::Postgres,
            ),
            final(self).redis.enabled == wired_db_enabled(
                old(self).redis.enabled,
                old(self).app.deep_view(),
                AppDatabase::Redis,
            ),
            final(self).postgres.databases == old(self).postgres.databases,
            final(self).app == old(self).app,
            final(self).recipe == old(self).recipe,
            final(self).profile == old(self).profile,
            final(self).ssh == old(self).ssh,
            final(self).firewall == old(self).firewall,
            final(self).users == old(self).users,
            final(self).wf() == old(self).wf(),
            final(self).updates == old(self).updates,
            final(self).fail2ban == old(self).fail2ban,
            final(self).docker == old(self).docker,
            final(self).system == old(self).system,
            final(self).tailscale == old(self).tailscale,
            final(self).monitoring == old(self).monitoring,
    {
        if !self.app.enabled {
            return;
        }
        match &self.app.domain {
            Some(domain) => {
                self.caddy.enabled = true;
                let mut found = false;
                let mut i: usize = 0;
                while i < self.caddy.sites.len()
                    invariant
                        i <= self.caddy.sites@.len(),
                        found == exists|j: int|
                            0 <= j < i && #[trigger] self.caddy.sites.deep_view()[j].domain
                                == domain@,
                    decreases self.caddy.sites@.len() - i,
                {
                    let same = self.caddy.sites[i].domain == *domain;
                    proof {
                        let sv = self.caddy.sites.deep_view();
                        assert(sv[i as int] == self.caddy.sites@[i as int].deep_view());
                        assert(same == (sv[i as int].domain == domain@));
                    }
                    if same {
                        found = true;
                    }
                    i = i + 1;
                }
                if !found {
                    let site = if self.app.framework == Framework::Static {
                        let root = match &self.app.dir {
                            Some(d) => owned(d.as_str()),
                            None => {
                                proof {
                                    reveal_strlit("/srv/app");
                                }
                                owned("/srv/app")
                            },
                        };
                        CaddySite { domain: owned(domain.as_str()), reverse_proxy: None, root: Some(root) }
                    } else {
                        let port = match self.app.port {
                            Some(p) => p,
                            None => default_port(self.app.framework),
                        };
                        let mut up = owned("localhost:");
                        let digits = decimal_string(port as u64);
                        push_str(&mut up, digits.as_str());
                        CaddySite { domain: owned(domain.as_str()), reverse_proxy: Some(up), root: None }
                    };
                    let ghost before = self.caddy.sites.deep_view();
                    self.caddy.sites.push(site);
                    assert(self.caddy.sites.deep_view() =~= before.push(site.deep_view()));
                }
            },
            None => {},
        }
        match self.app.database {
            AppDatabase::Postgres => self.postgres.enabled = true,
            AppDatabase::Redis => self.redis.enabled = true,
            AppDatabase::Mysql | AppDatabase::Unset => {},
        }
    }
}

/// Law: wiring is idempotent. Wiring an already wired configuration leaves
/// the site list and every flag unchanged.
pub proof fn law_wire_idempotent(sites: Seq<CaddySiteV>, caddy: bool, pg: bool, redis: bool, app: AppConfigV)
    ensures
        wired_sites(wired_sites(sites, app), app) == wired_sites(sites, app),
        wired_caddy_enabled(wired_caddy_enabled(caddy, app), app) == wired_caddy_enabled(caddy, app),
        wired_db_enabled(wired_db_enabled(pg, app, AppDatabase::Postgres), app, AppDatabase::Postgres)
            == wired_db_enabled(pg, app, AppDatabase::Postgres),
        wired_db_enabled(wired_db_enabled(redis, app, AppDatabase::Redis), app, AppDatabase::Redis)
            == wired_db_enabled(redis, app, AppDatabase::Redis),
{
    if let Some(d) = app.domain {
        if app.enabled && !has_site(sites, d) {
            let s1 = sites.push(app_site(app, d));
            assert(s1[s1.len() - 1].domain == d);
            assert(has_site(s1, d));
        }
    }
}

} // verus!
