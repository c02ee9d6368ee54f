use vpsguard::action::{verdict, Flow, Outcome, Step};
use vpsguard::app::AppModule;
use vpsguard::caddy::CaddyModule;
use vpsguard::config::{
    AppConfig, AppRuntime, CaddyConfig, Framework, CaddySite, DockerConfig, FirewallConfig, Fail2banConfig, PostgresConfig, RedisConfig, SshConfig, SystemConfig,
    UpdatesConfig, UserConfig,
};
use vpsguard::docker::{DockerModule, GroupMember};
use vpsguard::fail2ban::{Fail2banModule, Fail2banState};
use vpsguard::firewall::FirewallModule;
use vpsguard::platform::{DistroFamily, Platform};
use vpsguard::postgres::{DatabaseState, PostgresModule};
use vpsguard::redis::RedisModule;
use vpsguard::ssh::SshModule;
use vpsguard::system::{SystemModule, SystemState};
use vpsguard::types::{Error, State};
use vpsguard::updates::{UpdatesModule, UpdatesState};
use vpsguard::users::{ObservedUser, UsersModule};

fn line(s: &Step) -> String {
    match s {
        Step::Run { command, args }
        | Step::RunQuiet { command, args }
        | Step::RunChecked { command, args }
        | Step::Validate { command, args, .. } => format!("{} {}", command, args.join(" ")),
        Step::Write { path, .. } | Step::WriteQuiet { path, .. } => format!("write {path}"),
        Step::Remove { path } | Step::RemoveQuiet { path } => format!("remove {path}"),
        Step::Rename { from, to } => format!("rename {from} {to}"),
        Step::Require { paths, .. } => format!("require {}", paths.join(" ")),
    }
}

fn lines(steps: &[Step]) -> Vec<String> {
    steps.iter().map(line).collect()
}

fn debian() -> Platform {
    Platform {
        family: DistroFamily::Debian,
        id: "debian".into(),
    }
}

#[test]
fn docker_debian_installs_enables_and_adds_group() {
    let cfg = DockerConfig {
        enabled: true,
        users: vec!["deploy".into()],
    };
    let members = vec![GroupMember {
        user: "deploy".into(),
        in_group: false,
    }];
    let plan = DockerModule.apply(&cfg, &debian(), false, false, &members, false);
    let l = lines(&plan.steps);
    assert!(l.contains(&"apt-get install -y docker.io".to_string()));
    assert!(l.contains(&"systemctl enable --now docker".to_string()));
    assert!(l.contains(&"usermod -aG docker deploy".to_string()));
    assert!(!plan.report.applied.is_empty());
}

#[test]
fn docker_dry_run_and_rollback() {
    let cfg = DockerConfig {
        enabled: true,
        users: vec!["deploy".into()],
    };
    let members = vec![GroupMember {
        user: "deploy".into(),
        in_group: false,
    }];
    let plan = DockerModule.apply(&cfg, &debian(), false, false, &members, true);
    assert!(plan.steps.is_empty());
    assert!(plan.report.applied.is_empty());
    assert!(plan.report.skipped.iter().any(|c| c.summary.contains("install")));
    assert_eq!(lines(&DockerModule.rollback(&cfg)), vec!["gpasswd -d deploy docker"]);
}

#[test]
fn docker_disabled_or_unknown_distro_is_not_applicable() {
    let off = DockerConfig::default();
    let st = DockerModule.check(&off, &debian(), false, false, &vec![]);
    assert_eq!(st.state, State::NotApplicable);
    let on = DockerConfig {
        enabled: true,
        users: vec![],
    };
    let st = DockerModule.check(&on, &Platform::default(), false, false, &vec![]);
    assert_eq!(st.state, State::NotApplicable);
}

#[test]
fn postgres_installs_enables_and_creates_db() {
    let cfg = PostgresConfig {
        enabled: true,
        databases: vec!["myapp".into()],
    };
    let dbs = vec![DatabaseState {
        name: "myapp".into(),
        exists: false,
    }];
    let prepare = PostgresModule.prepare_steps(&cfg, &debian(), false, false, &dbs, false);
    let plan = PostgresModule.apply(&cfg, &debian(), false, false, &dbs, &dbs, false);
    assert!(!plan.report.is_noop());
    let mut l = lines(&prepare);
    l.extend(lines(&plan.steps));
    assert!(l.contains(&"apt-get install -y postgresql".to_string()));
    assert!(l.contains(&"systemctl enable --now postgresql".to_string()));
    assert!(l.contains(&"sudo -u postgres createdb myapp".to_string()));
}

#[test]
fn redis_uses_distro_package_names() {
    let cfg = RedisConfig { enabled: true };
    let deb = lines(&RedisModule.apply(&cfg, &debian(), false, false, false).steps);
    assert!(deb.contains(&"apt-get install -y redis-server".to_string()));
    assert!(deb.contains(&"systemctl enable --now redis-server".to_string()));
    let rhel = Platform {
        family: DistroFamily::Rhel,
        id: "fedora".into(),
    };
    let r = lines(&RedisModule.apply(&cfg, &rhel, false, false, false).steps);
    assert!(r.contains(&"dnf install -y redis".to_string()));
    assert!(r.contains(&"systemctl enable --now redis".to_string()));
}

#[test]
fn fail2ban_arch_uses_pacman() {
    let arch = Platform {
        family: DistroFamily::Arch,
        id: "arch".into(),
    };
    let st = Fail2banState {
        installed: false,
        jail_file: String::new(),
        service_enabled: false,
    };
    let plan = Fail2banModule.apply(&Fail2banConfig::default(), 22, &arch, &st, false);
    assert!(lines(&plan.steps).contains(&"pacman -S --noconfirm fail2ban".to_string()));
}

#[test]
fn updates_debian_installs_and_writes_apt_conf() {
    let cfg = UpdatesConfig {
        enabled: true,
        auto_reboot: Some("02:00".into()),
    };
    let st = UpdatesState {
        installed: false,
        apt_periodic: String::new(),
        apt_reboot: None,
        dnf_conf: String::new(),
        timer_enabled: false,
    };
    let install = UpdatesModule.install_steps(&cfg, &debian(), &st, false);
    assert_eq!(lines(&install), vec!["apt-get install -y unattended-upgrades"]);
    let plan = UpdatesModule.apply(&cfg, &debian(), &st, &st, false);
    let l = lines(&plan.steps);
    assert!(plan.report.applied.iter().any(|c| c.summary == "install unattended-upgrades"));
    assert!(l.contains(&"write /etc/apt/apt.conf.d/20auto-upgrades".to_string()));
    assert!(l.contains(&"write /etc/apt/apt.conf.d/51vpsguard-reboot".to_string()));
}

#[test]
fn ssh_apply_stages_validates_and_restarts() {
    let cfg = SshConfig {
        port: 2222,
        permit_root_login: false,
        password_auth: false,
        modern_ciphers: false,
    };
    let current = Some("Port 22\nPermitRootLogin yes\n".to_string());
    let plan = SshModule.apply(&cfg, &current, false, &debian(), "/").unwrap();
    let l = lines(&plan.steps);
    assert!(l.iter().any(|s| s.starts_with("sshd -t")));
    assert!(l.contains(&"systemctl restart ssh".to_string()));
    let body = plan.steps.iter().find_map(|s| match s {
        Step::Write { body, .. } | Step::WriteQuiet { body, .. } if body.contains("Port 2222") => Some(body.clone()),
        _ => None,
    });
    assert!(body.unwrap().contains("PermitRootLogin no"));
    let again = SshModule.apply(&cfg, &Some("Port 2222\nPermitRootLogin no\nPasswordAuthentication no\n".into()), false, &debian(), "/").unwrap();
    assert!(again.steps.is_empty());
    assert!(again.report.applied.is_empty());
}

#[test]
fn users_apply_creates_user_grants_sudo_installs_keys() {
    let u = ObservedUser {
        name: "deploy".into(),
        spec: UserConfig {
            sudo: true,
            ssh_keys: vec!["ssh-ed25519 AAAAkey deploy@host".into()],
        },
        authorized_keys: String::new(),
        sudoers: None,
    };
    let plan = UsersModule.apply("root:x:0:0::/root:/bin/bash\n", &vec![u], false, "/");
    let l = lines(&plan.steps).join("\n");
    assert!(l.contains("useradd"));
    assert!(l.contains("visudo -cf"));
    assert!(l.contains("chown -R deploy:deploy"));
    assert!(l.contains("/home/deploy/.ssh/authorized_keys"));
}

#[test]
fn system_sets_hostname_timezone_and_swap() {
    let cfg = SystemConfig {
        hostname: Some("my-vps".into()),
        timezone: Some("Europe/Paris".into()),
        swap_mb: Some(1024),
    };
    let st = SystemState {
        hostname_file: "old\n".into(),
        timezone_output: Some("UTC\n".into()),
        swaps: String::new(),
        fstab: String::new(),
    };
    let plan = SystemModule.apply(&cfg, &st, false);
    let l = lines(&plan.steps).join("\n");
    assert!(l.contains("hostnamectl set-hostname my-vps"));
    assert!(l.contains("timedatectl set-timezone Europe/Paris"));
    assert!(l.contains("fallocate -l 1024M"));
    assert!(l.contains("swapon"));
    assert!(l.contains("etc/fstab"));
    let dry = SystemModule.apply(&cfg, &st, true);
    assert!(dry.steps.is_empty());
}

#[test]
fn verdicts() {
    let checked = Step::RunChecked {
        command: "apt-get".into(),
        args: vec!["install".into(), "-y".into(), "x".into()],
    };
    match verdict(&checked, Outcome::Exited { code: 100, stderr: "E: no".into() }) {
        Flow::Abort(e) => assert_eq!(e.message(), "command `apt-get install -y x` failed (exit 100): E: no"),
        other => panic!("{other:?}"),
    }
    assert!(matches!(verdict(&checked, Outcome::Exited { code: 0, stderr: String::new() }), Flow::Continue));
    let quiet = Step::RunQuiet {
        command: "x".into(),
        args: vec![],
    };
    assert!(matches!(
        verdict(&quiet, Outcome::Failed(Error::Config("no".into()))),
        Flow::Continue
    ));
    let validate = Step::Validate {
        command: "sshd".into(),
        args: vec!["-t".into()],
        staged: "/etc/ssh/x.new".into(),
        reason: "sshd -t rejected".into(),
    };
    match verdict(&validate, Outcome::Exited { code: 255, stderr: " bad line \n".into() }) {
        Flow::CleanupAndAbort { path, error } => {
            assert_eq!(path, "/etc/ssh/x.new");
            assert_eq!(error.message(), "safety check failed: sshd -t rejected: bad line");
        }
        other => panic!("{other:?}"),
    }
    let require = Step::Require {
        paths: vec!["/srv/app/compose.yaml".into()],
        error: Error::Config("no docker compose file".into()),
    };
    assert!(matches!(verdict(&require, Outcome::Absent), Flow::Abort(_)));
    assert!(matches!(verdict(&require, Outcome::Done), Flow::Continue));
}

#[test]
fn ssh_rollback_writes_back_the_snapshot() {
    let cfg = SshConfig {
        port: 2222,
        permit_root_login: false,
        password_auth: false,
        modern_ciphers: false,
    };
    let before = "Port 22\nPermitRootLogin yes\n".to_string();
    let plan = SshModule.apply(&cfg, &Some(before.clone()), false, &debian(), "/").unwrap();
    match &plan.steps[0] {
        Step::Write { path, body } => {
            assert_eq!(path, "/etc/ssh/sshd_config.vpsguard.bak");
            assert_eq!(body, &before);
        }
        other => panic!("{other:?}"),
    }
    let back = SshModule.rollback(&Some(before.clone()), &debian()).unwrap();
    assert_eq!(
        lines(&back),
        vec![
            "write /etc/ssh/sshd_config",
            "systemctl restart ssh",
            "remove /etc/ssh/sshd_config.vpsguard.bak"
        ]
    );
    assert!(matches!(&back[0], Step::Write { body, .. } if body == &before));
    assert!(SshModule.rollback(&None, &debian()).is_err());
}

#[test]
fn firewall_rollback_replays_snapshot() {
    let fw = FirewallConfig {
        allow: vec!["80/tcp".into()],
        ..FirewallConfig::default()
    };
    let live = Some(Some("table inet vpsguard {}\n".to_string()));
    let plan = FirewallModule.apply(&fw, 22, &live, false, "/").unwrap();
    let snapshot = match &plan.steps[0] {
        Step::Write { path, body } => {
            assert_eq!(path, "/etc/vpsguard/firewall.backup.nft");
            body.clone()
        }
        other => panic!("{other:?}"),
    };
    assert_eq!(snapshot, "delete table inet vpsguard\ntable inet vpsguard {}\n");
    let back = FirewallModule.rollback(&Some(snapshot), "/").unwrap();
    assert_eq!(
        lines(&back),
        vec![
            "write /etc/vpsguard/firewall.staged.nft",
            "nft -f /etc/vpsguard/firewall.staged.nft",
            "remove /etc/vpsguard/firewall.backup.nft"
        ]
    );
    let none = FirewallModule.rollback(&None, "/").unwrap_err();
    assert_eq!(none.message(), "module `firewall`: no snapshot to roll back to");
}

#[test]
fn caddy_rollback_restores_previous_caddyfile() {
    let cfg = CaddyConfig {
        enabled: true,
        sites: vec![CaddySite {
            domain: "example.com".into(),
            reverse_proxy: Some("localhost:8080".into()),
            root: None,
        }],
    };
    let old = "old.com {\n}\n";
    let plan = CaddyModule.apply(&cfg, &debian(), true, old, true, old, false);
    assert!(plan
        .steps
        .iter()
        .any(|s| matches!(s, Step::Write { path, body } if path == "/etc/caddy/Caddyfile.vpsguard.bak" && body == old)));
    let back = CaddyModule.rollback(&Some(old.to_string()));
    assert!(matches!(&back[0], Step::Write { path, body } if path == "/etc/caddy/Caddyfile" && body == old));
    assert!(CaddyModule.rollback(&None).is_empty());
}

#[test]
fn system_rollback_restores_hostname() {
    let cfg = SystemConfig {
        hostname: Some("my-vps".into()),
        timezone: None,
        swap_mb: None,
    };
    let st = SystemState {
        hostname_file: "old-host\n".into(),
        timezone_output: None,
        swaps: String::new(),
        fstab: String::new(),
    };
    let plan = SystemModule.apply(&cfg, &st, false);
    assert!(matches!(&plan.steps[0], Step::Write { path, body } if path == "/etc/gli/system.hostname.bak" && body == "old-host"));
    let back = SystemModule.rollback(&Some("old-host".into()), &None, &None, "");
    assert_eq!(
        lines(&back),
        vec!["hostnamectl set-hostname old-host", "remove /etc/gli/system.hostname.bak"]
    );
}

#[test]
fn compliant_modules_apply_nothing() {
    let cfg = DockerConfig {
        enabled: true,
        users: vec!["deploy".into()],
    };
    let members = vec![GroupMember {
        user: "deploy".into(),
        in_group: true,
    }];
    assert_eq!(DockerModule.check(&cfg, &debian(), true, true, &members).state, State::Compliant);
    let plan = DockerModule.apply(&cfg, &debian(), true, true, &members, false);
    assert!(plan.steps.is_empty());
    assert!(plan.report.applied.is_empty());
    let redis = RedisConfig { enabled: true };
    assert_eq!(RedisModule.check(&redis, &debian(), true, true).state, State::Compliant);
    assert!(RedisModule.apply(&redis, &debian(), true, true, false).steps.is_empty());
}

#[test]
fn fail2ban_debian_installs_configures_and_enables() {
    let cfg = Fail2banConfig {
        enabled: true,
        jails: vec!["sshd".into()],
        bantime: Some("10m".into()),
        maxretry: Some(5),
    };
    let st = Fail2banState {
        installed: false,
        jail_file: String::new(),
        service_enabled: false,
    };
    let plan = Fail2banModule.apply(&cfg, 22, &debian(), &st, false);
    assert!(!plan.report.is_noop());
    let body = plan.steps.iter().find_map(|s| match s {
        Step::Write { path, body } if path == "/etc/fail2ban/jail.d/vpsguard.local" => Some(body.clone()),
        _ => None,
    });
    let body = body.unwrap();
    assert!(body.contains("[sshd]"));
    assert!(body.contains("port = 22"));
    assert!(body.contains("bantime = 10m"));
    let l = lines(&plan.steps);
    assert!(l.contains(&"apt-get install -y fail2ban".to_string()));
    assert!(l.iter().any(|c| c.contains("systemctl enable --now fail2ban")));
    let dry = Fail2banModule.apply(&cfg, 22, &debian(), &st, true);
    assert!(dry.report.dry_run);
    assert!(dry.steps.is_empty());
    let unknown = Fail2banModule.check(&cfg, 22, &Platform::default(), &st);
    assert_eq!(unknown.state, State::NotApplicable);
}

fn app_cfg(framework: Framework, runtime: AppRuntime, repo: Option<&str>) -> AppConfig {
    AppConfig {
        enabled: true,
        framework,
        runtime,
        repo: repo.map(|r| r.to_string()),
        dir: Some("/srv/app".into()),
        ..AppConfig::default()
    }
}

#[test]
fn app_docker_runtime_requires_compose_file_then_composes_up() {
    let app = app_cfg(Framework::Django, AppRuntime::Docker, Some("https://example.com/me/app.git"));
    let plan = AppModule.apply(&app, &Ok(true), &None, false).unwrap();
    assert!(!plan.report.is_noop());
    let l = lines(&plan.steps);
    assert!(l.contains(&"docker compose --project-directory /srv/app up -d".to_string()));
    let require = plan
        .steps
        .iter()
        .find(|s| matches!(s, Step::Require { .. }))
        .unwrap();
    match verdict(require, Outcome::Absent) {
        Flow::Abort(e) => assert!(e.message().contains("no docker compose file")),
        other => panic!("{other:?}"),
    }
}

#[test]
fn app_errors_and_special_cases() {
    let native = app_cfg(Framework::Django, AppRuntime::Native, Some("https://example.com/me/app.git"));
    let err = AppModule.apply(&native, &Ok(false), &None, false).unwrap_err();
    assert!(err.message().contains("native runtime not yet implemented"));

    let no_repo = app_cfg(Framework::Django, AppRuntime::Docker, None);
    let err = AppModule.apply(&no_repo, &Ok(false), &None, false).unwrap_err();
    assert!(err.message().contains("no app.repo set"));

    let wp = app_cfg(Framework::Wordpress, AppRuntime::Docker, None);
    let plan = AppModule.apply(&wp, &Ok(false), &None, false).unwrap();
    let body = plan.steps.iter().find_map(|s| match s {
        Step::Write { path, body } if path == "/srv/app/compose.yaml" => Some(body.clone()),
        _ => None,
    });
    let body = body.unwrap();
    assert!(body.contains("wordpress:latest"));
    assert!(body.contains("mariadb"));
    let l = lines(&plan.steps);
    assert!(l.iter().any(|c| c.contains("compose") && c.contains("up -d")));
    assert!(l.iter().all(|c| !c.contains("git clone")));

    let site = app_cfg(Framework::Static, AppRuntime::Native, Some("https://example.com/me/site.git"));
    let plan = AppModule.apply(&site, &Ok(false), &None, false).unwrap();
    let l = lines(&plan.steps);
    assert!(l.iter().any(|c| c.starts_with("git clone")));
    assert!(l.iter().all(|c| !c.contains("compose")));

    let docker = app_cfg(Framework::Django, AppRuntime::Docker, Some("https://example.com/me/app.git"));
    let dry = AppModule.apply(&docker, &Ok(false), &None, true).unwrap();
    assert!(dry.report.dry_run);
    assert!(dry.steps.is_empty());
    let off = AppConfig::default();
    assert_eq!(AppModule.check(&off, &Ok(false), &None).state, State::NotApplicable);
}

#[test]
fn caddy_installs_writes_caddyfile_and_reloads() {
    let cfg = CaddyConfig {
        enabled: true,
        sites: vec![CaddySite {
            domain: "example.com".into(),
            reverse_proxy: Some("localhost:8080".into()),
            root: None,
        }],
    };
    let install = CaddyModule.install_steps(&cfg, &debian(), false, "", false, false);
    assert!(lines(&install).contains(&"apt-get install -y caddy".to_string()));
    let plan = CaddyModule.apply(&cfg, &debian(), false, "", false, "", false);
    let body = plan.steps.iter().find_map(|s| match s {
        Step::Write { path, body } if path == "/etc/caddy/Caddyfile" => Some(body.clone()),
        _ => None,
    });
    let body = body.unwrap();
    assert!(body.contains("example.com {"));
    assert!(body.contains("reverse_proxy localhost:8080"));
    let l = lines(&plan.steps);
    assert!(l.contains(&"systemctl enable --now caddy".to_string()));
    let empty = CaddyConfig {
        enabled: true,
        sites: vec![],
    };
    assert_eq!(CaddyModule.check(&empty, &debian(), false, "", false).state, State::NotApplicable);
    assert!(CaddyModule.apply(&cfg, &debian(), false, "", false, "", true).steps.is_empty());
    assert!(CaddyModule.install_steps(&cfg, &debian(), false, "", false, true).is_empty());
}

#[test]
fn caddy_snapshots_the_caddyfile_read_after_install() {
    let cfg = CaddyConfig {
        enabled: true,
        sites: vec![CaddySite {
            domain: "example.com".into(),
            reverse_proxy: Some("localhost:8080".into()),
            root: None,
        }],
    };
    // Fresh host: nothing installed, no Caddyfile; the package then ships a
    // default file, which is what apply must back up.
    let shipped = ":80 {\n\troot * /usr/share/caddy\n\tfile_server\n}\n";
    let plan = CaddyModule.apply(&cfg, &debian(), false, "", false, shipped, false);
    assert!(matches!(&plan.steps[0], Step::Write { path, body }
        if path == "/etc/caddy/Caddyfile.vpsguard.bak" && body == shipped));
    // A Caddyfile that already matches after install is left alone.
    let want = "example.com {\n\treverse_proxy localhost:8080\n}\n";
    let plan = CaddyModule.apply(&cfg, &debian(), false, "", false, want, false);
    assert!(plan.steps.iter().all(|s| !matches!(s, Step::Write { .. })));
}

#[test]
fn updates_rhel_installs_writes_conf_and_enables_timer() {
    let cfg = UpdatesConfig {
        enabled: true,
        auto_reboot: Some("02:00".into()),
    };
    let st = UpdatesState {
        installed: false,
        apt_periodic: String::new(),
        apt_reboot: None,
        dnf_conf: String::new(),
        timer_enabled: false,
    };
    let rhel = Platform {
        family: DistroFamily::Rhel,
        id: "rocky".into(),
    };
    assert_eq!(
        lines(&UpdatesModule.install_steps(&cfg, &rhel, &st, false)),
        vec!["dnf install -y dnf-automatic"]
    );
    let plan = UpdatesModule.apply(&cfg, &rhel, &st, &st, false);
    let body = plan.steps.iter().find_map(|s| match s {
        Step::Write { path, body } if path == "/etc/dnf/automatic.conf" => Some(body.clone()),
        _ => None,
    });
    let body = body.unwrap();
    assert!(body.contains("apply_updates = yes"));
    assert!(body.contains("reboot = when-needed"));
    let l = lines(&plan.steps);
    assert!(l.contains(&"systemctl enable --now dnf-automatic.timer".to_string()));
    let arch = Platform::of(DistroFamily::Arch);
    assert_eq!(UpdatesModule.check(&cfg, &arch, &st).state, State::NotApplicable);
}

#[test]
fn firewall_apply_stages_validates_and_snapshots() {
    let fw = FirewallConfig {
        allow: vec!["80/tcp".into()],
        ..FirewallConfig::default()
    };
    let plan = FirewallModule.apply(&fw, 22, &Some(None), false, "/").unwrap();
    let script = plan.steps.iter().find_map(|s| match s {
        Step::Write { path, body } if path == "/etc/vpsguard/firewall.staged.nft" => Some(body.clone()),
        _ => None,
    });
    let script = script.unwrap();
    assert!(script.contains("policy drop"));
    assert!(script.contains("tcp dport 80 accept"));
    assert!(script.contains("tcp dport 22 accept"));
    assert!(script.contains("vpsguard:"));
    let l = lines(&plan.steps);
    assert!(l.iter().any(|c| c.starts_with("nft -c -f")));
    assert!(l.iter().any(|c| c.starts_with("nft -f")));
    assert!(matches!(&plan.steps[0], Step::Write { path, body } if path == "/etc/vpsguard/firewall.backup.nft" && body == "delete table inet vpsguard\n"));
    let dry = FirewallModule.apply(&fw, 22, &Some(None), true, "/").unwrap();
    assert!(dry.steps.is_empty());
    let off = FirewallConfig {
        enabled: false,
        ..fw.clone()
    };
    assert_eq!(FirewallModule.check(&off, 22, &None).unwrap().state, State::NotApplicable);
    assert!(FirewallModule.apply(&fw, 22, &None, false, "/").is_err());
}

#[test]
fn monitoring_netdata_and_node_exporter() {
    use_monitoring();
}

fn use_monitoring() {
    let netdata = vpsguard::config::MonitoringConfig {
        enabled: true,
        backend: vpsguard::config::MonitoringBackend::Netdata,
    };
    let plan = vpsguard::monitoring::MonitoringModule.apply(&netdata, &debian(), false, false, false);
    let l = lines(&plan.steps);
    assert!(l.iter().any(|c| c.contains("kickstart")));
    assert!(l.contains(&"systemctl enable --now netdata".to_string()));
    let ne = vpsguard::config::MonitoringConfig {
        enabled: true,
        backend: vpsguard::config::MonitoringBackend::NodeExporter,
    };
    let l = lines(&vpsguard::monitoring::MonitoringModule.apply(&ne, &debian(), false, false, false).steps);
    assert!(l.contains(&"apt-get install -y prometheus-node-exporter".to_string()));
    assert!(l.contains(&"systemctl enable --now prometheus-node-exporter".to_string()));
    let st = vpsguard::monitoring::MonitoringModule.check(&ne, &Platform::default(), false, false);
    assert_eq!(st.state, State::NotApplicable);
}

#[test]
fn redis_dry_run_writes_nothing() {
    let cfg = RedisConfig { enabled: true };
    let plan = RedisModule.apply(&cfg, &debian(), false, false, true);
    assert!(plan.report.dry_run);
    assert!(plan.steps.is_empty());
    assert!(plan.report.skipped.iter().any(|c| c.summary.contains("install")));
}

#[test]
fn users_rollback_revokes_the_sudo_grant() {
    let u = ObservedUser {
        name: "deploy".into(),
        spec: UserConfig {
            sudo: true,
            ssh_keys: vec![],
        },
        authorized_keys: String::new(),
        sudoers: None,
    };
    let plan = UsersModule.apply("deploy:x:1000:1000::/home/deploy:/bin/bash\n", &vec![u], false, "/");
    assert!(plan.steps.iter().any(|s| matches!(s, Step::Write { path, body }
        if path == "/etc/sudoers.d/gli-deploy" && body == "deploy ALL=(ALL:ALL) ALL\n")));
    let back = UsersModule.rollback(&vec!["deploy".to_string()]);
    assert_eq!(lines(&back), vec!["remove /etc/sudoers.d/gli-deploy"]);
    let gone = UsersModule.uninstall(&vec!["deploy".to_string()], true);
    assert_eq!(
        lines(&gone.steps),
        vec!["remove /etc/sudoers.d/gli-deploy", "userdel -r deploy"]
    );
}

#[test]
fn users_compliant_when_already_set_up() {
    let u = ObservedUser {
        name: "deploy".into(),
        spec: UserConfig {
            sudo: true,
            ssh_keys: vec!["ssh-ed25519 AAAAkey deploy@host".into()],
        },
        authorized_keys: "ssh-ed25519 AAAAkey deploy@host\n".into(),
        sudoers: Some("deploy ALL=(ALL:ALL) ALL\n".into()),
    };
    let passwd = "root:x:0:0::/root:/bin/bash\ndeploy:x:1000:1000::/home/deploy:/bin/bash\n";
    assert_eq!(UsersModule.check(passwd, &vec![u.clone()]).state, State::Compliant);
    let plan = UsersModule.apply(passwd, &vec![u], false, "/");
    assert!(plan.report.is_noop());
    assert!(plan.steps.is_empty());
}

/// The files once every step has run and succeeded.
fn run_on_files(files: &mut std::collections::BTreeMap<String, String>, steps: &[Step]) {
    for s in steps {
        match s {
            Step::Write { path, body } | Step::WriteQuiet { path, body } => {
                files.insert(path.clone(), body.clone());
            }
            Step::Remove { path } | Step::RemoveQuiet { path } => {
                files.remove(path);
            }
            Step::Rename { from, to } => {
                if let Some(b) = files.remove(from) {
                    files.insert(to.clone(), b);
                }
            }
            _ => {}
        }
    }
}

#[test]
fn rollback_restores_snapshot() {
    let cfg = SshConfig {
        port: 2222,
        permit_root_login: false,
        password_auth: false,
        modern_ciphers: false,
    };
    let before = "Port 22\nPermitRootLogin yes\n".to_string();
    let mut files = std::collections::BTreeMap::new();
    files.insert("/etc/ssh/sshd_config".to_string(), before.clone());
    let plan = SshModule.apply(&cfg, &Some(before.clone()), false, &debian(), "/").unwrap();
    run_on_files(&mut files, &plan.steps);
    assert_ne!(files["/etc/ssh/sshd_config"], before);
    let saved = files.get("/etc/ssh/sshd_config.vpsguard.bak").cloned();
    let back = SshModule.rollback(&saved, &debian()).unwrap();
    run_on_files(&mut files, &back);
    assert_eq!(files["/etc/ssh/sshd_config"], before);
    assert!(!files.contains_key("/etc/ssh/sshd_config.vpsguard.bak"));
}
