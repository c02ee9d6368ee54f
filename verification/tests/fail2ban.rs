use vpsguard::config::Fail2banConfig;
use vpsguard::fail2ban::{jail_config, PackageOps};
use vpsguard::platform::{DistroFamily, Platform};

fn cfg() -> Fail2banConfig {
    Fail2banConfig {
        enabled: true,
        jails: vec!["sshd".into()],
        bantime: Some("10m".into()),
        maxretry: Some(5),
    }
}

#[test]
fn sshd_jail_tracks_port() {
    let c = jail_config(&cfg(), 2222);
    assert!(c.contains("[sshd]"));
    assert!(c.contains("enabled = true"));
    assert!(c.contains("port = 2222"));
}

#[test]
fn defaults_embed_bantime_and_maxretry() {
    let c = jail_config(&cfg(), 22);
    assert!(c.contains("bantime = 10m"));
    assert!(c.contains("maxretry = 5"));
}

#[test]
fn omits_unset_defaults() {
    let bare = Fail2banConfig {
        enabled: true,
        jails: vec!["sshd".into()],
        bantime: None,
        maxretry: None,
    };
    let c = jail_config(&bare, 22);
    assert!(!c.contains("bantime"));
    assert!(!c.contains("maxretry"));
}

#[test]
fn non_sshd_jail_has_no_port() {
    let c = jail_config(
        &Fail2banConfig {
            enabled: true,
            jails: vec!["nginx-http-auth".into()],
            bantime: None,
            maxretry: None,
        },
        22,
    );
    assert!(c.contains("[nginx-http-auth]"));
    assert!(!c.contains("port ="));
}

#[test]
fn jail_config_exact_text() {
    let c = jail_config(&cfg(), 2222);
    assert_eq!(
        c,
        "[DEFAULT]\nbantime = 10m\nmaxretry = 5\n\n[sshd]\nenabled = true\nport = 2222\n"
    );
}

#[test]
fn package_ops_exist_only_for_known_families() {
    for f in [DistroFamily::Debian, DistroFamily::Rhel, DistroFamily::Arch, DistroFamily::Suse] {
        assert!(PackageOps::for_host(&Platform::of(f)).is_some());
    }
    assert!(PackageOps::for_host(&Platform::of(DistroFamily::Unknown)).is_none());
}
