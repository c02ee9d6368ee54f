use vpsguard::caddy::{caddyfile, install_plan};
use vpsguard::config::CaddySite;
use vpsguard::platform::{DistroFamily, Platform};

fn proxy(domain: &str, up: &str) -> CaddySite {
    CaddySite {
        domain: domain.into(),
        reverse_proxy: Some(up.into()),
        root: None,
    }
}

#[test]
fn reverse_proxy_block() {
    let c = caddyfile(&[proxy("example.com", "localhost:8080")]);
    assert!(c.contains("example.com {"));
    assert!(c.contains("reverse_proxy localhost:8080"));
}

#[test]
fn static_site_block() {
    let site = CaddySite {
        domain: "static.example.com".into(),
        reverse_proxy: None,
        root: Some("/var/www/site".into()),
    };
    let c = caddyfile(&[site]);
    assert!(c.contains("root * /var/www/site"));
    assert!(c.contains("file_server"));
}

#[test]
fn multiple_sites_each_get_a_block() {
    let c = caddyfile(&[proxy("a.com", "localhost:1"), proxy("b.com", "localhost:2")]);
    assert_eq!(c.matches('{').count(), 2);
    assert!(c.contains("a.com {"));
    assert!(c.contains("b.com {"));
}

#[test]
fn debian_uses_caddy_apt_repo() {
    let p = Platform {
        family: DistroFamily::Debian,
        id: "debian".into(),
    };
    let steps = install_plan(&p).unwrap();
    assert!(steps
        .iter()
        .any(|(_, a)| a.iter().any(|x| x.contains("cloudsmith"))));
    assert!(steps.last().unwrap().1.contains(&"caddy"));
}

#[test]
fn rocky_uses_copr() {
    let p = Platform {
        family: DistroFamily::Rhel,
        id: "rocky".into(),
    };
    let steps = install_plan(&p).unwrap();
    assert!(steps.iter().any(|(_, a)| a.contains(&"copr")));
}

#[test]
fn caddy_unknown_distro_has_no_plan() {
    let p = Platform {
        family: DistroFamily::Unknown,
        id: String::new(),
    };
    assert!(install_plan(&p).is_none());
}

#[test]
fn caddyfile_exact_proxy_block() {
    let c = caddyfile(&[proxy("example.com", "localhost:8080")]);
    assert_eq!(c, "example.com {\n\treverse_proxy localhost:8080\n}\n");
}

#[test]
fn caddyfile_of_no_sites_is_empty() {
    assert_eq!(caddyfile(&[]), "");
}

#[test]
fn every_known_family_has_a_plan_that_installs_caddy() {
    for (family, id) in [
        (DistroFamily::Debian, "debian"),
        (DistroFamily::Rhel, "fedora"),
        (DistroFamily::Rhel, "rocky"),
        (DistroFamily::Arch, "arch"),
        (DistroFamily::Suse, "opensuse-leap"),
    ] {
        let plan = install_plan(&Platform { family, id: id.into() }).unwrap();
        assert!(plan.last().unwrap().1.contains(&"caddy"));
    }
    let unknown = Platform {
        family: DistroFamily::Unknown,
        id: "plan9".into(),
    };
    assert!(install_plan(&unknown).is_none());
}
