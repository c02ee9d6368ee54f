use vpsguard::config::{AppConfig, AppDatabase, CaddySite, Config, Framework, Policy};
use vpsguard::config::default_port;
use vpsguard::merge::{deep_merge, Tree};
use vpsguard::recipes::{names, preset, recipe_base};

fn wired(app: AppConfig) -> Config {
    let mut c = Config {
        app,
        ..Config::default()
    };
    c.wire();
    c
}

#[test]
fn default_ports_per_framework() {
    assert_eq!(default_port(Framework::Node), 3000);
    assert_eq!(default_port(Framework::Django), 8000);
    assert_eq!(default_port(Framework::Php), 8080);
}

#[test]
fn app_domain_wires_a_caddy_site() {
    // [app] enabled = true, domain = "example.com", port = 3000
    let c = wired(AppConfig {
        enabled: true,
        domain: Some("example.com".into()),
        port: Some(3000),
        ..AppConfig::default()
    });
    assert!(c.caddy.enabled);
    let site = c
        .caddy
        .sites
        .iter()
        .find(|s| s.domain == "example.com")
        .unwrap();
    assert_eq!(site.reverse_proxy.as_deref(), Some("localhost:3000"));
}

#[test]
fn app_static_wires_a_file_server_site() {
    // [app] enabled = true, framework = "static", domain = "s.example.com", dir = "/srv/site"
    let c = wired(AppConfig {
        enabled: true,
        framework: Framework::Static,
        domain: Some("s.example.com".into()),
        dir: Some("/srv/site".into()),
        ..AppConfig::default()
    });
    let site = c
        .caddy
        .sites
        .iter()
        .find(|s| s.domain == "s.example.com")
        .unwrap();
    assert_eq!(site.root.as_deref(), Some("/srv/site"));
    assert!(site.reverse_proxy.is_none());
}

#[test]
fn app_database_enables_the_db_module() {
    let pg = wired(AppConfig {
        enabled: true,
        database: AppDatabase::Postgres,
        ..AppConfig::default()
    });
    assert!(pg.postgres.enabled);
    let rd = wired(AppConfig {
        enabled: true,
        database: AppDatabase::Redis,
        ..AppConfig::default()
    });
    assert!(rd.redis.enabled);
}

#[test]
fn wiring_skipped_when_app_disabled() {
    let c = wired(AppConfig {
        enabled: false,
        domain: Some("x.com".into()),
        ..AppConfig::default()
    });
    assert!(!c.caddy.enabled);
}

#[test]
fn wiring_uses_framework_default_port() {
    let c = wired(AppConfig {
        enabled: true,
        framework: Framework::Django,
        domain: Some("d.com".into()),
        ..AppConfig::default()
    });
    assert_eq!(c.caddy.sites.len(), 1);
    assert_eq!(c.caddy.sites[0].reverse_proxy.as_deref(), Some("localhost:8000"));
}

#[test]
fn wiring_keeps_an_existing_site_for_the_domain() {
    let mut c = Config {
        app: AppConfig {
            enabled: true,
            domain: Some("example.com".into()),
            ..AppConfig::default()
        },
        ..Config::default()
    };
    c.caddy.sites.push(CaddySite {
        domain: "example.com".into(),
        reverse_proxy: Some("localhost:9999".into()),
        root: None,
    });
    c.wire();
    c.wire();
    assert_eq!(c.caddy.sites.len(), 1);
    assert_eq!(c.caddy.sites[0].reverse_proxy.as_deref(), Some("localhost:9999"));
}

#[test]
fn unknown_recipe_base_errors() {
    let err = recipe_base("nope").unwrap_err();
    assert!(err.message().contains("unknown recipe"));
}

#[test]
fn unknown_recipe_lists_the_builtins() {
    let err = recipe_base("nope").unwrap_err();
    assert_eq!(
        err.message(),
        "config error: unknown recipe `nope`; available: baseline, web-server, docker-host, wordpress"
    );
    assert_eq!(names(), vec!["baseline", "web-server", "docker-host", "wordpress"]);
}

#[test]
fn presets_carry_their_settings() {
    assert!(recipe_base("web-server").unwrap().contains("allow = [\"80/tcp\", \"443/tcp\"]"));
    assert!(preset("docker-host").unwrap().contains("[docker]\nenabled = true"));
    assert!(preset("nope").is_none());
}

fn table(entries: Vec<(&str, Tree<String>)>) -> Tree<String> {
    Tree::Table(entries.into_iter().map(|(k, v)| (k.to_string(), v)).collect())
}

fn leaf(s: &str) -> Tree<String> {
    Tree::Leaf(s.to_string())
}

fn get<'a>(t: &'a Tree<String>, k: &str) -> Option<&'a Tree<String>> {
    match t {
        Tree::Table(es) => es.iter().find(|(n, _)| n == k).map(|(_, v)| v),
        Tree::Leaf(_) => None,
    }
}

fn leaf_of(t: Option<&Tree<String>>) -> Option<&str> {
    match t {
        Some(Tree::Leaf(s)) => Some(s.as_str()),
        _ => None,
    }
}

fn web_server() -> Tree<String> {
    table(vec![
        ("profile", leaf("balanced")),
        ("firewall", table(vec![("allow", leaf("[\"80/tcp\", \"443/tcp\"]"))])),
        ("fail2ban", table(vec![("jails", leaf("[\"sshd\"]"))])),
    ])
}

#[test]
fn merged_user_list_replaces_the_preset_list() {
    // recipe = "web-server", [firewall] allow = ["8080/tcp"]
    let user = table(vec![
        ("recipe", leaf("web-server")),
        ("firewall", table(vec![("allow", leaf("[\"8080/tcp\"]"))])),
    ]);
    let merged = deep_merge(web_server(), user);
    let fw = get(&merged, "firewall");
    assert_eq!(leaf_of(fw.and_then(|f| get(f, "allow"))), Some("[\"8080/tcp\"]"));
    assert_eq!(leaf_of(get(&merged, "profile")), Some("balanced"));
    assert_eq!(Config::default().firewall.default, Policy::Deny);
}

#[test]
fn merged_user_scalar_keeps_preset_siblings() {
    // recipe = "web-server", [ssh] port = 2222
    let user = table(vec![
        ("recipe", leaf("web-server")),
        ("ssh", table(vec![("port", leaf("2222"))])),
    ]);
    let merged = deep_merge(web_server(), user);
    assert_eq!(leaf_of(get(&merged, "ssh").and_then(|s| get(s, "port"))), Some("2222"));
    assert_eq!(
        leaf_of(get(&merged, "firewall").and_then(|f| get(f, "allow"))),
        Some("[\"80/tcp\", \"443/tcp\"]")
    );
    assert_eq!(leaf_of(get(&merged, "fail2ban").and_then(|f| get(f, "jails"))), Some("[\"sshd\"]"));
}

#[test]
fn merge_order_base_keys_first_then_new_user_keys() {
    let base = table(vec![("a", leaf("1")), ("b", leaf("2"))]);
    let over = table(vec![("c", leaf("3")), ("a", leaf("9"))]);
    match deep_merge(base, over) {
        Tree::Table(es) => {
            let keys: Vec<&str> = es.iter().map(|(k, _)| k.as_str()).collect();
            assert_eq!(keys, vec!["a", "b", "c"]);
            assert_eq!(leaf_of(Some(&es[0].1)), Some("9"));
        }
        Tree::Leaf(_) => panic!("expected a table"),
    }
}

#[test]
fn leaf_over_table_replaces_it() {
    let base = table(vec![("ssh", table(vec![("port", leaf("22"))]))]);
    let over = table(vec![("ssh", leaf("off"))]);
    let merged = deep_merge(base, over);
    assert_eq!(leaf_of(get(&merged, "ssh")), Some("off"));
}

#[test]
fn a_preset_exists_for_each_listed_name_only() {
    for name in names() {
        assert!(preset(name).is_some());
    }
    assert!(preset("nope").is_none());
    assert!(preset("Baseline").is_none());
}
