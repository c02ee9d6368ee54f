use vpsguard::inventory::{Inventory, Server};

fn server(host: &str, port: u16, user: &str, tags: &[&str]) -> Server {
    Server {
        host: host.to_string(),
        port,
        user: user.to_string(),
        tags: tags.iter().map(|t| t.to_string()).collect(),
    }
}

// The sample inventory: web1 (deploy, web+prod), web2 (port 2222, web),
// db1 (db+prod), in name order; unset fields take the defaults.
fn sample() -> Inventory {
    Inventory {
        servers: vec![
            ("db1".to_string(), server("10.0.0.3", 22, "root", &["db", "prod"])),
            ("web1".to_string(), server("10.0.0.1", 22, "deploy", &["web", "prod"])),
            ("web2".to_string(), server("10.0.0.2", 2222, "root", &["web"])),
        ],
    }
}

#[test]
fn selects_by_name() {
    let inv = sample();
    let sel = inv.select("web1");
    assert_eq!(sel.len(), 1);
    assert_eq!(sel[0].0, "web1");
}

#[test]
fn selects_by_tag() {
    let inv = sample();
    let web: Vec<&str> = inv.select("web").into_iter().map(|(n, _)| n).collect();
    assert_eq!(web, vec!["web1", "web2"]);
    let prod: Vec<&str> = inv.select("prod").into_iter().map(|(n, _)| n).collect();
    assert_eq!(prod, vec!["db1", "web1"]);
}

#[test]
fn unknown_selector_is_empty() {
    let inv = sample();
    assert!(inv.select("nope").is_empty());
}

#[test]
fn server_defaults() {
    let s = Server::default();
    assert_eq!(s.port, 22);
    assert_eq!(s.user, "root");
    assert!(s.host.is_empty());
    assert!(s.tags.is_empty());
}

#[test]
fn name_wins_over_tag() {
    let inv = Inventory {
        servers: vec![
            ("a".to_string(), server("h1", 22, "root", &["web"])),
            ("web".to_string(), server("h2", 22, "root", &[])),
        ],
    };
    let sel = inv.select("web");
    assert_eq!(sel.len(), 1);
    assert_eq!(sel[0].1.host, "h2");
}
