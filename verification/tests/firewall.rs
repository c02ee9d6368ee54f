use vpsguard::config::{FirewallConfig, Policy};
use vpsguard::firewall::{hash_config, marker, parse_rule, plan_ruleset, AllowRule, Proto};

fn rule(s: &str) -> AllowRule {
    parse_rule(s).unwrap()
}

#[test]
fn parses_simple_rule() {
    assert_eq!(
        rule("80/tcp"),
        AllowRule {
            proto: Proto::Tcp,
            port: 80,
            from: None
        }
    );
}

#[test]
fn parses_rule_with_source() {
    let r = rule("22/tcp from 10.0.0.0/8");
    assert_eq!(r.port, 22);
    assert_eq!(r.from.as_deref(), Some("10.0.0.0/8"));
    assert_eq!(r.to_nft(), "ip saddr 10.0.0.0/8 tcp dport 22 accept");
}

#[test]
fn ipv6_source_uses_ip6() {
    let r = rule("443/tcp from 2001:db8::/32");
    assert!(r.to_nft().starts_with("ip6 saddr 2001:db8::/32"));
}

#[test]
fn rejects_bad_proto_and_port() {
    assert!(parse_rule("80/sctp").is_err());
    assert!(parse_rule("notaport/tcp").is_err());
    assert!(parse_rule("80").is_err());
}

#[test]
fn hash_is_order_independent() {
    let a = vec![rule("80/tcp"), rule("443/tcp")];
    let b = vec![rule("443/tcp"), rule("80/tcp")];
    assert_eq!(hash_config("drop", 22, &a), hash_config("drop", 22, &b));
}

#[test]
fn hash_changes_with_policy_and_port() {
    let r = vec![rule("80/tcp")];
    assert_ne!(hash_config("drop", 22, &r), hash_config("accept", 22, &r));
    assert_ne!(hash_config("drop", 22, &r), hash_config("drop", 2222, &r));
}

#[test]
fn udp_rule_without_source() {
    let r = rule(" 53/udp ");
    assert_eq!(r.proto, Proto::Udp);
    assert_eq!(r.to_nft(), "udp dport 53 accept");
    assert_eq!(r.describe(), "allow 53/udp");
}

#[test]
fn bad_rule_error_names_the_rule() {
    let e = parse_rule("80/sctp").unwrap_err();
    assert!(e.message().starts_with("config error: "));
    assert!(e.message().contains("80/sctp"));
}

#[test]
fn hash_is_sixteen_hex_digits() {
    let h = hash_config("drop", 22, &vec![]);
    assert_eq!(h.len(), 16);
    assert!(h.chars().all(|c| c.is_ascii_hexdigit() && !c.is_ascii_uppercase()));
    assert_eq!(marker(&h), format!("comment \"vpsguard:{}\"", h));
}

#[test]
fn ruleset_keeps_ssh_and_policy() {
    let fw = FirewallConfig {
        allow: vec!["80/tcp".to_string()],
        ..FirewallConfig::default()
    };
    let rs = plan_ruleset(&fw, 22).unwrap();
    assert!(rs.script.contains("policy drop"));
    assert!(rs.script.contains("tcp dport 80 accept"));
    assert!(rs.script.contains("tcp dport 22 accept"));
    assert!(rs.script.contains(&format!("vpsguard:{}", rs.hash)));
    let open = FirewallConfig {
        default: Policy::Allow,
        ..FirewallConfig::default()
    };
    assert!(plan_ruleset(&open, 22).unwrap().script.contains("policy accept"));
}

#[test]
fn ruleset_rejects_a_bad_rule() {
    let fw = FirewallConfig {
        allow: vec!["80/tcp".to_string(), "oops".to_string()],
        ..FirewallConfig::default()
    };
    assert!(plan_ruleset(&fw, 22).is_err());
}

#[test]
fn parse_accepts_padding_and_any_case_and_refuses_with_config_errors() {
    let r = rule("  443 / UDP  from 192.168.0.0/16 ");
    assert_eq!(r.port, 443);
    assert_eq!(r.proto, Proto::Udp);
    assert_eq!(r.from.as_deref(), Some("192.168.0.0/16"));
    for bad in ["65536/tcp", "80/sctp", "/tcp", "80", "80/tcp/x"] {
        assert!(matches!(parse_rule(bad), Err(vpsguard::types::Error::Config(_))));
    }
}
