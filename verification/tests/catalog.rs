use vpsguard::catalog::{all, ModuleCatalog, ModuleId};
use vpsguard::render::{module_plan, strip_arrow, summary};
use vpsguard::types::{Category, Change, Status};

#[test]
fn catalog_orders_security_first_and_finds_by_name() {
    let cat = ModuleCatalog::new(all());
    assert_eq!(cat.len(), 13);
    assert!(!cat.is_empty());
    let ids = cat.iter();
    let ranks: Vec<u8> = ids.iter().map(|m| m.category().rank()).collect();
    let mut sorted = ranks.clone();
    sorted.sort();
    assert_eq!(ranks, sorted);
    assert_eq!(ids[0], ModuleId::Ssh);
    assert_eq!(cat.get("firewall"), Some(ModuleId::Firewall));
    assert_eq!(cat.get("nope"), None);
    assert_eq!(
        cat.by_category(Category::Network),
        vec![ModuleId::Caddy, ModuleId::Tailscale]
    );
}

#[test]
fn only_ssh_and_firewall_are_lockout_risky() {
    for m in all() {
        assert_eq!(
            m.lockout_risk(),
            m == ModuleId::Ssh || m == ModuleId::Firewall,
            "{}",
            m.name()
        );
    }
}

#[test]
fn plan_rendering() {
    assert_eq!(strip_arrow("Port: 22 -> 2222"), "Port");
    assert_eq!(strip_arrow("install docker"), "install docker");
    let changes = vec![
        Change::modify("Port: 22 -> 2222", "22", "2222"),
        Change::command("restart ssh"),
    ];
    assert_eq!(
        module_plan("ssh", "OpenSSH hardening", &Status::drift("Port"), &changes),
        vec![
            "[~] ssh (OpenSSH hardening)",
            "    ~ Port: 22 -> 2222",
            "    + restart ssh"
        ]
    );
    assert_eq!(
        module_plan("ssh", "s", &Status::compliant(), &vec![]),
        vec!["[ok] ssh (s)", "    compliant"]
    );
    assert_eq!(
        module_plan("docker", "d", &Status::not_applicable("disabled"), &vec![]),
        vec!["[-] docker (d)", "    n/a: disabled"]
    );
    assert_eq!(summary(0), vec!["", "Nothing to do; system matches config."]);
    assert_eq!(summary(1), vec!["", "1 change pending. Run `vpsguard apply` to converge."]);
    assert_eq!(summary(12), vec!["", "12 changes pending. Run `vpsguard apply` to converge."]);
}
