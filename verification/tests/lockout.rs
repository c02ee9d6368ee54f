use vpsguard::catalog::{all, ModuleCatalog, ModuleId};
use vpsguard::lockout::{guard_args, guard_tick, is_confirmation, risky_notice, rollback_targets, GuardAction};

#[test]
fn guard_prefers_confirmation_then_deadline() {
    assert_eq!(guard_tick(true, true), GuardAction::Keep);
    assert_eq!(guard_tick(true, false), GuardAction::Keep);
    assert_eq!(guard_tick(false, true), GuardAction::RollBack);
    assert_eq!(guard_tick(false, false), GuardAction::Wait);
}

#[test]
fn confirmation_accepts_empty_y_and_yes() {
    for s in ["", "y", "Y", "yes", " YES \n", "\n"] {
        assert!(is_confirmation(s), "{s:?}");
    }
    for s in ["n", "no", "yess", "ok"] {
        assert!(!is_confirmation(s), "{s:?}");
    }
}

#[test]
fn guard_arguments() {
    let mods = vec!["ssh".to_string(), "firewall".to_string()];
    assert_eq!(
        guard_args("/etc/vpsguard.toml", &mods, "/run/commit"),
        vec![
            "-c",
            "/etc/vpsguard.toml",
            "guard",
            "--modules",
            "ssh,firewall",
            "--timeout",
            "60",
            "--commit",
            "/run/commit"
        ]
    );
}

#[test]
fn notice_names_modules_and_timeout() {
    let n = risky_notice(&vec!["ssh".to_string(), "firewall".to_string()]);
    assert_eq!(
        n,
        "Risky changes applied (ssh, firewall). They roll back automatically in 60s unless you confirm from this session."
    );
}

#[test]
fn rollback_targets_skip_unknown_names() {
    let cat = ModuleCatalog::new(all());
    let names = vec!["firewall".to_string(), "nope".to_string(), "ssh".to_string()];
    assert_eq!(rollback_targets(&cat, &names), vec![ModuleId::Firewall, ModuleId::Ssh]);
}
