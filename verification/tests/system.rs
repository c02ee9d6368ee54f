use vpsguard::system::{ensure_swap_fstab, has_swap_line, remove_swap_fstab};

#[test]
fn adds_swap_line_when_absent() {
    let out = ensure_swap_fstab("UUID=abc / ext4 defaults 0 1\n").unwrap();
    assert!(out.contains("/swapfile none swap sw 0 0"));
    assert!(out.ends_with('\n'));
}

#[test]
fn no_change_when_swap_line_present() {
    let fstab = "/swapfile none swap sw 0 0\n";
    assert!(ensure_swap_fstab(fstab).is_none());
}

#[test]
fn handles_missing_trailing_newline() {
    let out = ensure_swap_fstab("UUID=abc / ext4 defaults 0 1").unwrap();
    assert!(out.contains("defaults 0 1\n/swapfile"));
}

#[test]
fn remove_strips_only_swap_line() {
    let fstab = "UUID=abc / ext4 defaults 0 1\n/swapfile none swap sw 0 0\n";
    let out = remove_swap_fstab(fstab).unwrap();
    assert!(!out.contains("/swapfile"));
    assert!(out.contains("UUID=abc"));
}

#[test]
fn remove_noop_when_absent() {
    assert!(remove_swap_fstab("UUID=abc / ext4 defaults 0 1\n").is_none());
}

#[test]
fn ensure_then_remove_restores_terminated_fstab() {
    let fstab = "UUID=abc / ext4 defaults 0 1\n";
    let added = ensure_swap_fstab(fstab).unwrap();
    assert_eq!(added, "UUID=abc / ext4 defaults 0 1\n/swapfile none swap sw 0 0\n");
    assert!(has_swap_line(&added));
    assert_eq!(remove_swap_fstab(&added).unwrap(), fstab);
}

#[test]
fn swap_line_recognised_by_first_field_only() {
    assert!(has_swap_line("  /swapfile   none swap sw 0 0\n"));
    assert!(!has_swap_line("# /swapfile none swap sw 0 0\n"));
    assert!(ensure_swap_fstab("").unwrap() == "/swapfile none swap sw 0 0\n");
}

#[test]
fn removing_the_swap_entry_gives_the_fstab_back() {
    for fstab in ["", "UUID=abc / ext4 defaults 0 1\n", "# static\n\nUUID=abc / ext4 defaults 0 1\n"] {
        let added = ensure_swap_fstab(fstab).unwrap();
        assert_eq!(remove_swap_fstab(&added), Some(fstab.to_string()));
    }
}

#[test]
fn a_lone_line_break_loses_its_empty_line() {
    let added = ensure_swap_fstab("\n").unwrap();
    assert_eq!(remove_swap_fstab(&added), Some(String::new()));
}
