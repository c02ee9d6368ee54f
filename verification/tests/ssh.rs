use vpsguard::config::SshConfig;
use vpsguard::ssh::{
    active_value, desired_directives, diff, is_active_directive, render, SshModule, CIPHERS,
    KEX_ALGORITHMS, MACS,
};

fn cfg() -> SshConfig {
    SshConfig {
        port: 2222,
        permit_root_login: false,
        password_auth: false,
        modern_ciphers: false,
    }
}

#[test]
fn appends_missing_directives() {
    let out = render("# empty config\n", &desired_directives(&cfg()));
    assert_eq!(active_value(&out, "Port").as_deref(), Some("2222"));
    assert_eq!(active_value(&out, "PermitRootLogin").as_deref(), Some("no"));
    assert_eq!(
        active_value(&out, "PasswordAuthentication").as_deref(),
        Some("no")
    );
}

#[test]
fn replaces_existing_active_directive() {
    let input = "Port 22\nPermitRootLogin yes\nPasswordAuthentication yes\n";
    let out = render(input, &desired_directives(&cfg()));
    assert_eq!(active_value(&out, "Port").as_deref(), Some("2222"));
    assert_eq!(active_value(&out, "PermitRootLogin").as_deref(), Some("no"));
    // Replaced in place, not duplicated.
    assert_eq!(out.matches("Port ").count(), 1);
}

#[test]
fn ignores_commented_directives_and_appends() {
    let input = "#Port 22\n#PermitRootLogin yes\n";
    let out = render(input, &desired_directives(&cfg()));
    // The commented lines are kept.
    assert!(out.contains("#Port 22"));
    // Active directive appended.
    assert_eq!(active_value(&out, "Port").as_deref(), Some("2222"));
}

#[test]
fn comments_out_duplicate_actives() {
    let input = "Port 22\nPort 80\n";
    let out = render(input, &desired_directives(&cfg()));
    assert_eq!(active_value(&out, "Port").as_deref(), Some("2222"));
    assert!(out.contains("superseded by vpsguard"));
    // Only one active Port line remains.
    let actives = out
        .lines()
        .filter(|l| is_active_directive(l, "Port"))
        .count();
    assert_eq!(actives, 1);
}

#[test]
fn render_is_idempotent() {
    let input = "Port 22\nPermitRootLogin yes\n";
    let desired = desired_directives(&cfg());
    let once = render(input, &desired);
    let twice = render(&once, &desired);
    assert_eq!(once, twice);
}

#[test]
fn keyword_match_is_case_insensitive() {
    let input = "port 22\n";
    let out = render(input, &desired_directives(&cfg()));
    assert_eq!(active_value(&out, "Port").as_deref(), Some("2222"));
    let actives = out
        .lines()
        .filter(|l| is_active_directive(l, "Port"))
        .count();
    assert_eq!(actives, 1); // replaced in place, not appended
}

#[test]
fn diff_reports_only_drifting_keys() {
    // Port already correct; root login wrong.
    let input = "Port 2222\nPermitRootLogin yes\nPasswordAuthentication no\n";
    let changes = diff(input, &cfg());
    assert_eq!(changes.len(), 1);
    assert!(changes[0].summary.starts_with("PermitRootLogin"));
}

#[test]
fn ssh_is_lockout_risky() {
    assert!(SshModule.lockout_risk());
}

#[test]
fn diff_empty_when_compliant() {
    let input = "Port 2222\nPermitRootLogin no\nPasswordAuthentication no\n";
    assert!(diff(input, &cfg()).is_empty());
}

#[test]
fn modern_ciphers_add_three_directives() {
    let c = SshConfig {
        modern_ciphers: true,
        ..cfg()
    };
    let out = render("", &desired_directives(&c));
    assert_eq!(active_value(&out, "Ciphers").as_deref(), Some(CIPHERS));
    assert_eq!(
        active_value(&out, "KexAlgorithms").as_deref(),
        Some(KEX_ALGORITHMS)
    );
    assert_eq!(active_value(&out, "MACs").as_deref(), Some(MACS));
}

#[test]
fn render_appends_exact_lines_to_empty_config() {
    let out = render("", &desired_directives(&cfg()));
    assert_eq!(out, "Port 2222\nPermitRootLogin no\nPasswordAuthentication no\n");
}

#[test]
fn render_replaced_line_keeps_position() {
    let out = render("# head\nPort 22\n# tail\n", &desired_directives(&cfg()));
    assert!(out.starts_with("# head\nPort 2222\n# tail\n"));
}

#[test]
fn directive_parsing_details() {
    assert!(is_active_directive("  PORT 22", "Port"));
    assert!(!is_active_directive("# Port 22", "Port"));
    assert!(!is_active_directive("Ports 22", "Port"));
    assert_eq!(active_value("Port  2222  \n", "Port").as_deref(), Some("2222"));
    assert_eq!(active_value("Port 22\nPort 80\n", "Port").as_deref(), Some("22"));
    assert_eq!(active_value("#Port 22\n", "Port"), None);
}

#[test]
fn render_of_a_crlf_file_is_idempotent_and_compliant() {
    let desired = desired_directives(&cfg());
    let content = "Port 22\r\nPermitRootLogin yes\r\n# note\r\n";
    let once = render(content, &desired);
    assert_eq!(render(&once, &desired), once);
    assert!(diff(&once, &cfg()).is_empty());
}

#[test]
fn render_converges_when_a_kept_line_ends_in_a_carriage_return() {
    let content = "# note\r\r\nPort 22\n";
    let once = render(content, &desired_directives(&cfg()));
    assert!(once.contains("# note\r\n"));
    assert!(diff(&once, &cfg()).is_empty());
    let twice = render(&once, &desired_directives(&cfg()));
    assert!(twice.contains("# note\n"));
}

#[test]
fn render_keeps_unrelated_lines_in_place() {
    let content = "# Port 1234\nUsePAM yes\nPort 22\nX11Forwarding no\nPort 23\n";
    let out = render(content, &desired_directives(&cfg()));
    let lines: Vec<&str> = out.lines().collect();
    assert_eq!(lines[0], "# Port 1234");
    assert_eq!(lines[1], "UsePAM yes");
    assert_eq!(lines[2], "Port 2222");
    assert_eq!(lines[3], "X11Forwarding no");
    assert_eq!(lines[4], "# Port 23  # superseded by vpsguard");
    assert!(out.ends_with('\n'));
}
