use vpsguard::config::TailscaleConfig;
use vpsguard::tailscale::{is_up, up_args};
use vpsguard::types::Output;

#[test]
fn up_args_minimal() {
    let cfg = TailscaleConfig {
        enabled: true,
        auth_key: None,
        ssh: false,
    };
    assert_eq!(up_args(&cfg), vec!["up"]);
}

#[test]
fn up_args_with_key_and_ssh() {
    let cfg = TailscaleConfig {
        enabled: true,
        auth_key: Some("tskey-abc".into()),
        ssh: true,
    };
    let args = up_args(&cfg);
    assert!(args.contains(&"--authkey=tskey-abc".to_string()));
    assert!(args.contains(&"--ssh".to_string()));
}

#[test]
fn up_args_order() {
    let cfg = TailscaleConfig {
        enabled: true,
        auth_key: Some("k".into()),
        ssh: true,
    };
    assert_eq!(up_args(&cfg), vec!["up", "--authkey=k", "--ssh"]);
}

#[test]
fn status_exit_code_decides_up() {
    let out = |code: i32, stdout: &str| Output {
        code,
        stdout: stdout.to_string(),
        stderr: String::new(),
    };
    assert!(is_up(&Some(out(0, "100.64.0.1 host linux -\n"))));
    assert!(!is_up(&Some(out(0, "Logged out.\n"))));
    assert!(!is_up(&Some(out(1, ""))));
    assert!(!is_up(&None));
}
