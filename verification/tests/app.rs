use vpsguard::app::{compose_running, dir, framework_name};
use vpsguard::config::{AppConfig, Framework};
use vpsguard::types::Output;

#[test]
fn dir_defaults_to_srv_app() {
    assert_eq!(dir(&AppConfig::default()), "/srv/app");
}

#[test]
fn dir_honours_override() {
    let app = AppConfig {
        dir: Some("/opt/myapp".into()),
        ..AppConfig::default()
    };
    assert_eq!(dir(&app), "/opt/myapp");
}

#[test]
fn framework_names() {
    assert_eq!(framework_name(Framework::Django), "Django");
    assert_eq!(framework_name(Framework::Laravel), "Laravel");
    assert_eq!(framework_name(Framework::Node), "Node/Next.js");
    assert_eq!(framework_name(Framework::Fastapi), "FastAPI");
    assert_eq!(framework_name(Framework::Rails), "Rails");
}

#[test]
fn compose_running_needs_a_listed_container() {
    let out = |code: i32, stdout: &str| Output {
        code,
        stdout: stdout.to_string(),
        stderr: String::new(),
    };
    assert!(compose_running(&Some(out(0, "abc123\n"))));
    assert!(!compose_running(&Some(out(0, "  \n"))));
    assert!(!compose_running(&Some(out(1, "abc123\n"))));
    assert!(!compose_running(&None));
}
