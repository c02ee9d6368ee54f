use vpsguard::docker::{in_docker_group, install_plan};
use vpsguard::platform::{DistroFamily, Platform};
use vpsguard::types::Output;

fn plan_first(family: DistroFamily, id: &str) -> Option<(&'static str, Vec<&'static str>)> {
    let p = Platform {
        family,
        id: id.to_string(),
    };
    install_plan(&p).map(|v| v.into_iter().next().unwrap())
}

#[test]
fn debian_uses_docker_io() {
    let (cmd, args) = plan_first(DistroFamily::Debian, "debian").unwrap();
    assert_eq!(cmd, "apt-get");
    assert!(args.contains(&"docker.io"));
}

#[test]
fn fedora_uses_dnf_docker() {
    let (cmd, args) = plan_first(DistroFamily::Rhel, "fedora").unwrap();
    assert_eq!(cmd, "dnf");
    assert!(args.contains(&"docker"));
}

#[test]
fn rocky_adds_docker_ce_repo() {
    let p = Platform {
        family: DistroFamily::Rhel,
        id: "rocky".into(),
    };
    let steps = install_plan(&p).unwrap();
    assert!(steps.iter().any(|(_, a)| a.contains(&"--add-repo")));
    assert!(steps.iter().any(|(_, a)| a.contains(&"docker-ce")));
}

#[test]
fn docker_unknown_distro_has_no_plan() {
    assert!(plan_first(DistroFamily::Unknown, "").is_none());
}

#[test]
fn arch_and_suse_install_commands() {
    assert_eq!(plan_first(DistroFamily::Arch, "arch").unwrap().0, "pacman");
    assert_eq!(plan_first(DistroFamily::Suse, "opensuse").unwrap().0, "zypper");
}

#[test]
fn group_membership_read_from_groups_output() {
    let out = |code: i32, stdout: &str| Output {
        code,
        stdout: stdout.to_string(),
        stderr: String::new(),
    };
    assert!(in_docker_group(&Some(out(0, "deploy : deploy sudo docker\n"))));
    assert!(!in_docker_group(&Some(out(0, "deploy : deploy sudo\n"))));
    assert!(in_docker_group(&Some(out(1, "docker"))));
    assert!(!in_docker_group(&None));
}
