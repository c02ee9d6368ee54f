use vpsguard::platform::{DistroFamily, Platform};

fn family(os: &str) -> DistroFamily {
    Platform::from_os_release(os).family
}

#[test]
fn detects_debian_and_ubuntu() {
    assert_eq!(family("ID=debian\n"), DistroFamily::Debian);
    assert_eq!(family("ID=ubuntu\nID_LIKE=debian\n"), DistroFamily::Debian);
}

#[test]
fn detects_rhel_family() {
    assert_eq!(family("ID=fedora\n"), DistroFamily::Rhel);
    assert_eq!(
        family("ID=\"rocky\"\nID_LIKE=\"rhel centos fedora\"\n"),
        DistroFamily::Rhel
    );
    assert_eq!(family("ID=almalinux\n"), DistroFamily::Rhel);
}

#[test]
fn ssh_service_per_family() {
    assert_eq!(Platform::of(DistroFamily::Debian).ssh_service(), "ssh");
    assert_eq!(Platform::of(DistroFamily::Rhel).ssh_service(), "sshd");
    assert_eq!(Platform::of(DistroFamily::Unknown).ssh_service(), "sshd");
}

#[test]
fn package_manager_per_family() {
    assert_eq!(
        Platform::of(DistroFamily::Debian).package_manager(),
        Some("apt-get")
    );
    assert_eq!(Platform::of(DistroFamily::Rhel).package_manager(), Some("dnf"));
    assert_eq!(Platform::of(DistroFamily::Unknown).package_manager(), None);
}

#[test]
fn detects_arch_suse_and_unknown() {
    assert_eq!(family("ID=arch\n"), DistroFamily::Arch);
    assert_eq!(family("ID=opensuse-leap\nID_LIKE=\"suse opensuse\"\n"), DistroFamily::Suse);
    assert_eq!(family("ID=plan9\n"), DistroFamily::Unknown);
    assert_eq!(family(""), DistroFamily::Unknown);
}

#[test]
fn os_release_keeps_unquoted_id() {
    let p = Platform::from_os_release("NAME=\"Rocky Linux\"\nID=\"rocky\"\n");
    assert_eq!(p.id, "rocky");
    assert_eq!(p.family, DistroFamily::Rhel);
}

#[test]
fn package_manager_for_arch_and_suse() {
    assert_eq!(Platform::of(DistroFamily::Arch).package_manager(), Some("pacman"));
    assert_eq!(Platform::of(DistroFamily::Suse).package_manager(), Some("zypper"));
}
