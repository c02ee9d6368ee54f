use vpsguard::updates::{apt_periodic, apt_reboot, dnf_conf};

#[test]
fn apt_reboot_embeds_time() {
    let c = apt_reboot("02:00");
    assert!(c.contains("Automatic-Reboot \"true\""));
    assert!(c.contains("Automatic-Reboot-Time \"02:00\""));
}

#[test]
fn dnf_conf_toggles_reboot() {
    assert!(dnf_conf(true).contains("reboot = when-needed"));
    assert!(!dnf_conf(false).contains("reboot ="));
    assert!(dnf_conf(false).contains("apply_updates = yes"));
}

#[test]
fn apt_periodic_enables_unattended_upgrades() {
    let c = apt_periodic();
    assert!(c.contains("APT::Periodic::Update-Package-Lists \"1\";"));
    assert!(c.contains("APT::Periodic::Unattended-Upgrade \"1\";"));
}
