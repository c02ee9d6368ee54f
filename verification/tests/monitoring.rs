use vpsguard::config::MonitoringBackend;
use vpsguard::monitoring::ops;
use vpsguard::platform::{DistroFamily, Platform};

fn platform(family: DistroFamily) -> Platform {
    Platform {
        family,
        id: String::new(),
    }
}

#[test]
fn netdata_uses_kickstart_on_any_distro() {
    let o = ops(MonitoringBackend::Netdata, &platform(DistroFamily::Suse)).unwrap();
    assert_eq!(o.service, "netdata");
    assert!(o.install[0].1.iter().any(|a| a.contains("kickstart")));
    assert!(o.pkg.is_none());
}

#[test]
fn node_exporter_debian_package() {
    let o = ops(
        MonitoringBackend::NodeExporter,
        &platform(DistroFamily::Debian),
    )
    .unwrap();
    assert_eq!(o.service, "prometheus-node-exporter");
    assert_eq!(o.pkg, Some("prometheus-node-exporter"));
}

#[test]
fn node_exporter_unsupported_distro_is_none() {
    assert!(ops(
        MonitoringBackend::NodeExporter,
        &platform(DistroFamily::Unknown)
    )
    .is_none());
}

#[test]
fn netdata_even_on_unknown_distro() {
    assert!(ops(MonitoringBackend::Netdata, &platform(DistroFamily::Unknown)).is_some());
}
