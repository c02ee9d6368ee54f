//! Monitoring: install a metrics agent.
//!
//! Two backends, chosen in config. `netdata` is an all-in-one agent with a
//! built-in web dashboard, installed by the official cross-distro kickstart.
//! `node_exporter` exposes Prometheus metrics for a central Prometheus to
//! scrape, installed from the distro package. Opt-in, disabled by default.

use vstd::prelude::*;

use crate::action::{append_all, args2, args3, checked_steps, commands_value, run, run_all_checked, run_checked, run_quiet, Plan, PlanV, Step, StepV};
use crate::common::{disable_service, remove_pkg, spec_remove_pkg};
use crate::config::{MonitoringBackend, MonitoringConfig};
use crate::platform::{DistroFamily, Platform};
use crate::text::{owned, push_str};
use crate::types::{
    command_change, command_changes, commands_of, drift_status, drift_to_status, empty_report, Category,
    Change, ChangeV, Report, ReportV, State, Status, StatusV,
};

verus! {

/// The netdata kickstart, run through `sh -c`.
pub const NETDATA_KICKSTART: &'static str = "curl -Ss https://get.netdata.cloud/kickstart.sh | sh -s -- --non-interactive --stable-channel";

/// How to install and manage a backend on this host.
#[derive(Debug, Clone)]
pub struct Ops {
    pub service: &'static str,
    pub probe: &'static str,
    pub install: Vec<(&'static str, Vec<&'static str>)>,
    /// Package name for uninstall; None means use the backend's own uninstaller.
    pub pkg: Option<&'static str>,
}

/// The mathematical value of an [`Ops`].
pub struct OpsV {
    pub service: Seq<char>,
    pub probe: Seq<char>,
    pub install: Seq<(Seq<char>, Seq<Seq<char>>)>,
    pub pkg: Option<Seq<char>>,
}

impl Ops {
    pub open spec fn value(&self) -> OpsV {
        OpsV {
            service: self.service@,
            probe: self.probe@,
            install: commands_value(self.install@),
            pkg: match self.pkg {
                Some(p) => Some(p@),
                None => None,
            },
        }
    }
}

/// The backend's operations on a distro family, when it is supported there.
pub open spec fn spec_ops(backend: MonitoringBackend, family: DistroFamily) -> Option<OpsV> {
    match backend {
        MonitoringBackend::Netdata => Some(
            OpsV {
                service: "netdata"@,
                probe: "netdata"@,
                install: seq![("sh"@, seq!["-c"@, NETDATA_KICKSTART@])],
                pkg: None,
            },
        ),
        MonitoringBackend::NodeExporter => match family {
            DistroFamily::Debian => Some(
                OpsV {
                    service: "prometheus-node-exporter"@,
                    probe: "prometheus-node-exporter"@,
                    install: seq![("apt-get"@, seq!["install"@, "-y"@, "prometheus-node-exporter"@])],
                    pkg: Some("prometheus-node-exporter"@),
                },
            ),
            DistroFamily::Rhel => Some(
                OpsV {
                    service: "node_exporter"@,
                    probe: "node_exporter"@,
                    install: seq![("dnf"@, seq!["install"@, "-y"@, "node_exporter"@])],
                    pkg: Some("node_exporter"@),
                },
            ),
            DistroFamily::Arch => Some(
                OpsV {
                    service: "prometheus-node-exporter"@,
                    probe: "node_exporter"@,
                    install: seq![
                        ("pacman"@, seq!["-S"@, "--noconfirm"@, "prometheus-node-exporter"@]),
                    ],
                    pkg: Some("prometheus-node-exporter"@),
                },
            ),
            _ => None,
        },
    }
}

/// How to install and manage `backend` on `p`, if it is supported there.
pub fn ops(backend: MonitoringBackend, p: &Platform) -> (r: Option<Ops>)
    ensures
        match r {
            Some(o) => spec_ops(backend, p.family) == Some(o.value()),
            None => spec_ops(backend, p.family) is None,
        },
{
    match backend {
        MonitoringBackend::Netdata => {
            let o = Ops {
                service: "netdata",
                probe: "netdata",
                install: vec![("sh", vec!["-c", NETDATA_KICKSTART])],
                pkg: None,
            };
            assert(o.value().install =~~= seq![("sh"@, seq!["-c"@, NETDATA_KICKSTART@])]);
            Some(o)
        },
        MonitoringBackend::NodeExporter => match p.family {
            DistroFamily::Debian => {
                let o = Ops {
                    service: "prometheus-node-exporter",
                    probe: "prometheus-node-exporter",
                    install: vec![("apt-get", vec!["install", "-y", "prometheus-node-exporter"])],
                    pkg: Some("prometheus-node-exporter"),
                };
                assert(o.value().install =~~= seq![
                    ("apt-get"@, seq!["install"@, "-y"@, "prometheus-node-exporter"@]),
                ]);
                Some(o)
            },
            DistroFamily::Rhel => {
                let o = Ops {
                    service: "node_exporter",
                    probe: "node_exporter",
                    install: vec![("dnf", vec!["install", "-y", "node_exporter"])],
                    pkg: Some("node_exporter"),
                };
                assert(o.value().install =~~= seq![("dnf"@, seq!["install"@, "-y"@, "node_exporter"@])]);
                Some(o)
            },
            DistroFamily::Arch => {
                let o = Ops {
                    service: "prometheus-node-exporter",
                    probe: "node_exporter",
                    install: vec![("pacman", vec!["-S", "--noconfirm", "prometheus-node-exporter"])],
                    pkg: Some("prometheus-node-exporter"),
                };
                assert(o.value().install =~~= seq![
                    ("pacman"@, seq!["-S"@, "--noconfirm"@, "prometheus-node-exporter"@]),
                ]);
                Some(o)
            },
            _ => None,
        },
    }
}

/// The operations when monitoring is enabled and the backend is supported.
pub open spec fn spec_enabled_ops(cfg: MonitoringConfig, family: DistroFamily) -> Option<OpsV> {
    if !cfg.enabled {
        None
    } else {
        spec_ops(cfg.backend, family)
    }
}

/// The operations when monitoring is enabled and the backend is supported.
pub fn enabled_ops(cfg: &MonitoringConfig, p: &Platform) -> (r: Option<Ops>)
    ensures
        match r {
            Some(o) => spec_enabled_ops(*cfg, p.family) == Some(o.value()),
            None => spec_enabled_ops(*cfg, p.family) is None,
        },
{
    if !cfg.enabled {
        return None;
    }
    ops(cfg.backend, p)
}

/// The probe `sh -c "command -v PROBE"`: exits 0 when the agent is installed.
pub fn installed_probe(o: &Ops) -> (r: Step)
    ensures
        r.deep_view() == (StepV::Run {
            command: "sh"@,
            args: seq!["-c"@, "command -v "@ + o.probe@],
        }),
{
    let mut c = owned("command -v ");
    push_str(&mut c, o.probe);
    run("sh", args2("-c", c.as_str()))
}

// ---------------------------------------------------------------------------
// The module
// ---------------------------------------------------------------------------

/// Monitoring module.
#[derive(Debug, Default)]
pub struct MonitoringModule;

/// Drift descriptions.
pub open spec fn spec_drift(o: OpsV, installed: bool, enabled: bool) -> Seq<Seq<char>> {
    (if !installed {
        seq!["install monitoring agent"@]
    } else {
        Seq::empty()
    }) + (if !enabled {
        seq!["enable "@ + o.service]
    } else {
        Seq::empty()
    })
}

/// `check`.
pub open spec fn spec_check(cfg: MonitoringConfig, family: DistroFamily, installed: bool, enabled: bool) -> StatusV {
    if !cfg.enabled {
        StatusV { state: State::NotApplicable, detail: "monitoring disabled in config"@ }
    } else {
        match spec_ops(cfg.backend, family) {
            None => StatusV {
                state: State::NotApplicable,
                detail: "selected monitoring backend not available for this distro"@,
            },
            Some(o) => drift_status(spec_drift(o, installed, enabled)),
        }
    }
}

/// `apply`.
pub open spec fn spec_apply(cfg: MonitoringConfig, family: DistroFamily, installed: bool, enabled: bool, dry_run: bool) -> PlanV {
    match spec_enabled_ops(cfg, family) {
        None => PlanV { steps: Seq::empty(), report: empty_report("monitoring"@, dry_run) },
        Some(o) => {
            let drift = spec_drift(o, installed, enabled);
            if drift.len() == 0 {
                PlanV { steps: Seq::empty(), report: empty_report("monitoring"@, dry_run) }
            } else if dry_run {
                PlanV {
                    steps: Seq::empty(),
                    report: ReportV {
                        module: "monitoring"@,
                        applied: Seq::empty(),
                        skipped: command_changes(drift),
                        dry_run,
                    },
                }
            } else {
                let (s1, a1) = if !installed {
                    (checked_steps(o.install), seq![command_change("install monitoring agent"@)])
                } else {
                    (Seq::empty(), Seq::empty())
                };
                PlanV {
                    steps: s1.push(
                        StepV::RunChecked {
                            command: "systemctl"@,
                            args: seq!["enable"@, "--now"@, o.service],
                        },
                    ),
                    report: ReportV {
                        module: "monitoring"@,
                        applied: a1.push(command_change("enable "@ + o.service)),
                        skipped: Seq::empty(),
                        dry_run,
                    },
                }
            }
        },
    }
}

/// `uninstall`.
pub open spec fn spec_uninstall(cfg: MonitoringConfig, family: DistroFamily, purge: bool) -> PlanV {
    match spec_ops(cfg.backend, family) {
        None => PlanV { steps: Seq::empty(), report: empty_report("monitoring"@, false) },
        Some(o) => {
            let removal = match o.pkg {
                Some(pkg) => match spec_remove_pkg(family, pkg, purge) {
                    Some(s) => seq![s],
                    None => Seq::empty(),
                },
                None => seq![
                    StepV::RunQuiet {
                        command: "sh"@,
                        args: seq!["-c"@, "netdata-uninstaller.sh --yes --force || true"@],
                    },
                ],
            };
            let base = seq![
                StepV::RunQuiet { command: "systemctl"@, args: seq!["disable"@, "--now"@, o.service] },
            ] + removal;
            let removed = seq![command_change("remove monitoring agent"@)];
            if purge {
                PlanV {
                    steps: base.push(
                        StepV::RunQuiet {
                            command: "rm"@,
                            args: seq!["-rf"@, "/var/lib/netdata"@, "/etc/netdata"@],
                        },
                    ),
                    report: ReportV {
                        module: "monitoring"@,
                        applied: removed.push(command_change("purge monitoring data"@)),
                        skipped: Seq::empty(),
                        dry_run: false,
                    },
                }
            } else {
                PlanV {
                    steps: base,
                    report: ReportV {
                        module: "monitoring"@,
                        applied: removed,
                        skipped: Seq::empty(),
                        dry_run: false,
                    },
                }
            }
        },
    }
}

fn drift_of(o: &Ops, installed: bool, enabled: bool) -> (r: Vec<String>)
    ensures
        r.deep_view() == spec_drift(o.value(), installed, enabled),
{
    let mut drift: Vec<String> = Vec::new();
    if !installed {
        drift.push(owned("install monitoring agent"));
    }
    let ghost d1 = drift.deep_view();
    if !enabled {
        let mut m = owned("enable ");
        push_str(&mut m, o.service);
        drift.push(m);
    }
    assert(drift.deep_view() =~= spec_drift(o.value(), installed, enabled));
    drift
}

impl MonitoringModule {
    pub fn name(&self) -> (r: &'static str)
        ensures
            r@ == "monitoring"@,
    {
        "monitoring"
    }

    pub fn summary(&self) -> (r: &'static str)
        ensures
            r@ == "Install a metrics agent (netdata dashboard or node_exporter)"@,
    {
        "Install a metrics agent (netdata dashboard or node_exporter)"
    }

    pub fn category(&self) -> (r: Category)
        ensures
            r == Category::System,
    {
        Category::System
    }

    /// Report drift; `installed` is the outcome of [`installed_probe`] and
    /// `enabled` whether the service reports itself enabled. Read-only.
    pub fn check(&self, cfg: &MonitoringConfig, p: &Platform, installed: bool, enabled: bool) -> (r: Status)
        ensures
            r.deep_view() == spec_check(*cfg, p.family, installed, enabled),
    {
        if !cfg.enabled {
            return Status::not_applicable("monitoring disabled in config");
        }
        match ops(cfg.backend, p) {
            None => Status::not_applicable("selected monitoring backend not available for this distro"),
            Some(o) => {
                let drift = drift_of(&o, installed, enabled);
                drift_to_status(&drift)
            },
        }
    }

    /// The changes `apply` would make.
    pub fn plan(&self, cfg: &MonitoringConfig, p: &Platform, installed: bool, enabled: bool) -> (r: Vec<Change>)
        ensures
            r.deep_view() == match spec_enabled_ops(*cfg, p.family) {
                None => Seq::<ChangeV>::empty(),
                Some(o) => command_changes(spec_drift(o, installed, enabled)),
            },
    {
        match enabled_ops(cfg, p) {
            None => {
                let none: Vec<Change> = Vec::new();
                assert(none.deep_view() =~= Seq::<ChangeV>::empty());
                none
            },
            Some(o) => {
                let drift = drift_of(&o, installed, enabled);
                commands_of(&drift)
            },
        }
    }

    /// Decide how to install and enable the agent.
    pub fn apply(&self, cfg: &MonitoringConfig, p: &Platform, installed: bool, enabled: bool, dry_run: bool) -> (r: Plan)
        ensures
            r.deep_view() == spec_apply(*cfg, p.family, installed, enabled, dry_run),
    {
        let mut report = Report::new("monitoring", dry_run);
        let mut steps: Vec<Step> = Vec::new();
        assert(steps.deep_view() =~= Seq::<StepV>::empty());
        let o = match enabled_ops(cfg, p) {
            None => return Plan { steps, report },
            Some(o) => o,
        };
        let drift = drift_of(&o, installed, enabled);
        if drift.len() == 0 {
            return Plan { steps, report };
        }
        if dry_run {
            report.skipped = commands_of(&drift);
            return Plan { steps, report };
        }
        let mut applied: Vec<Change> = Vec::new();
        if !installed {
            let ins = run_all_checked(&o.install);
            append_all(&mut steps, ins);
            applied.push(Change::command("install monitoring agent"));
        }
        let ghost s1 = steps.deep_view();
        let ghost a1 = applied.deep_view();
        steps.push(run_checked("systemctl", args3("enable", "--now", o.service)));
        let mut m = owned("enable ");
        push_str(&mut m, o.service);
        applied.push(Change::command(m.as_str()));
        proof {
            let sp = spec_apply(*cfg, p.family, installed, enabled, dry_run);
            assert(steps.deep_view() =~= sp.steps);
            assert(applied.deep_view() =~= sp.report.applied);
        }
        report.applied = applied;
        Plan { steps, report }
    }

    /// Stop and disable the agent's service.
    pub fn rollback(&self, cfg: &MonitoringConfig, p: &Platform) -> (r: Vec<Step>)
        ensures
            r.deep_view() == match spec_enabled_ops(*cfg, p.family) {
                None => Seq::<StepV>::empty(),
                Some(o) => seq![
                    StepV::RunQuiet { command: "systemctl"@, args: seq!["disable"@, "--now"@, o.service] },
                ],
            },
    {
        let mut steps: Vec<Step> = Vec::new();
        match enabled_ops(cfg, p) {
            Some(o) => steps.push(disable_service(o.service)),
            None => {},
        }
        proof {
            if let Some(o) = spec_enabled_ops(*cfg, p.family) {
                assert(steps.deep_view() =~= seq![
                    StepV::RunQuiet { command: "systemctl"@, args: seq!["disable"@, "--now"@, o.service] },
                ]);
            } else {
                assert(steps.deep_view() =~= Seq::<StepV>::empty());
            }
        }
        steps
    }

    /// Remove the agent; with `purge`, also its data and configuration.
    pub fn uninstall(&self, cfg: &MonitoringConfig, p: &Platform, purge: bool) -> (r: Plan)
        ensures
            r.deep_view() == spec_uninstall(*cfg, p.family, purge),
    {
        let mut report = Report::new("monitoring", false);
        let mut steps: Vec<Step> = Vec::new();
        assert(steps.deep_view() =~= Seq::<StepV>::empty());
        let o = match ops(cfg.backend, p) {
            None => return Plan { steps, report },
            Some(o) => o,
        };
        steps.push(disable_service(o.service));
        match o.pkg {
            Some(pkg) => match remove_pkg(p, pkg, purge) {
                Some(s) => steps.push(s),
                None => {},
            },
            None => steps.push(run_quiet("sh", args2("-c", "netdata-uninstaller.sh --yes --force || true"))),
        }
        let mut applied: Vec<Change> = Vec::new();
        applied.push(Change::command("remove monitoring agent"));
        if purge {
            steps.push(run_quiet("rm", args3("-rf", "/var/lib/netdata", "/etc/netdata")));
            applied.push(Change::command("purge monitoring data"));
        }
        proof {
            let sp = spec_uninstall(*cfg, p.family, purge);
            assert(steps.deep_view() =~= sp.steps);
            assert(applied.deep_view() =~= sp.report.applied);
        }
        report.applied = applied;
        Plan { steps, report }
    }
}


/// Law: a dry run changes nothing and reports as skipped exactly the changes
/// `plan` lists; `check` is compliant exactly when there is nothing to plan;
/// once `check` is compliant, a real apply performs no step and applies
/// nothing.
pub proof fn law_dry_run_reports_plan(cfg: MonitoringConfig, family: DistroFamily, installed: bool, enabled: bool)
    requires
        spec_enabled_ops(cfg, family) is Some,
    ensures
        spec_apply(cfg, family, installed, enabled, true).steps.len() == 0,
        spec_apply(cfg, family, installed, enabled, true).report.applied.len() == 0,
        spec_apply(cfg, family, installed, enabled, true).report.skipped == command_changes(
            spec_drift(spec_enabled_ops(cfg, family)->Some_0, installed, enabled),
        ),
        spec_check(cfg, family, installed, enabled).state == State::Compliant <==> spec_drift(
            spec_enabled_ops(cfg, family)->Some_0,
            installed,
            enabled,
        ).len() == 0,
        spec_check(cfg, family, installed, enabled).state == State::Compliant ==> spec_apply(cfg, family, installed, enabled, false).steps.len() == 0
            && spec_apply(cfg, family, installed, enabled, false).report.applied.len() == 0,
{
    let o = spec_enabled_ops(cfg, family)->Some_0;
    if spec_drift(o, installed, enabled).len() == 0 {
        assert(command_changes(spec_drift(o, installed, enabled)) =~= Seq::<ChangeV>::empty());
    }
}

} // verus!
