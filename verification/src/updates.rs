//! Automatic security updates, per distro family.
//!
//! Debian/Ubuntu: unattended-upgrades, with apt.conf.d files that enable
//! periodic upgrades and an optional reboot window. Fedora/Rocky/RHEL:
//! dnf-automatic with its automatic.conf and timer. Other families report
//! not-applicable.

use vstd::prelude::*;

use crate::action::{args2, args3, remove, remove_quiet, run, run_checked, run_quiet, write_file, Plan, PlanV, Step, StepV};
use crate::config::UpdatesConfig;
use crate::platform::{DistroFamily, Platform};
use crate::text::{owned, push_str, str_eq};
use crate::types::{
    command_change, command_changes, commands_of, drift_status, drift_to_status, empty_report, Category,
    Change, ChangeV, Report, ReportV, State, Status, StatusV,
};

verus! {

pub const APT_PERIODIC: &'static str = "/etc/apt/apt.conf.d/20auto-upgrades";

pub const APT_REBOOT: &'static str = "/etc/apt/apt.conf.d/51vpsguard-reboot";

pub const DNF_CONF: &'static str = "/etc/dnf/automatic.conf";

pub const DNF_TIMER: &'static str = "dnf-automatic.timer";

/// The apt settings that enable daily list updates and upgrades.
pub open spec fn spec_apt_periodic() -> Seq<char> {
    "APT::Periodic::Update-Package-Lists \"1\";\nAPT::Periodic::Unattended-Upgrade \"1\";\n"@
}

pub fn apt_periodic() -> (r: String)
    ensures
        r@ == spec_apt_periodic(),
{
    owned("APT::Periodic::Update-Package-Lists \"1\";\nAPT::Periodic::Unattended-Upgrade \"1\";\n")
}

/// The apt settings for automatic reboots at `time`.
pub open spec fn spec_apt_reboot(time: Seq<char>) -> Seq<char> {
    "Unattended-Upgrade::Automatic-Reboot \"true\";\nUnattended-Upgrade::Automatic-Reboot-Time \""@
        + time + "\";\n"@
}

pub fn apt_reboot(time: &str) -> (r: String)
    ensures
        r@ == spec_apt_reboot(time@),
{
    let mut s = owned("Unattended-Upgrade::Automatic-Reboot \"true\";\nUnattended-Upgrade::Automatic-Reboot-Time \"");
    push_str(&mut s, time);
    push_str(&mut s, "\";\n");
    s
}

/// dnf-automatic's configuration: security upgrades applied, with a reboot
/// when needed if reboots are allowed.
pub open spec fn spec_dnf_conf(reboot: bool) -> Seq<char> {
    "[commands]\nupgrade_type = security\napply_updates = yes\n"@ + (if reboot {
        "reboot = when-needed\n"@
    } else {
        ""@
    }) + "[emitters]\nemit_via = stdio\n"@
}

pub fn dnf_conf(reboot: bool) -> (r: String)
    ensures
        r@ == spec_dnf_conf(reboot),
{
    let mut s = owned("[commands]\nupgrade_type = security\napply_updates = yes\n");
    let line = if reboot {
        "reboot = when-needed\n"
    } else {
        ""
    };
    push_str(&mut s, line);
    push_str(&mut s, "[emitters]\nemit_via = stdio\n");
    s
}

/// Automatic updates module.
#[derive(Debug, Default)]
pub struct UpdatesModule;

/// What was found on the host: whether the update package's query succeeded,
/// the apt periodic file and dnf-automatic's configuration (each empty when
/// absent), the apt reboot file (`None` when absent), and whether the dnf
/// timer is enabled.
#[derive(Debug, Clone)]
pub struct UpdatesState {
    pub installed: bool,
    pub apt_periodic: String,
    pub apt_reboot: Option<String>,
    pub dnf_conf: String,
    pub timer_enabled: bool,
}

/// The mathematical value of an [`UpdatesState`].
pub struct UpdatesStateV {
    pub installed: bool,
    pub apt_periodic: Seq<char>,
    pub apt_reboot: Option<Seq<char>>,
    pub dnf_conf: Seq<char>,
    pub timer_enabled: bool,
}

impl DeepView for UpdatesState {
    type V = UpdatesStateV;

    open spec fn deep_view(&self) -> UpdatesStateV {
        UpdatesStateV {
            installed: self.installed,
            apt_periodic: self.apt_periodic@,
            apt_reboot: self.apt_reboot.deep_view(),
            dnf_conf: self.dnf_conf@,
            timer_enabled: self.timer_enabled,
        }
    }
}

/// A file's text, or empty when it is absent.
pub open spec fn or_empty(f: Option<Seq<char>>) -> Seq<char> {
    match f {
        Some(t) => t,
        None => Seq::empty(),
    }
}

/// Drift on Debian/Ubuntu.
pub open spec fn debian_drift(reboot: Option<Seq<char>>, st: UpdatesStateV) -> Seq<Seq<char>> {
    (if !st.installed {
        seq!["install unattended-upgrades"@]
    } else {
        Seq::empty()
    }) + (if st.apt_periodic != spec_apt_periodic() {
        seq!["enable periodic unattended upgrades"@]
    } else {
        Seq::empty()
    }) + match reboot {
        Some(time) => if or_empty(st.apt_reboot) != spec_apt_reboot(time) {
            seq!["set auto-reboot window "@ + time]
        } else {
            Seq::empty()
        },
        None => if or_empty(st.apt_reboot).len() > 0 {
            seq!["disable auto-reboot"@]
        } else {
            Seq::empty()
        },
    }
}

/// Drift on the RHEL family.
pub open spec fn rhel_drift(reboot: Option<Seq<char>>, st: UpdatesStateV) -> Seq<Seq<char>> {
    (if !st.installed {
        seq!["install dnf-automatic"@]
    } else {
        Seq::empty()
    }) + (if st.dnf_conf != spec_dnf_conf(reboot is Some) {
        seq!["configure dnf-automatic"@]
    } else {
        Seq::empty()
    }) + (if !st.timer_enabled {
        seq!["enable dnf-automatic.timer"@]
    } else {
        Seq::empty()
    })
}

/// Drift for the host's family; nothing where there is no update backend.
pub open spec fn spec_drift(cfg: UpdatesConfig, family: DistroFamily, st: UpdatesStateV) -> Seq<Seq<char>> {
    match family {
        DistroFamily::Debian => debian_drift(cfg.auto_reboot.deep_view(), st),
        DistroFamily::Rhel => rhel_drift(cfg.auto_reboot.deep_view(), st),
        _ => Seq::empty(),
    }
}

/// `check`.
pub open spec fn spec_check(cfg: UpdatesConfig, family: DistroFamily, st: UpdatesStateV) -> StatusV {
    if !cfg.enabled {
        StatusV { state: State::NotApplicable, detail: "updates disabled in config"@ }
    } else if family == DistroFamily::Debian || family == DistroFamily::Rhel {
        drift_status(spec_drift(cfg, family, st))
    } else {
        StatusV { state: State::NotApplicable, detail: "no update backend for this distro"@ }
    }
}

/// The install step on a family with an update backend.
pub open spec fn install_step(family: DistroFamily) -> StepV {
    if family == DistroFamily::Debian {
        StepV::RunChecked { command: "apt-get"@, args: seq!["install"@, "-y"@, "unattended-upgrades"@] }
    } else {
        StepV::RunChecked { command: "dnf"@, args: seq!["install"@, "-y"@, "dnf-automatic"@] }
    }
}

/// The steps and changes of an apply on Debian/Ubuntu, once the package is
/// in place: `installed` is whether it was before the apply, `after` the
/// files as read once it is.
pub open spec fn debian_work(reboot: Option<Seq<char>>, installed: bool, after: UpdatesStateV) -> (Seq<StepV>, Seq<ChangeV>) {
    let a1 = if !installed {
        seq![command_change("install unattended-upgrades"@)]
    } else {
        Seq::empty()
    };
    let (s2, a2) = if after.apt_periodic != spec_apt_periodic() {
        (
            seq![StepV::Write { path: APT_PERIODIC@, body: spec_apt_periodic() }],
            seq![command_change("enable periodic upgrades"@)],
        )
    } else {
        (Seq::empty(), Seq::empty())
    };
    let (s3, a3) = match reboot {
        Some(time) => if or_empty(after.apt_reboot) != spec_apt_reboot(time) {
            (
                seq![StepV::Write { path: APT_REBOOT@, body: spec_apt_reboot(time) }],
                seq![command_change("set auto-reboot window"@)],
            )
        } else {
            (Seq::empty(), Seq::empty())
        },
        None => if after.apt_reboot is Some {
            (seq![StepV::Remove { path: APT_REBOOT@ }], seq![command_change("disable auto-reboot"@)])
        } else {
            (Seq::empty(), Seq::empty())
        },
    };
    (s2 + s3, a1 + a2 + a3)
}

/// The steps and changes of an apply on the RHEL family, once the package
/// is in place: `installed` is whether it was before the apply, `after` the
/// configuration as read once it is.
pub open spec fn rhel_work(reboot: Option<Seq<char>>, installed: bool, after: UpdatesStateV) -> (Seq<StepV>, Seq<ChangeV>) {
    let a1 = if !installed {
        seq![command_change("install dnf-automatic"@)]
    } else {
        Seq::empty()
    };
    let want = spec_dnf_conf(reboot is Some);
    let (s2, a2) = if after.dnf_conf != want {
        (
            seq![StepV::Write { path: DNF_CONF@, body: want }],
            seq![command_change("configure dnf-automatic"@)],
        )
    } else {
        (Seq::empty(), Seq::empty())
    };
    (
        s2 + seq![
            StepV::RunChecked { command: "systemctl"@, args: seq!["enable"@, "--now"@, DNF_TIMER@] },
        ],
        a1 + a2 + seq![command_change("enable dnf-automatic.timer"@)],
    )
}

/// Whether an apply has work to do: enabled, a backend, and drift.
pub open spec fn has_work(cfg: UpdatesConfig, family: DistroFamily, st: UpdatesStateV) -> bool {
    cfg.enabled && spec_drift(cfg, family, st).len() > 0
}

/// The steps that run first, before the files are read again: the package
/// install, when a real apply has work and the package is missing.
pub open spec fn spec_install_steps(cfg: UpdatesConfig, family: DistroFamily, st: UpdatesStateV, dry_run: bool) -> Seq<StepV> {
    if has_work(cfg, family, st) && !dry_run && !st.installed {
        seq![install_step(family)]
    } else {
        Seq::empty()
    }
}

/// `apply`: drift and dry runs go by `st`, the state before the apply; the
/// files are compared as `after` reads them, once the install steps have
/// run. The steps are those that follow the install steps.
pub open spec fn spec_apply(cfg: UpdatesConfig, family: DistroFamily, st: UpdatesStateV, after: UpdatesStateV, dry_run: bool) -> PlanV {
    let drift = spec_drift(cfg, family, st);
    if !cfg.enabled || drift.len() == 0 {
        PlanV { steps: Seq::empty(), report: empty_report("updates"@, dry_run) }
    } else if dry_run {
        PlanV {
            steps: Seq::empty(),
            report: ReportV {
                module: "updates"@,
                applied: Seq::empty(),
                skipped: command_changes(drift),
                dry_run,
            },
        }
    } else {
        let (steps, applied) = if family == DistroFamily::Debian {
            debian_work(cfg.auto_reboot.deep_view(), st.installed, after)
        } else {
            rhel_work(cfg.auto_reboot.deep_view(), st.installed, after)
        };
        PlanV { steps, report: ReportV { module: "updates"@, applied, skipped: Seq::empty(), dry_run } }
    }
}

/// `rollback`.
pub open spec fn spec_rollback(family: DistroFamily) -> Seq<StepV> {
    match family {
        DistroFamily::Debian => seq![
            StepV::RemoveQuiet { path: APT_PERIODIC@ },
            StepV::RemoveQuiet { path: APT_REBOOT@ },
        ],
        DistroFamily::Rhel => seq![
            StepV::RunQuiet { command: "systemctl"@, args: seq!["disable"@, "--now"@, DNF_TIMER@] },
        ],
        _ => Seq::empty(),
    }
}

fn drift_of(cfg: &UpdatesConfig, p: &Platform, st: &UpdatesState) -> (r: Vec<String>)
    ensures
        r.deep_view() == spec_drift(*cfg, p.family, st.deep_view()),
{
    let mut drift: Vec<String> = Vec::new();
    match p.family {
        DistroFamily::Debian => {
            if !st.installed {
                drift.push(owned("install unattended-upgrades"));
            }
            let periodic = apt_periodic();
            if !str_eq(st.apt_periodic.as_str(), periodic.as_str()) {
                drift.push(owned("enable periodic unattended upgrades"));
            }
            let reboot = match &st.apt_reboot {
                Some(t) => owned(t.as_str()),
                None => String::new(),
            };
            match &cfg.auto_reboot {
                Some(time) => {
                    let want = apt_reboot(time.as_str());
                    if !str_eq(reboot.as_str(), want.as_str()) {
                        let mut m = owned("set auto-reboot window ");
                        push_str(&mut m, time.as_str());
                        drift.push(m);
                    }
                },
                None => {
                    if !reboot.as_str().is_empty() {
                        drift.push(owned("disable auto-reboot"));
                    }
                },
            }
        },
        DistroFamily::Rhel => {
            if !st.installed {
                drift.push(owned("install dnf-automatic"));
            }
            let want = dnf_conf(cfg.auto_reboot.is_some());
            if !str_eq(st.dnf_conf.as_str(), want.as_str()) {
                drift.push(owned("configure dnf-automatic"));
            }
            if !st.timer_enabled {
                drift.push(owned("enable dnf-automatic.timer"));
            }
        },
        _ => {},
    }
    assert(drift.deep_view() =~= spec_drift(*cfg, p.family, st.deep_view()));
    drift
}

impl UpdatesModule {
    pub fn name(&self) -> (r: &'static str)
        ensures
            r@ == "updates"@,
    {
        "updates"
    }

    pub fn summary(&self) -> (r: &'static str)
        ensures
            r@ == "Enable automatic security updates with an optional reboot window"@,
    {
        "Enable automatic security updates with an optional reboot window"
    }

    pub fn category(&self) -> (r: Category)
        ensures
            r == Category::System,
    {
        Category::System
    }

    /// The query that tells whether the family's update package is installed.
    pub fn package_probe(&self, p: &Platform) -> (r: Option<Step>)
        ensures
            match r {
                Some(s) => (p.family == DistroFamily::Debian && s.deep_view() == StepV::Run {
                    command: "dpkg"@,
                    args: seq!["-s"@, "unattended-upgrades"@],
                }) || (p.family == DistroFamily::Rhel && s.deep_view() == StepV::Run {
                    command: "rpm"@,
                    args: seq!["-q"@, "dnf-automatic"@],
                }),
                None => p.family != DistroFamily::Debian && p.family != DistroFamily::Rhel,
            },
    {
        match p.family {
            DistroFamily::Debian => Some(run("dpkg", args2("-s", "unattended-upgrades"))),
            DistroFamily::Rhel => Some(run("rpm", args2("-q", "dnf-automatic"))),
            _ => None,
        }
    }

    /// Report drift. Read-only.
    pub fn check(&self, cfg: &UpdatesConfig, p: &Platform, st: &UpdatesState) -> (r: Status)
        ensures
            r.deep_view() == spec_check(*cfg, p.family, st.deep_view()),
    {
        if !cfg.enabled {
            return Status::not_applicable("updates disabled in config");
        }
        match p.family {
            DistroFamily::Debian | DistroFamily::Rhel => {
                let drift = drift_of(cfg, p, st);
                drift_to_status(&drift)
            },
            _ => Status::not_applicable("no update backend for this distro"),
        }
    }

    /// The changes `apply` would make.
    pub fn plan(&self, cfg: &UpdatesConfig, p: &Platform, st: &UpdatesState) -> (r: Vec<Change>)
        ensures
            r.deep_view() == (if !cfg.enabled {
                Seq::<ChangeV>::empty()
            } else {
                command_changes(spec_drift(*cfg, p.family, st.deep_view()))
            }),
    {
        if !cfg.enabled {
            let none: Vec<Change> = Vec::new();
            assert(none.deep_view() =~= Seq::<ChangeV>::empty());
            return none;
        }
        let drift = drift_of(cfg, p, st);
        commands_of(&drift)
    }

    /// The steps to run first, before the files are read again: the
    /// package install, when a real apply has work and it is missing.
    pub fn install_steps(&self, cfg: &UpdatesConfig, p: &Platform, st: &UpdatesState, dry_run: bool) -> (r: Vec<Step>)
        ensures
            r.deep_view() == spec_install_steps(*cfg, p.family, st.deep_view(), dry_run),
    {
        let mut steps: Vec<Step> = Vec::new();
        assert(steps.deep_view() =~= Seq::<StepV>::empty());
        if !cfg.enabled || dry_run || st.installed {
            return steps;
        }
        let drift = drift_of(cfg, p, st);
        if drift.len() == 0 {
            return steps;
        }
        if p.family == DistroFamily::Debian {
            steps.push(run_checked("apt-get", args3("install", "-y", "unattended-upgrades")));
        } else {
            steps.push(run_checked("dnf", args3("install", "-y", "dnf-automatic")));
        }
        assert(steps.deep_view() =~= spec_install_steps(*cfg, p.family, st.deep_view(), dry_run));
        steps
    }

    /// Decide how to enable automatic updates. `st` is what was found before
    /// the apply, `after` what is found once [`Self::install_steps`] have
    /// run (the same as `st` when there were none); the plan's steps follow
    /// the install steps.
    pub fn apply(&self, cfg: &UpdatesConfig, p: &Platform, st: &UpdatesState, after: &UpdatesState, dry_run: bool) -> (r: Plan)
        ensures
            r.deep_view() == spec_apply(*cfg, p.family, st.deep_view(), after.deep_view(), dry_run),
    {
        let mut report = Report::new("updates", dry_run);
        let mut steps: Vec<Step> = Vec::new();
        assert(steps.deep_view() =~= Seq::<StepV>::empty());
        if !cfg.enabled {
            return Plan { steps, report };
        }
        let drift = drift_of(cfg, p, st);
        if drift.len() == 0 {
            return Plan { steps, report };
        }
        if dry_run {
            report.skipped = commands_of(&drift);
            return Plan { steps, report };
        }
        let mut applied: Vec<Change> = Vec::new();
        if p.family == DistroFamily::Debian {
            if !st.installed {
                applied.push(Change::command("install unattended-upgrades"));
            }
            let periodic = apt_periodic();
            if !str_eq(after.apt_periodic.as_str(), periodic.as_str()) {
                steps.push(write_file(APT_PERIODIC, periodic.as_str()));
                applied.push(Change::command("enable periodic upgrades"));
            }
            match &cfg.auto_reboot {
                Some(time) => {
                    let body = apt_reboot(time.as_str());
                    let current = match &after.apt_reboot {
                        Some(t) => owned(t.as_str()),
                        None => String::new(),
                    };
                    if !str_eq(current.as_str(), body.as_str()) {
                        steps.push(write_file(APT_REBOOT, body.as_str()));
                        applied.push(Change::command("set auto-reboot window"));
                    }
                },
                None => {
                    if after.apt_reboot.is_some() {
                        steps.push(remove(APT_REBOOT));
                        applied.push(Change::command("disable auto-reboot"));
                    }
                },
            }
        } else {
            if !st.installed {
                applied.push(Change::command("install dnf-automatic"));
            }
            let want = dnf_conf(cfg.auto_reboot.is_some());
            if !str_eq(after.dnf_conf.as_str(), want.as_str()) {
                steps.push(write_file(DNF_CONF, want.as_str()));
                applied.push(Change::command("configure dnf-automatic"));
            }
            steps.push(run_checked("systemctl", args3("enable", "--now", DNF_TIMER)));
            applied.push(Change::command("enable dnf-automatic.timer"));
        }
        proof {
            let sp = spec_apply(*cfg, p.family, st.deep_view(), after.deep_view(), dry_run);
            assert(steps.deep_view() =~= sp.steps);
            assert(applied.deep_view() =~= sp.report.applied);
        }
        report.applied = applied;
        Plan { steps, report }
    }

    /// Undo: drop the apt files, or stop the dnf timer.
    pub fn rollback(&self, p: &Platform) -> (r: Vec<Step>)
        ensures
            r.deep_view() == spec_rollback(p.family),
    {
        let mut steps: Vec<Step> = Vec::new();
        match p.family {
            DistroFamily::Debian => {
                steps.push(remove_quiet(APT_PERIODIC));
                steps.push(remove_quiet(APT_REBOOT));
            },
            DistroFamily::Rhel => {
                steps.push(run_quiet("systemctl", args3("disable", "--now", DNF_TIMER)));
            },
            _ => {},
        }
        assert(steps.deep_view() =~= spec_rollback(p.family));
        steps
    }
}


/// Law: a dry run changes nothing and reports as skipped exactly the changes
/// `plan` lists; `check` is compliant exactly when there is nothing to plan;
/// once `check` is compliant, a real apply installs nothing, performs no
/// step and applies nothing, whatever is read after the install steps.
pub proof fn law_dry_run_reports_plan(cfg: UpdatesConfig, family: DistroFamily, st: UpdatesStateV, after: UpdatesStateV)
    requires
        cfg.enabled,
        family == DistroFamily::Debian || family == DistroFamily::Rhel,
    ensures
        spec_install_steps(cfg, family, st, true).len() == 0,
        spec_apply(cfg, family, st, after, true).steps.len() == 0,
        spec_apply(cfg, family, st, after, true).report.applied.len() == 0,
        spec_apply(cfg, family, st, after, true).report.skipped == command_changes(spec_drift(cfg, family, st)),
        spec_check(cfg, family, st).state == State::Compliant <==> spec_drift(cfg, family, st).len() == 0,
        spec_check(cfg, family, st).state == State::Compliant ==> spec_install_steps(cfg, family, st, false).len()
            == 0 && spec_apply(cfg, family, st, after, false).steps.len() == 0 && spec_apply(
            cfg,
            family,
            st,
            after,
            false,
        ).report.applied.len() == 0,
{
    if spec_drift(cfg, family, st).len() == 0 {
        assert(command_changes(spec_drift(cfg, family, st)) =~= Seq::<ChangeV>::empty());
    }
}

} // verus!
