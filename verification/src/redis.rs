//! Redis: install the server and enable its service.
//!
//! Opt-in. The package and unit names differ per distro.

use vstd::prelude::*;

use crate::action::{args3, run_checked, Plan, PlanV, Step, StepV};
use crate::config::RedisConfig;
use crate::platform::{DistroFamily, Platform};
use crate::text::owned;
use crate::types::{
    command_change, command_changes, commands_of, drift_status, drift_to_status, empty_report, Category,
    Change, ChangeV, Report, ReportV, State, Status, StatusV,
};

verus! {

/// Redis module.
#[derive(Debug, Default)]
pub struct RedisModule;

/// How Redis is installed and named on a distro.
#[derive(Debug, Clone)]
pub struct Packaging {
    pub install: Step,
    pub service: &'static str,
}

/// The install command and the unit name for a distro family.
pub open spec fn spec_packaging(family: DistroFamily) -> Option<(StepV, Seq<char>)> {
    match family {
        DistroFamily::Debian => Some(
            (
                StepV::RunChecked { command: "apt-get"@, args: seq!["install"@, "-y"@, "redis-server"@] },
                "redis-server"@,
            ),
        ),
        DistroFamily::Rhel => Some(
            (StepV::RunChecked { command: "dnf"@, args: seq!["install"@, "-y"@, "redis"@] }, "redis"@),
        ),
        DistroFamily::Arch => Some(
            (
                StepV::RunChecked { command: "pacman"@, args: seq!["-S"@, "--noconfirm"@, "redis"@] },
                "redis"@,
            ),
        ),
        DistroFamily::Suse => Some(
            (StepV::RunChecked { command: "zypper"@, args: seq!["install"@, "-y"@, "redis"@] }, "redis"@),
        ),
        DistroFamily::Unknown => None,
    }
}

/// How Redis is installed and named on this host, if it is supported.
pub fn packaging(p: &Platform) -> (r: Option<Packaging>)
    ensures
        match r {
            Some(k) => spec_packaging(p.family) == Some((k.install.deep_view(), k.service@)),
            None => spec_packaging(p.family) is None,
        },
{
    match p.family {
        DistroFamily::Debian => Some(
            Packaging {
                install: run_checked("apt-get", args3("install", "-y", "redis-server")),
                service: "redis-server",
            },
        ),
        DistroFamily::Rhel => Some(
            Packaging { install: run_checked("dnf", args3("install", "-y", "redis")), service: "redis" },
        ),
        DistroFamily::Arch => Some(
            Packaging {
                install: run_checked("pacman", args3("-S", "--noconfirm", "redis")),
                service: "redis",
            },
        ),
        DistroFamily::Suse => Some(
            Packaging { install: run_checked("zypper", args3("install", "-y", "redis")), service: "redis" },
        ),
        DistroFamily::Unknown => None,
    }
}

/// Drift descriptions.
pub open spec fn spec_drift(installed: bool, enabled: bool) -> Seq<Seq<char>> {
    (if !installed {
        seq!["install redis"@]
    } else {
        Seq::empty()
    }) + (if !enabled {
        seq!["enable redis service"@]
    } else {
        Seq::empty()
    })
}

/// `check`.
pub open spec fn spec_check(cfg: RedisConfig, family: DistroFamily, installed: bool, enabled: bool) -> StatusV {
    if !cfg.enabled {
        StatusV { state: State::NotApplicable, detail: "redis disabled in config"@ }
    } else if spec_packaging(family) is None {
        StatusV { state: State::NotApplicable, detail: "no redis install path for this distro"@ }
    } else {
        drift_status(spec_drift(installed, enabled))
    }
}

/// `apply`.
pub open spec fn spec_apply(cfg: RedisConfig, family: DistroFamily, installed: bool, enabled: bool, dry_run: bool) -> PlanV {
    let drift = spec_drift(installed, enabled);
    if !cfg.enabled || spec_packaging(family) is None || drift.len() == 0 {
        PlanV { steps: Seq::empty(), report: empty_report("redis"@, dry_run) }
    } else if dry_run {
        PlanV {
            steps: Seq::empty(),
            report: ReportV {
                module: "redis"@,
                applied: Seq::empty(),
                skipped: command_changes(drift),
                dry_run,
            },
        }
    } else {
        let (install, service) = spec_packaging(family)->Some_0;
        let (s1, a1) = if !installed {
            (seq![install], seq![command_change("install redis"@)])
        } else {
            (Seq::empty(), Seq::empty())
        };
        PlanV {
            steps: s1.push(
                StepV::RunChecked { command: "systemctl"@, args: seq!["enable"@, "--now"@, service] },
            ),
            report: ReportV {
                module: "redis"@,
                applied: a1.push(command_change("enable redis service"@)),
                skipped: Seq::empty(),
                dry_run,
            },
        }
    }
}

fn drift_of(installed: bool, enabled: bool) -> (r: Vec<String>)
    ensures
        r.deep_view() == spec_drift(installed, enabled),
{
    let mut drift: Vec<String> = Vec::new();
    if !installed {
        drift.push(owned("install redis"));
    }
    if !enabled {
        drift.push(owned("enable redis service"));
    }
    assert(drift.deep_view() =~= spec_drift(installed, enabled));
    drift
}

impl RedisModule {
    pub fn name(&self) -> (r: &'static str)
        ensures
            r@ == "redis"@,
    {
        "redis"
    }

    pub fn summary(&self) -> (r: &'static str)
        ensures
            r@ == "Install Redis and enable its service"@,
    {
        "Install Redis and enable its service"
    }

    pub fn category(&self) -> (r: Category)
        ensures
            r == Category::Runtime,
    {
        Category::Runtime
    }

    /// Report drift: `installed` is whether `redis-server --version` ran,
    /// `enabled` whether the service is. Read-only.
    pub fn check(&self, cfg: &RedisConfig, p: &Platform, installed: bool, enabled: bool) -> (r: Status)
        ensures
            r.deep_view() == spec_check(*cfg, p.family, installed, enabled),
    {
        if !cfg.enabled {
            return Status::not_applicable("redis disabled in config");
        }
        if packaging(p).is_none() {
            return Status::not_applicable("no redis install path for this distro");
        }
        let drift = drift_of(installed, enabled);
        drift_to_status(&drift)
    }

    /// The changes `apply` would make.
    pub fn plan(&self, cfg: &RedisConfig, p: &Platform, installed: bool, enabled: bool) -> (r: Vec<Change>)
        ensures
            r.deep_view() == (if !cfg.enabled || spec_packaging(p.family) is None {
                Seq::<ChangeV>::empty()
            } else {
                command_changes(spec_drift(installed, enabled))
            }),
    {
        if !cfg.enabled || packaging(p).is_none() {
            let none: Vec<Change> = Vec::new();
            assert(none.deep_view() =~= Seq::<ChangeV>::empty());
            return none;
        }
        let drift = drift_of(installed, enabled);
        commands_of(&drift)
    }

    /// Decide how to install and enable Redis.
    pub fn apply(&self, cfg: &RedisConfig, p: &Platform, installed: bool, enabled: bool, dry_run: bool) -> (r: Plan)
        ensures
            r.deep_view() == spec_apply(*cfg, p.family, installed, enabled, dry_run),
    {
        let mut report = Report::new("redis", dry_run);
        let mut steps: Vec<Step> = Vec::new();
        assert(steps.deep_view() =~= Seq::<StepV>::empty());
        if !cfg.enabled {
            return Plan { steps, report };
        }
        let pkg = match packaging(p) {
            None => return Plan { steps, report },
            Some(k) => k,
        };
        let drift = drift_of(installed, enabled);
        if drift.len() == 0 {
            return Plan { steps, report };
        }
        if dry_run {
            report.skipped = commands_of(&drift);
            return Plan { steps, report };
        }
        let mut applied: Vec<Change> = Vec::new();
        if !installed {
            steps.push(pkg.install);
            applied.push(Change::command("install redis"));
        }
        steps.push(run_checked("systemctl", args3("enable", "--now", pkg.service)));
        applied.push(Change::command("enable redis service"));
        proof {
            let sp = spec_apply(*cfg, p.family, installed, enabled, dry_run);
            assert(steps.deep_view() =~= sp.steps);
            assert(applied.deep_view() =~= sp.report.applied);
        }
        report.applied = applied;
        Plan { steps, report }
    }

    /// Nothing to undo.
    pub fn rollback(&self) -> (r: Vec<Step>)
        ensures
            r@.len() == 0,
    {
        Vec::new()
    }
}


/// Law: a dry run changes nothing and reports as skipped exactly the changes
/// `plan` lists; `check` is compliant exactly when there is nothing to plan;
/// once `check` is compliant, a real apply performs no step and applies
/// nothing.
pub proof fn law_dry_run_reports_plan(cfg: RedisConfig, family: DistroFamily, installed: bool, enabled: bool)
    requires
        cfg.enabled,
        spec_packaging(family) is Some,
    ensures
        spec_apply(cfg, family, installed, enabled, true).steps.len() == 0,
        spec_apply(cfg, family, installed, enabled, true).report.applied.len() == 0,
        spec_apply(cfg, family, installed, enabled, true).report.skipped == command_changes(spec_drift(installed, enabled)),
        spec_check(cfg, family, installed, enabled).state == State::Compliant <==> spec_drift(installed, enabled).len() == 0,
        spec_check(cfg, family, installed, enabled).state == State::Compliant ==> spec_apply(cfg, family, installed, enabled, false).steps.len() == 0
            && spec_apply(cfg, family, installed, enabled, false).report.applied.len() == 0,
{
    if spec_drift(installed, enabled).len() == 0 {
        assert(command_changes(spec_drift(installed, enabled)) =~= Seq::<ChangeV>::empty());
    }
}

} // verus!
