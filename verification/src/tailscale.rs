//! Tailscale: install the client and join the tailnet.
//!
//! Installs Tailscale with the official cross-distro script, enables the
//! daemon and runs `tailscale up` (optionally with a pre-auth key and
//! Tailscale SSH). Opt-in. The auth key is a secret: it goes on the command
//! line only, never into a plan or report.

use vstd::prelude::*;

use crate::action::{args1, args2, args3, run_checked, run_quiet, Plan, PlanV, Step, StepV};
use crate::common::{disable_service, remove_pkg, spec_remove_pkg};
use crate::config::TailscaleConfig;
use crate::platform::{DistroFamily, Platform};
use crate::text::{contains, owned, push_str, str_contains};
use crate::types::{
    command_change, command_changes, commands_of, drift_status, drift_to_status, empty_report, Category,
    Change, ChangeV, Output, Report, ReportV, State, Status, StatusV,
};

verus! {

pub const SERVICE: &'static str = "tailscaled";

pub const INSTALL: &'static str = "curl -fsSL https://tailscale.com/install.sh | sh";

/// The `tailscale up` arguments: the auth key and Tailscale SSH when set.
pub open spec fn spec_up_args(auth_key: Option<Seq<char>>, ssh: bool) -> Seq<Seq<char>> {
    let base = seq!["up"@];
    let with_key = match auth_key {
        Some(key) => base.push("--authkey="@ + key),
        None => base,
    };
    if ssh {
        with_key.push("--ssh"@)
    } else {
        with_key
    }
}

/// Build the `tailscale up` argument list. The auth key, if any, is included,
/// so callers must not log the result.
pub fn up_args(cfg: &TailscaleConfig) -> (r: Vec<String>)
    ensures
        r.deep_view() == spec_up_args(cfg.auth_key.deep_view(), cfg.ssh),
{
    let mut args: Vec<String> = Vec::new();
    args.push(owned("up"));
    let ghost a0 = args.deep_view();
    match &cfg.auth_key {
        Some(key) => {
            let mut k = owned("--authkey=");
            push_str(&mut k, key.as_str());
            args.push(k);
        },
        None => {},
    }
    let ghost a1 = args.deep_view();
    if cfg.ssh {
        args.push(owned("--ssh"));
    }
    assert(args.deep_view() =~= spec_up_args(cfg.auth_key.deep_view(), cfg.ssh));
    args
}

/// The node is up: `tailscale status` ran, exited 0 and does not say
/// `Logged out`.
pub fn is_up(status: &Option<Output>) -> (r: bool)
    ensures
        r == (status matches Some(o) && o.code == 0 && !contains(o.stdout@, "Logged out"@)),
{
    match status {
        Some(o) => o.success() && !str_contains(o.stdout.as_str(), "Logged out"),
        None => false,
    }
}

/// Tailscale module.
#[derive(Debug, Default)]
pub struct TailscaleModule;

/// Drift descriptions.
pub open spec fn spec_drift(installed: bool, up: bool) -> Seq<Seq<char>> {
    (if !installed {
        seq!["install tailscale"@]
    } else {
        Seq::empty()
    }) + (if !up {
        seq!["tailscale up"@]
    } else {
        Seq::empty()
    })
}

/// `apply`.
pub open spec fn spec_apply(enabled: bool, auth_key: Option<Seq<char>>, ssh: bool, installed: bool, up: bool, dry_run: bool) -> PlanV {
    let drift = spec_drift(installed, up);
    if !enabled || drift.len() == 0 {
        PlanV { steps: Seq::empty(), report: empty_report("tailscale"@, dry_run) }
    } else if dry_run {
        PlanV {
            steps: Seq::empty(),
            report: ReportV {
                module: "tailscale"@,
                applied: Seq::empty(),
                skipped: command_changes(drift),
                dry_run,
            },
        }
    } else {
        let (s1, a1) = if !installed {
            (
                seq![StepV::RunChecked { command: "sh"@, args: seq!["-c"@, INSTALL@] }],
                seq![command_change("install tailscale"@)],
            )
        } else {
            (Seq::empty(), Seq::empty())
        };
        PlanV {
            steps: s1 + seq![
                StepV::RunChecked { command: "systemctl"@, args: seq!["enable"@, "--now"@, SERVICE@] },
                StepV::RunChecked { command: "tailscale"@, args: spec_up_args(auth_key, ssh) },
            ],
            report: ReportV {
                module: "tailscale"@,
                applied: a1.push(command_change("tailscale up"@)),
                skipped: Seq::empty(),
                dry_run,
            },
        }
    }
}

/// `uninstall`.
pub open spec fn spec_uninstall(family: DistroFamily, purge: bool) -> PlanV {
    let base = seq![
        StepV::RunQuiet { command: "tailscale"@, args: seq!["down"@] },
        StepV::RunQuiet { command: "systemctl"@, args: seq!["disable"@, "--now"@, SERVICE@] },
    ] + match spec_remove_pkg(family, "tailscale"@, purge) {
        Some(s) => seq![s],
        None => Seq::empty(),
    };
    let removed = seq![command_change("remove tailscale"@)];
    if purge {
        PlanV {
            steps: base.push(StepV::RunQuiet { command: "rm"@, args: seq!["-rf"@, "/var/lib/tailscale"@] }),
            report: ReportV {
                module: "tailscale"@,
                applied: removed.push(command_change("purge tailscale state"@)),
                skipped: Seq::empty(),
                dry_run: false,
            },
        }
    } else {
        PlanV {
            steps: base,
            report: ReportV { module: "tailscale"@, applied: removed, skipped: Seq::empty(), dry_run: false },
        }
    }
}

fn drift_of(installed: bool, up: bool) -> (r: Vec<String>)
    ensures
        r.deep_view() == spec_drift(installed, up),
{
    let mut drift: Vec<String> = Vec::new();
    if !installed {
        drift.push(owned("install tailscale"));
    }
    if !up {
        drift.push(owned("tailscale up"));
    }
    assert(drift.deep_view() =~= spec_drift(installed, up));
    drift
}

impl TailscaleModule {
    pub fn name(&self) -> (r: &'static str)
        ensures
            r@ == "tailscale"@,
    {
        "tailscale"
    }

    pub fn summary(&self) -> (r: &'static str)
        ensures
            r@ == "Install Tailscale and join the tailnet"@,
    {
        "Install Tailscale and join the tailnet"
    }

    pub fn category(&self) -> (r: Category)
        ensures
            r == Category::Network,
    {
        Category::Network
    }

    /// Report drift: `installed` is whether `tailscale version` ran, `up`
    /// what [`is_up`] made of `tailscale status`. Read-only.
    pub fn check(&self, cfg: &TailscaleConfig, installed: bool, up: bool) -> (r: Status)
        ensures
            r.deep_view() == (if !cfg.enabled {
                StatusV { state: State::NotApplicable, detail: "tailscale disabled in config"@ }
            } else {
                drift_status(spec_drift(installed, up))
            }),
    {
        if !cfg.enabled {
            return Status::not_applicable("tailscale disabled in config");
        }
        let drift = drift_of(installed, up);
        drift_to_status(&drift)
    }

    /// The changes `apply` would make.
    pub fn plan(&self, cfg: &TailscaleConfig, installed: bool, up: bool) -> (r: Vec<Change>)
        ensures
            r.deep_view() == (if !cfg.enabled {
                Seq::<ChangeV>::empty()
            } else {
                command_changes(spec_drift(installed, up))
            }),
    {
        if !cfg.enabled {
            let none: Vec<Change> = Vec::new();
            assert(none.deep_view() =~= Seq::<ChangeV>::empty());
            return none;
        }
        let drift = drift_of(installed, up);
        commands_of(&drift)
    }

    /// Decide how to install Tailscale and bring the node up.
    pub fn apply(&self, cfg: &TailscaleConfig, installed: bool, up: bool, dry_run: bool) -> (r: Plan)
        ensures
            r.deep_view() == spec_apply(cfg.enabled, cfg.auth_key.deep_view(), cfg.ssh, installed, up, dry_run),
    {
        let mut report = Report::new("tailscale", dry_run);
        let mut steps: Vec<Step> = Vec::new();
        assert(steps.deep_view() =~= Seq::<StepV>::empty());
        if !cfg.enabled {
            return Plan { steps, report };
        }
        let drift = drift_of(installed, up);
        if drift.len() == 0 {
            return Plan { steps, report };
        }
        if dry_run {
            report.skipped = commands_of(&drift);
            return Plan { steps, report };
        }
        let mut applied: Vec<Change> = Vec::new();
        if !installed {
            steps.push(run_checked("sh", args2("-c", INSTALL)));
            applied.push(Change::command("install tailscale"));
        }
        steps.push(run_checked("systemctl", args3("enable", "--now", SERVICE)));
        steps.push(run_checked("tailscale", up_args(cfg)));
        applied.push(Change::command("tailscale up"));
        proof {
            let sp = spec_apply(cfg.enabled, cfg.auth_key.deep_view(), cfg.ssh, installed, up, dry_run);
            assert(steps.deep_view() =~= sp.steps);
            assert(applied.deep_view() =~= sp.report.applied);
        }
        report.applied = applied;
        Plan { steps, report }
    }

    /// Leave the tailnet.
    pub fn rollback(&self) -> (r: Vec<Step>)
        ensures
            r.deep_view() == seq![StepV::RunQuiet { command: "tailscale"@, args: seq!["down"@] }],
    {
        let mut steps: Vec<Step> = Vec::new();
        steps.push(run_quiet("tailscale", args1("down")));
        assert(steps.deep_view() =~= seq![StepV::RunQuiet { command: "tailscale"@, args: seq!["down"@] }]);
        steps
    }

    /// Leave the tailnet and remove Tailscale; with `purge`, also its state.
    pub fn uninstall(&self, p: &Platform, purge: bool) -> (r: Plan)
        ensures
            r.deep_view() == spec_uninstall(p.family, purge),
    {
        let mut report = Report::new("tailscale", false);
        let mut steps: Vec<Step> = Vec::new();
        steps.push(run_quiet("tailscale", args1("down")));
        steps.push(disable_service(SERVICE));
        match remove_pkg(p, "tailscale", purge) {
            Some(s) => steps.push(s),
            None => {},
        }
        let mut applied: Vec<Change> = Vec::new();
        applied.push(Change::command("remove tailscale"));
        if purge {
            steps.push(run_quiet("rm", args2("-rf", "/var/lib/tailscale")));
            applied.push(Change::command("purge tailscale state"));
        }
        proof {
            let sp = spec_uninstall(p.family, purge);
            assert(steps.deep_view() =~= sp.steps);
            assert(applied.deep_view() =~= sp.report.applied);
        }
        report.applied = applied;
        Plan { steps, report }
    }
}

/// Law: the auth key never reaches a plan or report — two configurations
/// that differ only in their key give the same report.
pub proof fn law_auth_key_not_reported(
    enabled: bool,
    key1: Option<Seq<char>>,
    key2: Option<Seq<char>>,
    ssh: bool,
    installed: bool,
    up: bool,
    dry_run: bool,
)
    ensures
        spec_apply(enabled, key1, ssh, installed, up, dry_run).report == spec_apply(
            enabled,
            key2,
            ssh,
            installed,
            up,
            dry_run,
        ).report,
{
}


/// Law: a dry run changes nothing and reports as skipped exactly the changes
/// `plan` lists; the status is compliant exactly when there is nothing to
/// plan, and then a real apply performs no step and applies nothing.
pub proof fn law_dry_run_reports_plan(auth_key: Option<Seq<char>>, ssh: bool, installed: bool, up: bool)
    ensures
        drift_status(spec_drift(installed, up)).state == State::Compliant <==> spec_drift(installed, up).len() == 0,
        spec_drift(installed, up).len() == 0 ==> spec_apply(true, auth_key, ssh, installed, up, false).steps.len()
            == 0 && spec_apply(true, auth_key, ssh, installed, up, false).report.applied.len() == 0,
        spec_apply(true, auth_key, ssh, installed, up, true).steps.len() == 0,
        spec_apply(true, auth_key, ssh, installed, up, true).report.applied.len() == 0,
        spec_apply(true, auth_key, ssh, installed, up, true).report.skipped == command_changes(spec_drift(installed, up)),
{
    if spec_drift(installed, up).len() == 0 {
        assert(command_changes(spec_drift(installed, up)) =~= Seq::<ChangeV>::empty());
    }
}

} // verus!
