//! Caddy reverse proxy: install Caddy, manage the Caddyfile, reload.
//!
//! Each configured site becomes a Caddyfile block; Caddy obtains and renews
//! certificates for public domains itself, so this one module covers web
//! server, reverse proxy and TLS. Install is distro-aware (Caddy's apt repo on
//! Debian, distro or COPR packages elsewhere). The Caddyfile is snapshotted
//! before each change for rollback.

use vstd::prelude::*;

use crate::action::{
    args2, args3, checked_steps, commands_value, files_after, remove_quiet, run_all_checked,
    run_checked, run_quiet, write_file, Plan, PlanV, Step, StepV,
};
use crate::common::{disable_service, remove_pkg, spec_remove_pkg, spec_with_suffix, with_suffix};
use crate::config::{CaddyConfig, CaddySite, CaddySiteV};
use crate::platform::{DistroFamily, Platform};
use crate::text::{decimal, decimal_string, owned, push_str, str_eq};
use crate::types::{
    command_change, command_changes, commands_of, drift_status, drift_to_status, empty_report, Category,
    Change, ChangeV, Report, ReportV, State, Status, StatusV,
};

verus! {

pub const CADDYFILE: &'static str = "/etc/caddy/Caddyfile";

pub const BACKUP_SUFFIX: &'static str = ".vpsguard.bak";

pub const SERVICE: &'static str = "caddy";

pub const DEB_KEY: &'static str = "curl -1sLf 'https://dl.cloudsmith.io/public/caddy/stable/gpg.key' | gpg --dearmor -o /usr/share/keyrings/caddy-stable-archive-keyring.gpg";

pub const DEB_REPO: &'static str = "curl -1sLf 'https://dl.cloudsmith.io/public/caddy/stable/debian.deb.txt' | tee /etc/apt/sources.list.d/caddy-stable.list";

// ---------------------------------------------------------------------------
// The Caddyfile
// ---------------------------------------------------------------------------

/// One site's block: a reverse proxy when an upstream is set, else a static
/// file server when a root is set, else an empty block.
pub open spec fn site_block(site: CaddySiteV) -> Seq<char> {
    site.domain + " {\n"@ + (match site.reverse_proxy {
        Some(up) => "\treverse_proxy "@ + up + "\n"@,
        None => match site.root {
            Some(root) => "\troot * "@ + root + "\n\tfile_server\n"@,
            None => Seq::empty(),
        },
    }) + "}\n"@
}

/// Every site's block, in order.
pub open spec fn spec_caddyfile(sites: Seq<CaddySiteV>) -> Seq<char>
    decreases sites.len(),
{
    if sites.len() == 0 {
        Seq::empty()
    } else {
        spec_caddyfile(sites.drop_last()) + site_block(sites.last())
    }
}

/// Render a Caddyfile from the configured sites.
pub fn caddyfile(sites: &[CaddySite]) -> (r: String)
    ensures
        r@ == spec_caddyfile(sites.deep_view()),
{
    let ghost sv = sites.deep_view();
    let mut s = String::new();
    let mut i: usize = 0;
    assert(sv.take(0) =~= Seq::<CaddySiteV>::empty());
    while i < sites.len()
        invariant
            i <= sv.len(),
            sv == sites.deep_view(),
            s@ == spec_caddyfile(sv.take(i as int)),
        decreases sv.len() - i,
    {
        let site = &sites[i];
        let ghost before = s@;
        push_str(&mut s, site.domain.as_str());
        push_str(&mut s, " {\n");
        match &site.reverse_proxy {
            Some(up) => {
                push_str(&mut s, "\treverse_proxy ");
                push_str(&mut s, up.as_str());
                push_str(&mut s, "\n");
            },
            None => match &site.root {
                Some(root) => {
                    push_str(&mut s, "\troot * ");
                    push_str(&mut s, root.as_str());
                    push_str(&mut s, "\n\tfile_server\n");
                },
                None => {},
            },
        }
        push_str(&mut s, "}\n");
        proof {
            assert(sv.take(i + 1).drop_last() =~= sv.take(i as int));
            assert(sv[i as int] == site.deep_view());
            assert(s@ =~= before + site_block(sv[i as int]));
        }
        i = i + 1;
    }
    assert(sv.take(i as int) =~= sv);
    s
}

// ---------------------------------------------------------------------------
// Installing
// ---------------------------------------------------------------------------

/// The install commands for a distro; Fedora has Caddy in its own
/// repositories, other RHEL-family distros use the COPR.
pub open spec fn spec_install_plan(family: DistroFamily, id: Seq<char>) -> Option<Seq<(Seq<char>, Seq<Seq<char>>)>> {
    match family {
        DistroFamily::Debian => Some(
            seq![
                (
                    "apt-get"@,
                    seq![
                        "install"@,
                        "-y"@,
                        "debian-keyring"@,
                        "debian-archive-keyring"@,
                        "apt-transport-https"@,
                        "curl"@,
                    ],
                ),
                ("sh"@, seq!["-c"@, DEB_KEY@]),
                ("sh"@, seq!["-c"@, DEB_REPO@]),
                ("apt-get"@, seq!["update"@]),
                ("apt-get"@, seq!["install"@, "-y"@, "caddy"@]),
            ],
        ),
        DistroFamily::Rhel => if id == "fedora"@ {
            Some(seq![("dnf"@, seq!["install"@, "-y"@, "caddy"@])])
        } else {
            Some(
                seq![
                    ("dnf"@, seq!["install"@, "-y"@, "dnf-plugins-core"@]),
                    ("dnf"@, seq!["copr"@, "enable"@, "-y"@, "@caddy/caddy"@]),
                    ("dnf"@, seq!["install"@, "-y"@, "caddy"@]),
                ],
            )
        },
        DistroFamily::Arch => Some(seq![("pacman"@, seq!["-S"@, "--noconfirm"@, "caddy"@])]),
        DistroFamily::Suse => Some(seq![("zypper"@, seq!["install"@, "-y"@, "caddy"@])]),
        DistroFamily::Unknown => None,
    }
}

/// Law: Caddy can be installed on every known distribution family and on no
/// other, and every install plan ends with the command that installs the
/// `caddy` package.
pub proof fn law_install_plan_ends_with_caddy(family: DistroFamily, id: Seq<char>)
    ensures
        spec_install_plan(family, id) is None <==> family == DistroFamily::Unknown,
        spec_install_plan(family, id) matches Some(cmds) ==> cmds.len() > 0 && cmds.last().1.contains(
            "caddy"@,
        ),
{
    match spec_install_plan(family, id) {
        Some(cmds) => {
            let last = cmds.last().1;
            assert(last[last.len() - 1] == "caddy"@);
        },
        None => {},
    }
}

/// Distro-specific Caddy install command sequence, or None when unsupported.
pub fn install_plan(p: &Platform) -> (r: Option<Vec<(&'static str, Vec<&'static str>)>>)
    ensures
        match r {
            Some(cmds) => spec_install_plan(p.family, p.id@) == Some(commands_value(cmds@)),
            None => spec_install_plan(p.family, p.id@) is None,
        },
{
    match p.family {
        DistroFamily::Debian => {
            let v = vec![
                (
                    "apt-get",
                    vec![
                        "install",
                        "-y",
                        "debian-keyring",
                        "debian-archive-keyring",
                        "apt-transport-https",
                        "curl",
                    ],
                ),
                ("sh", vec!["-c", DEB_KEY]),
                ("sh", vec!["-c", DEB_REPO]),
                ("apt-get", vec!["update"]),
                ("apt-get", vec!["install", "-y", "caddy"]),
            ];
            assert(commands_value(v@) =~~= spec_install_plan(p.family, p.id@)->Some_0);
            Some(v)
        },
        DistroFamily::Rhel => {
            if str_eq(p.id.as_str(), "fedora") {
                let v = vec![("dnf", vec!["install", "-y", "caddy"])];
                assert(commands_value(v@) =~~= spec_install_plan(p.family, p.id@)->Some_0);
                Some(v)
            } else {
                let v = vec![
                    ("dnf", vec!["install", "-y", "dnf-plugins-core"]),
                    ("dnf", vec!["copr", "enable", "-y", "@caddy/caddy"]),
                    ("dnf", vec!["install", "-y", "caddy"]),
                ];
                assert(commands_value(v@) =~~= spec_install_plan(p.family, p.id@)->Some_0);
                Some(v)
            }
        },
        DistroFamily::Arch => {
            let v = vec![("pacman", vec!["-S", "--noconfirm", "caddy"])];
            assert(commands_value(v@) =~~= spec_install_plan(p.family, p.id@)->Some_0);
            Some(v)
        },
        DistroFamily::Suse => {
            let v = vec![("zypper", vec!["install", "-y", "caddy"])];
            assert(commands_value(v@) =~~= spec_install_plan(p.family, p.id@)->Some_0);
            Some(v)
        },
        DistroFamily::Unknown => None,
    }
}

// ---------------------------------------------------------------------------
// The module
// ---------------------------------------------------------------------------

/// Caddy reverse-proxy module.
#[derive(Debug, Default)]
pub struct CaddyModule;

/// Where the Caddyfile is snapshotted.
pub open spec fn backup_path() -> Seq<char> {
    spec_with_suffix(CADDYFILE@, BACKUP_SUFFIX@)
}

/// Enabled, has sites, and a known install path.
pub open spec fn spec_ready(cfg: CaddyConfig, family: DistroFamily, id: Seq<char>) -> bool {
    cfg.enabled && cfg.sites@.len() > 0 && spec_install_plan(family, id) is Some
}

/// Drift descriptions. `installed` is whether `caddy version` ran, `current`
/// the Caddyfile (empty when absent), `enabled` whether the service is.
pub open spec fn spec_drift(cfg: CaddyConfig, installed: bool, current: Seq<char>, enabled: bool) -> Seq<Seq<char>> {
    (if !installed {
        seq!["install caddy"@]
    } else {
        Seq::empty()
    }) + (if current != spec_caddyfile(cfg.sites.deep_view()) {
        seq!["configure "@ + decimal(cfg.sites@.len()) + " caddy site(s)"@]
    } else {
        Seq::empty()
    }) + (if !enabled {
        seq!["enable caddy service"@]
    } else {
        Seq::empty()
    })
}

/// `check`.
pub open spec fn spec_check(cfg: CaddyConfig, family: DistroFamily, id: Seq<char>, installed: bool, current: Seq<char>, enabled: bool) -> StatusV {
    if !cfg.enabled {
        StatusV { state: State::NotApplicable, detail: "caddy disabled in config"@ }
    } else if cfg.sites@.len() == 0 {
        StatusV { state: State::NotApplicable, detail: "no caddy sites configured"@ }
    } else if spec_install_plan(family, id) is None {
        StatusV { state: State::NotApplicable, detail: "no caddy install path for this distro"@ }
    } else {
        drift_status(spec_drift(cfg, installed, current, enabled))
    }
}

/// The steps that run first, before the Caddyfile is read again: the
/// install commands, when a real apply has work and Caddy is missing.
pub open spec fn spec_install_steps(
    cfg: CaddyConfig,
    family: DistroFamily,
    id: Seq<char>,
    installed: bool,
    current: Seq<char>,
    enabled: bool,
    dry_run: bool,
) -> Seq<StepV> {
    if spec_ready(cfg, family, id) && spec_drift(cfg, installed, current, enabled).len() > 0 && !dry_run
        && !installed {
        checked_steps(spec_install_plan(family, id)->Some_0)
    } else {
        Seq::empty()
    }
}

/// `apply`: drift and dry runs go by what was found before the apply
/// (`installed`, `current`, `enabled`); the Caddyfile is snapshotted and
/// compared as `after` reads it, once the install steps have run. The steps
/// are those that follow the install steps.
pub open spec fn spec_apply(
    cfg: CaddyConfig,
    family: DistroFamily,
    id: Seq<char>,
    installed: bool,
    current: Seq<char>,
    enabled: bool,
    after: Seq<char>,
    dry_run: bool,
) -> PlanV {
    let drift = spec_drift(cfg, installed, current, enabled);
    if !spec_ready(cfg, family, id) || drift.len() == 0 {
        PlanV { steps: Seq::empty(), report: empty_report("caddy"@, dry_run) }
    } else if dry_run {
        PlanV {
            steps: Seq::empty(),
            report: ReportV {
                module: "caddy"@,
                applied: Seq::empty(),
                skipped: command_changes(drift),
                dry_run,
            },
        }
    } else {
        let want = spec_caddyfile(cfg.sites.deep_view());
        let a1 = if !installed {
            seq![command_change("install caddy"@)]
        } else {
            Seq::empty()
        };
        let (s2, a2) = if after != want {
            (
                seq![
                    StepV::Write { path: backup_path(), body: after },
                    StepV::Write { path: CADDYFILE@, body: want },
                ],
                seq![command_change("write Caddyfile"@)],
            )
        } else {
            (Seq::empty(), Seq::empty())
        };
        PlanV {
            steps: s2 + seq![
                StepV::RunChecked { command: "systemctl"@, args: seq!["enable"@, "--now"@, SERVICE@] },
                StepV::RunChecked { command: "systemctl"@, args: seq!["reload-or-restart"@, SERVICE@] },
            ],
            report: ReportV {
                module: "caddy"@,
                applied: a1 + a2 + seq![command_change("enable and reload caddy"@)],
                skipped: Seq::empty(),
                dry_run,
            },
        }
    }
}

/// `rollback`: put the snapshot back and reload.
pub open spec fn spec_rollback(saved: Option<Seq<char>>) -> Seq<StepV> {
    match saved {
        Some(s) => seq![
            StepV::Write { path: CADDYFILE@, body: s },
            StepV::RemoveQuiet { path: backup_path() },
            StepV::RunQuiet { command: "systemctl"@, args: seq!["reload-or-restart"@, SERVICE@] },
        ],
        None => Seq::empty(),
    }
}

/// `uninstall`.
pub open spec fn spec_uninstall(family: DistroFamily, purge: bool) -> PlanV {
    let base = seq![
        StepV::RunQuiet { command: "systemctl"@, args: seq!["disable"@, "--now"@, SERVICE@] },
        StepV::RemoveQuiet { path: CADDYFILE@ },
    ] + match spec_remove_pkg(family, "caddy"@, purge) {
        Some(s) => seq![s],
        None => Seq::empty(),
    };
    let removed = seq![command_change("remove caddy"@)];
    if purge {
        PlanV {
            steps: base.push(StepV::RunQuiet { command: "rm"@, args: seq!["-rf"@, "/var/lib/caddy"@] }),
            report: ReportV {
                module: "caddy"@,
                applied: removed.push(command_change("purge caddy data"@)),
                skipped: Seq::empty(),
                dry_run: false,
            },
        }
    } else {
        PlanV {
            steps: base,
            report: ReportV { module: "caddy"@, applied: removed, skipped: Seq::empty(), dry_run: false },
        }
    }
}

fn drift_of(cfg: &CaddyConfig, installed: bool, current: &str, enabled: bool) -> (r: Vec<String>)
    ensures
        r.deep_view() == spec_drift(*cfg, installed, current@, enabled),
{
    let mut drift: Vec<String> = Vec::new();
    if !installed {
        drift.push(owned("install caddy"));
    }
    let ghost d1 = drift.deep_view();
    let want = caddyfile(cfg.sites.as_slice());
    if !str_eq(current, want.as_str()) {
        let mut m = owned("configure ");
        let n = decimal_string(cfg.sites.len() as u64);
        push_str(&mut m, n.as_str());
        push_str(&mut m, " caddy site(s)");
        drift.push(m);
    }
    let ghost d2 = drift.deep_view();
    if !enabled {
        drift.push(owned("enable caddy service"));
    }
    assert(drift.deep_view() =~= spec_drift(*cfg, installed, current@, enabled));
    drift
}

impl CaddyModule {
    pub fn name(&self) -> (r: &'static str)
        ensures
            r@ == "caddy"@,
    {
        "caddy"
    }

    pub fn summary(&self) -> (r: &'static str)
        ensures
            r@ == "Install Caddy reverse proxy with automatic HTTPS"@,
    {
        "Install Caddy reverse proxy with automatic HTTPS"
    }

    pub fn category(&self) -> (r: Category)
        ensures
            r == Category::Network,
    {
        Category::Network
    }

    /// Enabled, has sites, and a known install path.
    pub fn ready(&self, cfg: &CaddyConfig, p: &Platform) -> (r: bool)
        ensures
            r == spec_ready(*cfg, p.family, p.id@),
    {
        cfg.enabled && cfg.sites.len() > 0 && install_plan(p).is_some()
    }

    /// Report drift. Read-only.
    pub fn check(&self, cfg: &CaddyConfig, p: &Platform, installed: bool, current: &str, enabled: bool) -> (r: Status)
        ensures
            r.deep_view() == spec_check(*cfg, p.family, p.id@, installed, current@, enabled),
    {
        if !cfg.enabled {
            return Status::not_applicable("caddy disabled in config");
        }
        if cfg.sites.len() == 0 {
            return Status::not_applicable("no caddy sites configured");
        }
        if install_plan(p).is_none() {
            return Status::not_applicable("no caddy install path for this distro");
        }
        let drift = drift_of(cfg, installed, current, enabled);
        drift_to_status(&drift)
    }

    /// The changes `apply` would make.
    pub fn plan(&self, cfg: &CaddyConfig, p: &Platform, installed: bool, current: &str, enabled: bool) -> (r: Vec<Change>)
        ensures
            r.deep_view() == (if spec_ready(*cfg, p.family, p.id@) {
                command_changes(spec_drift(*cfg, installed, current@, enabled))
            } else {
                Seq::<ChangeV>::empty()
            }),
    {
        if !self.ready(cfg, p) {
            let none: Vec<Change> = Vec::new();
            assert(none.deep_view() =~= Seq::<ChangeV>::empty());
            return none;
        }
        let drift = drift_of(cfg, installed, current, enabled);
        commands_of(&drift)
    }

    /// The steps to run first, before the Caddyfile is read again: the
    /// install commands, when a real apply has work and Caddy is missing.
    pub fn install_steps(
        &self,
        cfg: &CaddyConfig,
        p: &Platform,
        installed: bool,
        current: &str,
        enabled: bool,
        dry_run: bool,
    ) -> (r: Vec<Step>)
        ensures
            r.deep_view() == spec_install_steps(*cfg, p.family, p.id@, installed, current@, enabled, dry_run),
    {
        let none: Vec<Step> = Vec::new();
        assert(none.deep_view() =~= Seq::<StepV>::empty());
        if dry_run || installed || !self.ready(cfg, p) {
            return none;
        }
        let cmds = match install_plan(p) {
            Some(c) => c,
            None => return none,
        };
        let drift = drift_of(cfg, installed, current, enabled);
        if drift.len() == 0 {
            return none;
        }
        run_all_checked(&cmds)
    }

    /// Decide how to converge. `installed`, `current` and `enabled` are what
    /// was found before the apply, `after` the Caddyfile as read once
    /// [`Self::install_steps`] have run (the same as `current` when there
    /// were none); the plan's steps follow the install steps.
    pub fn apply(
        &self,
        cfg: &CaddyConfig,
        p: &Platform,
        installed: bool,
        current: &str,
        enabled: bool,
        after: &str,
        dry_run: bool,
    ) -> (r: Plan)
        ensures
            r.deep_view() == spec_apply(*cfg, p.family, p.id@, installed, current@, enabled, after@, dry_run),
    {
        let mut report = Report::new("caddy", dry_run);
        let mut steps: Vec<Step> = Vec::new();
        assert(steps.deep_view() =~= Seq::<StepV>::empty());
        if !self.ready(cfg, p) {
            return Plan { steps, report };
        }
        let drift = drift_of(cfg, installed, current, enabled);
        if drift.len() == 0 {
            return Plan { steps, report };
        }
        if dry_run {
            report.skipped = commands_of(&drift);
            return Plan { steps, report };
        }
        let mut applied: Vec<Change> = Vec::new();
        if !installed {
            applied.push(Change::command("install caddy"));
        }
        let want = caddyfile(cfg.sites.as_slice());
        if !str_eq(after, want.as_str()) {
            let backup = with_suffix(CADDYFILE, BACKUP_SUFFIX);
            steps.push(write_file(backup.as_str(), after));
            steps.push(write_file(CADDYFILE, want.as_str()));
            applied.push(Change::command("write Caddyfile"));
        }
        steps.push(run_checked("systemctl", args3("enable", "--now", SERVICE)));
        steps.push(run_checked("systemctl", args2("reload-or-restart", SERVICE)));
        applied.push(Change::command("enable and reload caddy"));
        proof {
            let sp = spec_apply(*cfg, p.family, p.id@, installed, current@, enabled, after@, dry_run);
            assert(steps.deep_view() =~= sp.steps);
            assert(applied.deep_view() =~= sp.report.applied);
        }
        report.applied = applied;
        Plan { steps, report }
    }

    /// Restore the snapshotted Caddyfile, if there is one.
    pub fn rollback(&self, saved: &Option<String>) -> (r: Vec<Step>)
        ensures
            r.deep_view() == spec_rollback(saved.deep_view()),
    {
        let mut steps: Vec<Step> = Vec::new();
        match saved {
            Some(s) => {
                let backup = with_suffix(CADDYFILE, BACKUP_SUFFIX);
                steps.push(write_file(CADDYFILE, s.as_str()));
                steps.push(remove_quiet(backup.as_str()));
                steps.push(run_quiet("systemctl", args2("reload-or-restart", SERVICE)));
            },
            None => {},
        }
        assert(steps.deep_view() =~= spec_rollback(saved.deep_view()));
        steps
    }

    /// Remove Caddy; with `purge`, also its certificates and site data.
    pub fn uninstall(&self, p: &Platform, purge: bool) -> (r: Plan)
        ensures
            r.deep_view() == spec_uninstall(p.family, purge),
    {
        let mut report = Report::new("caddy", false);
        let mut steps: Vec<Step> = Vec::new();
        steps.push(disable_service(SERVICE));
        steps.push(remove_quiet(CADDYFILE));
        match remove_pkg(p, "caddy", purge) {
            Some(s) => steps.push(s),
            None => {},
        }
        let mut applied: Vec<Change> = Vec::new();
        applied.push(Change::command("remove caddy"));
        if purge {
            steps.push(run_quiet("rm", args2("-rf", "/var/lib/caddy")));
            applied.push(Change::command("purge caddy data"));
        }
        proof {
            let sp = spec_uninstall(p.family, purge);
            assert(steps.deep_view() =~= sp.steps);
            assert(applied.deep_view() =~= sp.report.applied);
        }
        report.applied = applied;
        Plan { steps, report }
    }
}


/// Law: rollback restores the Caddyfile. Run an apply that rewrote the
/// Caddyfile found after the install, then the rollback of the snapshot it
/// left: the Caddyfile holds what it held before, and the snapshot is gone.
pub proof fn law_rollback_restores_snapshot(
    cfg: CaddyConfig,
    family: DistroFamily,
    id: Seq<char>,
    installed: bool,
    current: Seq<char>,
    enabled: bool,
    files: Map<Seq<char>, Seq<char>>,
)
    requires
        spec_ready(cfg, family, id),
        spec_drift(cfg, installed, current, enabled).len() > 0,
        files.dom().contains(CADDYFILE@),
        files[CADDYFILE@] != spec_caddyfile(cfg.sites.deep_view()),
    ensures
        ({
            let after = files[CADDYFILE@];
            let applied = files_after(
                files,
                spec_apply(cfg, family, id, installed, current, enabled, after, false).steps,
            );
            let restored = files_after(applied, spec_rollback(Some(applied[backup_path()])));
            &&& applied[CADDYFILE@] == spec_caddyfile(cfg.sites.deep_view())
            &&& applied.dom().contains(backup_path())
            &&& restored[CADDYFILE@] == after
            &&& !restored.dom().contains(backup_path())
        }),
{
    reveal_strlit(".vpsguard.bak");
    let c = CADDYFILE@;
    let b = backup_path();
    assert(b.len() == c.len() + 13);
    assert(b != c);
    let after = files[c];
    let want = spec_caddyfile(cfg.sites.deep_view());
    let steps = spec_apply(cfg, family, id, installed, current, enabled, after, false).steps;
    reveal_with_fuel(files_after, 5);
    let f = files.insert(b, after).insert(c, want);
    assert(files_after(files, steps) == f);
    let g = f.insert(c, after).remove(b);
    assert(files_after(f, spec_rollback(Some(after))) == g);
}

/// Law: a dry run changes nothing and reports as skipped exactly the changes
/// `plan` lists; `check` is compliant exactly when there is nothing to plan;
/// once `check` is compliant, a real apply installs nothing, performs no
/// step and applies nothing, whatever is read after the install steps.
pub proof fn law_dry_run_reports_plan(cfg: CaddyConfig, family: DistroFamily, id: Seq<char>, installed: bool, current: Seq<char>, enabled: bool, after: Seq<char>)
    requires
        spec_ready(cfg, family, id),
    ensures
        spec_install_steps(cfg, family, id, installed, current, enabled, true).len() == 0,
        spec_apply(cfg, family, id, installed, current, enabled, after, true).steps.len() == 0,
        spec_apply(cfg, family, id, installed, current, enabled, after, true).report.applied.len() == 0,
        spec_apply(cfg, family, id, installed, current, enabled, after, true).report.skipped == command_changes(
            spec_drift(cfg, installed, current, enabled),
        ),
        spec_check(cfg, family, id, installed, current, enabled).state == State::Compliant <==> spec_drift(
            cfg,
            installed,
            current,
            enabled,
        ).len() == 0,
        spec_check(cfg, family, id, installed, current, enabled).state == State::Compliant ==> spec_install_steps(
            cfg,
            family,
            id,
            installed,
            current,
            enabled,
            false,
        ).len() == 0 && spec_apply(cfg, family, id, installed, current, enabled, after, false).steps.len() == 0
            && spec_apply(cfg, family, id, installed, current, enabled, after, false).report.applied.len() == 0,
{
    if spec_drift(cfg, installed, current, enabled).len() == 0 {
        assert(command_changes(spec_drift(cfg, installed, current, enabled)) =~= Seq::<ChangeV>::empty());
    }
}

} // verus!
