//! fail2ban: install, configure jails, enable the service.
//!
//! A managed drop-in at /etc/fail2ban/jail.d/vpsguard.local enables the configured
//! jails (the sshd jail tracks the configured SSH port); the package comes
//! from the host package manager and the service is enabled. Package query
//! and install are distro-aware; the jail file and service are the same on
//! every distro.

use vstd::prelude::*;

use crate::action::{args2, args3, remove_quiet, run, run_checked, run_quiet, write_file, Plan, PlanV, Step, StepV};
use crate::common::{disable_service, remove_pkg, spec_remove_pkg};
use crate::config::Fail2banConfig;
use crate::platform::{DistroFamily, Platform};
use crate::text::{decimal, decimal_string, has_prefix, occurs_at, owned, push_str, str_eq};
use crate::types::{
    command_change, command_changes, commands_of, drift_status, drift_to_status, empty_report, Category,
    Change, ChangeV, Report, ReportV, State, Status, StatusV,
};

verus! {

/// The managed jail drop-in.
pub const JAIL_FILE: &'static str = "/etc/fail2ban/jail.d/vpsguard.local";

/// The systemd unit.
pub const SERVICE: &'static str = "fail2ban";

// ---------------------------------------------------------------------------
// The jail file
// ---------------------------------------------------------------------------

/// One jail's section; the sshd jail also gets the SSH port.
pub open spec fn jail_section(jail: Seq<char>, ssh_port: u16) -> Seq<char> {
    "\n["@ + jail + "]\nenabled = true\n"@ + (if jail == "sshd"@ {
        "port = "@ + decimal(ssh_port as nat) + "\n"@
    } else {
        Seq::empty()
    })
}

/// Every jail's section, in order.
pub open spec fn jail_sections(jails: Seq<Seq<char>>, ssh_port: u16) -> Seq<char>
    decreases jails.len(),
{
    if jails.len() == 0 {
        Seq::empty()
    } else {
        jail_sections(jails.drop_last(), ssh_port) + jail_section(jails.last(), ssh_port)
    }
}

/// The jail drop-in: a `[DEFAULT]` section with the bantime and maxretry
/// that are set, then one section per jail.
pub open spec fn spec_jail_config(cfg: Fail2banConfig, ssh_port: u16) -> Seq<char> {
    "[DEFAULT]\n"@ + (match cfg.bantime.deep_view() {
        Some(b) => "bantime = "@ + b + "\n"@,
        None => Seq::empty(),
    }) + (match cfg.maxretry {
        Some(m) => "maxretry = "@ + decimal(m as nat) + "\n"@,
        None => Seq::empty(),
    }) + jail_sections(cfg.jails.deep_view(), ssh_port)
}

/// Render the managed jail drop-in. The sshd jail tracks the SSH port.
pub fn jail_config(cfg: &Fail2banConfig, ssh_port: u16) -> (r: String)
    ensures
        r@ == spec_jail_config(*cfg, ssh_port),
{
    let mut s = owned("[DEFAULT]\n");
    match &cfg.bantime {
        Some(b) => {
            push_str(&mut s, "bantime = ");
            push_str(&mut s, b.as_str());
            push_str(&mut s, "\n");
        },
        None => {},
    }
    match cfg.maxretry {
        Some(m) => {
            push_str(&mut s, "maxretry = ");
            let n = decimal_string(m as u64);
            push_str(&mut s, n.as_str());
            push_str(&mut s, "\n");
        },
        None => {},
    }
    let ghost head = s@;
    let ghost js = cfg.jails.deep_view();
    let mut i: usize = 0;
    assert(s@ =~= head + jail_sections(js.take(0), ssh_port));
    while i < cfg.jails.len()
        invariant
            i <= js.len(),
            js == cfg.jails.deep_view(),
            s@ == head + jail_sections(js.take(i as int), ssh_port),
        decreases js.len() - i,
    {
        let jail = cfg.jails[i].as_str();
        let ghost before = s@;
        push_str(&mut s, "\n[");
        push_str(&mut s, jail);
        push_str(&mut s, "]\nenabled = true\n");
        if str_eq(jail, "sshd") {
            push_str(&mut s, "port = ");
            let n = decimal_string(ssh_port as u64);
            push_str(&mut s, n.as_str());
            push_str(&mut s, "\n");
        }
        proof {
            assert(js.take(i + 1).drop_last() =~= js.take(i as int));
            assert(s@ =~= before + jail_section(js[i as int], ssh_port));
        }
        i = i + 1;
    }
    proof {
        assert(js.take(i as int) =~= js);
    }
    s
}

// ---------------------------------------------------------------------------
// Packages
// ---------------------------------------------------------------------------

/// Distro-specific package query and install commands.
#[derive(Debug, Clone)]
pub struct PackageOps {
    /// Exits 0 when fail2ban is installed.
    pub query: Step,
    /// Installs fail2ban.
    pub install: Step,
}

/// The query and install commands for a distro family.
pub open spec fn spec_package_ops(family: DistroFamily) -> Option<(StepV, StepV)> {
    match family {
        DistroFamily::Debian => Some(
            (
                StepV::Run { command: "dpkg"@, args: seq!["-s"@, "fail2ban"@] },
                StepV::RunChecked { command: "apt-get"@, args: seq!["install"@, "-y"@, "fail2ban"@] },
            ),
        ),
        DistroFamily::Rhel => Some(
            (
                StepV::Run { command: "rpm"@, args: seq!["-q"@, "fail2ban"@] },
                StepV::RunChecked { command: "dnf"@, args: seq!["install"@, "-y"@, "fail2ban"@] },
            ),
        ),
        DistroFamily::Arch => Some(
            (
                StepV::Run { command: "pacman"@, args: seq!["-Q"@, "fail2ban"@] },
                StepV::RunChecked {
                    command: "pacman"@,
                    args: seq!["-S"@, "--noconfirm"@, "fail2ban"@],
                },
            ),
        ),
        DistroFamily::Suse => Some(
            (
                StepV::Run { command: "rpm"@, args: seq!["-q"@, "fail2ban"@] },
                StepV::RunChecked { command: "zypper"@, args: seq!["install"@, "-y"@, "fail2ban"@] },
            ),
        ),
        DistroFamily::Unknown => None,
    }
}

impl PackageOps {
    /// The commands for this host, or `None` without a known package manager.
    pub fn for_host(platform: &Platform) -> (r: Option<PackageOps>)
        ensures
            match r {
                Some(ops) => spec_package_ops(platform.family) == Some(
                    (ops.query.deep_view(), ops.install.deep_view()),
                ),
                None => spec_package_ops(platform.family) is None,
            },
    {
        match platform.family {
            DistroFamily::Debian => Some(
                PackageOps {
                    query: run("dpkg", args2("-s", "fail2ban")),
                    install: run_checked("apt-get", args3("install", "-y", "fail2ban")),
                },
            ),
            DistroFamily::Rhel => Some(
                PackageOps {
                    query: run("rpm", args2("-q", "fail2ban")),
                    install: run_checked("dnf", args3("install", "-y", "fail2ban")),
                },
            ),
            DistroFamily::Arch => Some(
                PackageOps {
                    query: run("pacman", args2("-Q", "fail2ban")),
                    install: run_checked("pacman", args3("-S", "--noconfirm", "fail2ban")),
                },
            ),
            DistroFamily::Suse => Some(
                PackageOps {
                    query: run("rpm", args2("-q", "fail2ban")),
                    install: run_checked("zypper", args3("install", "-y", "fail2ban")),
                },
            ),
            DistroFamily::Unknown => None,
        }
    }
}

// ---------------------------------------------------------------------------
// The module
// ---------------------------------------------------------------------------

/// fail2ban module.
#[derive(Debug, Default)]
pub struct Fail2banModule;

/// What was found on the host: whether the package query succeeded, the jail
/// drop-in (empty when absent), and whether the service is enabled.
#[derive(Debug, Clone)]
pub struct Fail2banState {
    pub installed: bool,
    pub jail_file: String,
    pub service_enabled: bool,
}

/// Drift descriptions.
pub open spec fn spec_drift(cfg: Fail2banConfig, ssh_port: u16, installed: bool, jail_file: Seq<char>, enabled: bool) -> Seq<Seq<char>> {
    (if !installed {
        seq!["install fail2ban"@]
    } else {
        Seq::empty()
    }) + (if jail_file != spec_jail_config(cfg, ssh_port) {
        seq!["configure fail2ban jails"@]
    } else {
        Seq::empty()
    }) + (if !enabled {
        seq!["enable fail2ban service"@]
    } else {
        Seq::empty()
    })
}

/// `check`.
pub open spec fn spec_check(cfg: Fail2banConfig, ssh_port: u16, family: DistroFamily, installed: bool, jail_file: Seq<char>, enabled: bool) -> StatusV {
    if !cfg.enabled {
        StatusV { state: State::NotApplicable, detail: "fail2ban disabled in config"@ }
    } else if spec_package_ops(family) is None {
        StatusV { state: State::NotApplicable, detail: "no package manager for this distro"@ }
    } else {
        drift_status(spec_drift(cfg, ssh_port, installed, jail_file, enabled))
    }
}

/// `apply`.
pub open spec fn spec_apply(
    cfg: Fail2banConfig,
    ssh_port: u16,
    family: DistroFamily,
    installed: bool,
    jail_file: Seq<char>,
    enabled: bool,
    dry_run: bool,
) -> PlanV {
    let drift = spec_drift(cfg, ssh_port, installed, jail_file, enabled);
    if !cfg.enabled || spec_package_ops(family) is None || drift.len() == 0 {
        PlanV { steps: Seq::empty(), report: empty_report("fail2ban"@, dry_run) }
    } else if dry_run {
        PlanV {
            steps: Seq::empty(),
            report: ReportV {
                module: "fail2ban"@,
                applied: Seq::empty(),
                skipped: command_changes(drift),
                dry_run,
            },
        }
    } else {
        let want = spec_jail_config(cfg, ssh_port);
        let (s1, a1) = if !installed {
            (seq![spec_package_ops(family)->Some_0.1], seq![command_change("install fail2ban"@)])
        } else {
            (Seq::empty(), Seq::empty())
        };
        let (s2, a2) = if jail_file != want {
            (
                seq![StepV::Write { path: JAIL_FILE@, body: want }],
                seq![command_change("write fail2ban jails"@)],
            )
        } else {
            (Seq::empty(), Seq::empty())
        };
        PlanV {
            steps: s1 + s2 + seq![
                StepV::RunChecked { command: "systemctl"@, args: seq!["enable"@, "--now"@, SERVICE@] },
                StepV::RunChecked { command: "systemctl"@, args: seq!["reload-or-restart"@, SERVICE@] },
            ],
            report: ReportV {
                module: "fail2ban"@,
                applied: a1 + a2 + seq![command_change("enable and reload fail2ban"@)],
                skipped: Seq::empty(),
                dry_run,
            },
        }
    }
}

/// `uninstall`: stop the service, drop the jail file and the package; with
/// `purge`, also the ban database.
pub open spec fn spec_uninstall(family: DistroFamily, purge: bool) -> PlanV {
    let base = seq![
        StepV::RunQuiet { command: "systemctl"@, args: seq!["disable"@, "--now"@, SERVICE@] },
        StepV::RemoveQuiet { path: JAIL_FILE@ },
    ] + match spec_remove_pkg(family, "fail2ban"@, purge) {
        Some(s) => seq![s],
        None => Seq::empty(),
    };
    if purge {
        PlanV {
            steps: base.push(StepV::RunQuiet { command: "rm"@, args: seq!["-rf"@, "/var/lib/fail2ban"@] }),
            report: ReportV {
                module: "fail2ban"@,
                applied: seq![command_change("remove fail2ban"@), command_change("purge fail2ban data"@)],
                skipped: Seq::empty(),
                dry_run: false,
            },
        }
    } else {
        PlanV {
            steps: base,
            report: ReportV {
                module: "fail2ban"@,
                applied: seq![command_change("remove fail2ban"@)],
                skipped: Seq::empty(),
                dry_run: false,
            },
        }
    }
}

impl Fail2banModule {
    pub fn name(&self) -> (r: &'static str)
        ensures
            r@ == "fail2ban"@,
    {
        "fail2ban"
    }

    pub fn summary(&self) -> (r: &'static str)
        ensures
            r@ == "Install fail2ban and enable jails (sshd by default)"@,
    {
        "Install fail2ban and enable jails (sshd by default)"
    }

    pub fn category(&self) -> (r: Category)
        ensures
            r == Category::Security,
    {
        Category::Security
    }

    fn drift(cfg: &Fail2banConfig, ssh_port: u16, st: &Fail2banState) -> (r: Vec<String>)
        ensures
            r.deep_view() == spec_drift(*cfg, ssh_port, st.installed, st.jail_file@, st.service_enabled),
    {
        let mut drift: Vec<String> = Vec::new();
        if !st.installed {
            drift.push(owned("install fail2ban"));
        }
        let ghost d1 = drift.deep_view();
        let want = jail_config(cfg, ssh_port);
        if !str_eq(st.jail_file.as_str(), want.as_str()) {
            drift.push(owned("configure fail2ban jails"));
        }
        let ghost d2 = drift.deep_view();
        if !st.service_enabled {
            drift.push(owned("enable fail2ban service"));
        }
        assert(drift.deep_view() =~= spec_drift(*cfg, ssh_port, st.installed, st.jail_file@, st.service_enabled));
        drift
    }

    /// Report drift. Read-only.
    pub fn check(&self, cfg: &Fail2banConfig, ssh_port: u16, platform: &Platform, st: &Fail2banState) -> (r: Status)
        ensures
            r.deep_view() == spec_check(*cfg, ssh_port, platform.family, st.installed, st.jail_file@, st.service_enabled),
    {
        if !cfg.enabled {
            return Status::not_applicable("fail2ban disabled in config");
        }
        if PackageOps::for_host(platform).is_none() {
            return Status::not_applicable("no package manager for this distro");
        }
        let drift = Self::drift(cfg, ssh_port, st);
        drift_to_status(&drift)
    }

    /// The changes `apply` would make.
    pub fn plan(&self, cfg: &Fail2banConfig, ssh_port: u16, platform: &Platform, st: &Fail2banState) -> (r: Vec<Change>)
        ensures
            r.deep_view() == (if !cfg.enabled || spec_package_ops(platform.family) is None {
                Seq::<ChangeV>::empty()
            } else {
                command_changes(spec_drift(*cfg, ssh_port, st.installed, st.jail_file@, st.service_enabled))
            }),
    {
        if !cfg.enabled || PackageOps::for_host(platform).is_none() {
            let none: Vec<Change> = Vec::new();
            assert(none.deep_view() =~= Seq::<ChangeV>::empty());
            return none;
        }
        let drift = Self::drift(cfg, ssh_port, st);
        commands_of(&drift)
    }

    /// Decide how to install, configure and enable fail2ban. The jail file
    /// is compared as `st` found it before the install: the fail2ban package
    /// ships no file at that path, so the install leaves it as it was.
    pub fn apply(&self, cfg: &Fail2banConfig, ssh_port: u16, platform: &Platform, st: &Fail2banState, dry_run: bool) -> (r: Plan)
        ensures
            r.deep_view() == spec_apply(
                *cfg,
                ssh_port,
                platform.family,
                st.installed,
                st.jail_file@,
                st.service_enabled,
                dry_run,
            ),
    {
        let mut report = Report::new("fail2ban", dry_run);
        let mut steps: Vec<Step> = Vec::new();
        assert(steps.deep_view() =~= Seq::<StepV>::empty());
        if !cfg.enabled {
            return Plan { steps, report };
        }
        let pkg = match PackageOps::for_host(platform) {
            None => return Plan { steps, report },
            Some(p) => p,
        };
        let drift = Self::drift(cfg, ssh_port, st);
        if drift.len() == 0 {
            return Plan { steps, report };
        }
        if dry_run {
            report.skipped = commands_of(&drift);
            return Plan { steps, report };
        }
        let mut applied: Vec<Change> = Vec::new();
        if !st.installed {
            steps.push(pkg.install);
            applied.push(Change::command("install fail2ban"));
        }
        let want = jail_config(cfg, ssh_port);
        if !str_eq(st.jail_file.as_str(), want.as_str()) {
            steps.push(write_file(JAIL_FILE, want.as_str()));
            applied.push(Change::command("write fail2ban jails"));
        }
        steps.push(run_checked("systemctl", args3("enable", "--now", SERVICE)));
        steps.push(run_checked("systemctl", args2("reload-or-restart", SERVICE)));
        applied.push(Change::command("enable and reload fail2ban"));
        let p = Plan { steps, report: Report { applied, ..report } };
        proof {
            let sp = spec_apply(*cfg, ssh_port, platform.family, st.installed, st.jail_file@, st.service_enabled, dry_run);
            assert(p.steps.deep_view() =~= sp.steps);
            assert(p.report.applied.deep_view() =~= sp.report.applied);
        }
        p
    }

    /// Drop the jail file and reload the service.
    pub fn rollback(&self) -> (r: Vec<Step>)
        ensures
            r.deep_view() == seq![
                StepV::RemoveQuiet { path: JAIL_FILE@ },
                StepV::RunQuiet { command: "systemctl"@, args: seq!["reload-or-restart"@, SERVICE@] },
            ],
    {
        let mut steps: Vec<Step> = Vec::new();
        steps.push(remove_quiet(JAIL_FILE));
        steps.push(run_quiet("systemctl", args2("reload-or-restart", SERVICE)));
        assert(steps.deep_view() =~= seq![
            StepV::RemoveQuiet { path: JAIL_FILE@ },
            StepV::RunQuiet { command: "systemctl"@, args: seq!["reload-or-restart"@, SERVICE@] },
        ]);
        steps
    }

    /// Remove fail2ban; with `purge`, also its ban database.
    pub fn uninstall(&self, platform: &Platform, purge: bool) -> (r: Plan)
        ensures
            r.deep_view() == spec_uninstall(platform.family, purge),
    {
        let mut report = Report::new("fail2ban", false);
        let mut steps: Vec<Step> = Vec::new();
        steps.push(disable_service(SERVICE));
        steps.push(remove_quiet(JAIL_FILE));
        match remove_pkg(platform, "fail2ban", purge) {
            Some(s) => steps.push(s),
            None => {},
        }
        let mut applied: Vec<Change> = Vec::new();
        applied.push(Change::command("remove fail2ban"));
        if purge {
            steps.push(run_quiet("rm", args2("-rf", "/var/lib/fail2ban")));
            applied.push(Change::command("purge fail2ban data"));
        }
        report.applied = applied;
        proof {
            let sp = spec_uninstall(platform.family, purge);
            assert(steps.deep_view() =~= sp.steps);
            assert(report.applied.deep_view() =~= sp.report.applied);
        }
        Plan { steps, report }
    }
}


/// The header that opens and enables a jail's section.
pub open spec fn jail_header(jail: Seq<char>) -> Seq<char> {
    "\n["@ + jail + "]\nenabled = true\n"@
}

proof fn lemma_sections_step(js: Seq<Seq<char>>, i: int, ssh_port: u16)
    requires
        0 <= i < js.len(),
    ensures
        jail_sections(js.take(i + 1), ssh_port) == jail_sections(js.take(i), ssh_port) + jail_section(
            js[i],
            ssh_port,
        ),
{
    assert(js.take(i + 1).drop_last() =~= js.take(i));
    assert(js.take(i + 1).last() == js[i]);
}

proof fn lemma_sections_prefix(js: Seq<Seq<char>>, k: int, m: int, ssh_port: u16)
    requires
        0 <= k <= m <= js.len(),
    ensures
        jail_sections(js.take(m), ssh_port).len() >= jail_sections(js.take(k), ssh_port).len(),
        jail_sections(js.take(m), ssh_port).take(jail_sections(js.take(k), ssh_port).len() as int)
            == jail_sections(js.take(k), ssh_port),
    decreases m - k,
{
    let sk = jail_sections(js.take(k), ssh_port);
    if m == k {
        assert(jail_sections(js.take(m), ssh_port).take(sk.len() as int) =~= sk);
    } else {
        lemma_sections_prefix(js, k, m - 1, ssh_port);
        lemma_sections_step(js, m - 1, ssh_port);
        let a = jail_sections(js.take(m - 1), ssh_port);
        assert((a + jail_section(js[m - 1], ssh_port)).take(sk.len() as int) =~= a.take(sk.len() as int));
    }
}

/// Each jail's header occurs in `text` at its position in `ps`, the `sshd`
/// jail's followed by its `port` line, and the positions rise with the
/// jails' order.
pub open spec fn headers_in_order(text: Seq<char>, jails: Seq<Seq<char>>, ps: Seq<int>, ssh_port: u16) -> bool {
    &&& ps.len() == jails.len()
    &&& forall|i: int| 0 <= i < ps.len() ==> occurs_at(text, jail_header(jails[i]), #[trigger] ps[i])
    &&& forall|i: int|
        0 <= i < ps.len() && jails[i] == "sshd"@ ==> occurs_at(
            text,
            jail_header(jails[i]) + "port = "@ + decimal(ssh_port as nat) + "\n"@,
            #[trigger] ps[i],
        )
    &&& forall|i: int, j: int| 0 <= i < j < ps.len() ==> #[trigger] ps[i] < #[trigger] ps[j]
}

/// Law: every configured jail is enabled in the jail file, in the
/// configured order: each jail's `[name]` header with `enabled = true`
/// occurs in the file, later jails further on, and the `sshd` jail watches
/// the SSH port. The file opens with `[DEFAULT]` and the bantime and
/// maxretry that are set.
pub proof fn law_jail_config_enables_every_jail(cfg: Fail2banConfig, ssh_port: u16)
    ensures
        exists|ps: Seq<int>| #[trigger] headers_in_order(spec_jail_config(cfg, ssh_port), cfg.jails.deep_view(), ps, ssh_port),
        has_prefix(
            spec_jail_config(cfg, ssh_port),
            "[DEFAULT]\n"@ + (match cfg.bantime.deep_view() {
                Some(b) => "bantime = "@ + b + "\n"@,
                None => Seq::empty(),
            }) + (match cfg.maxretry {
                Some(m) => "maxretry = "@ + decimal(m as nat) + "\n"@,
                None => Seq::empty(),
            }),
        ),
{
    let js = cfg.jails.deep_view();
    let text = spec_jail_config(cfg, ssh_port);
    let full = jail_sections(js, ssh_port);
    let pre_len: int = text.len() - full.len();
    assert(js.take(js.len() as int) =~= js);
    let ps = Seq::new(js.len(), |i: int| pre_len + jail_sections(js.take(i), ssh_port).len());
    assert forall|i: int| 0 <= i < ps.len() implies occurs_at(text, jail_header(js[i]), #[trigger] ps[i]) by {
        lemma_sections_step(js, i, ssh_port);
        lemma_sections_prefix(js, i + 1, js.len() as int, ssh_port);
        let a = jail_sections(js.take(i), ssh_port);
        let sec = jail_section(js[i], ssh_port);
        let h = jail_header(js[i]);
        assert(sec.take(h.len() as int) =~= h);
        let b = jail_sections(js.take(i + 1), ssh_port);
        assert(full.take(b.len() as int) == a + sec);
        assert(text.subrange(ps[i], ps[i] + h.len()) =~= h) by {
            assert forall|x: int| 0 <= x < h.len() implies text.subrange(ps[i], ps[i] + h.len())[x] == h[x] by {
                assert(text[ps[i] + x] == full[a.len() + x]);
                assert(full.take(b.len() as int)[a.len() + x] == (a + sec)[a.len() + x]);
            }
        }
    }
    assert forall|i: int, j: int| 0 <= i < j < ps.len() implies #[trigger] ps[i] < #[trigger] ps[j] by {
        lemma_sections_step(js, i, ssh_port);
        lemma_sections_prefix(js, i + 1, j, ssh_port);
        reveal_strlit("\n[");
        assert(jail_section(js[i], ssh_port).len() > 0);
        assert(ps[i] == pre_len + jail_sections(js.take(i), ssh_port).len());
        assert(ps[j] == pre_len + jail_sections(js.take(j), ssh_port).len());
    }
    assert forall|i: int| 0 <= i < ps.len() && js[i] == "sshd"@ implies occurs_at(
        text,
        jail_header(js[i]) + "port = "@ + decimal(ssh_port as nat) + "\n"@,
        #[trigger] ps[i],
    ) by {
        lemma_sections_step(js, i, ssh_port);
        lemma_sections_prefix(js, i + 1, js.len() as int, ssh_port);
        let a = jail_sections(js.take(i), ssh_port);
        let sec = jail_section(js[i], ssh_port);
        let h = jail_header(js[i]) + "port = "@ + decimal(ssh_port as nat) + "\n"@;
        assert(sec =~= h);
        let b = jail_sections(js.take(i + 1), ssh_port);
        assert(full.take(b.len() as int) == a + sec);
        assert(text.subrange(ps[i], ps[i] + h.len()) =~= h) by {
            assert forall|x: int| 0 <= x < h.len() implies text.subrange(ps[i], ps[i] + h.len())[x] == h[x] by {
                assert(text[ps[i] + x] == full[a.len() + x]);
                assert(full.take(b.len() as int)[a.len() + x] == (a + sec)[a.len() + x]);
            }
        }
    }
    assert(headers_in_order(text, js, ps, ssh_port));
    assert(text.take(pre_len) =~= "[DEFAULT]\n"@ + (match cfg.bantime.deep_view() {
        Some(b) => "bantime = "@ + b + "\n"@,
        None => Seq::empty(),
    }) + (match cfg.maxretry {
        Some(m) => "maxretry = "@ + decimal(m as nat) + "\n"@,
        None => Seq::empty(),
    }));
}

/// Law: a dry run changes nothing and reports as skipped exactly the changes
/// `plan` lists; `check` is compliant exactly when there is nothing to plan;
/// once `check` is compliant, a real apply performs no step and applies
/// nothing.
pub proof fn law_dry_run_reports_plan(cfg: Fail2banConfig, ssh_port: u16, family: DistroFamily, installed: bool, jail_file: Seq<char>, enabled: bool)
    requires
        cfg.enabled,
        spec_package_ops(family) is Some,
    ensures
        spec_apply(cfg, ssh_port, family, installed, jail_file, enabled, true).steps.len() == 0,
        spec_apply(cfg, ssh_port, family, installed, jail_file, enabled, true).report.applied.len() == 0,
        spec_apply(cfg, ssh_port, family, installed, jail_file, enabled, true).report.skipped == command_changes(
            spec_drift(cfg, ssh_port, installed, jail_file, enabled),
        ),
        spec_check(cfg, ssh_port, family, installed, jail_file, enabled).state == State::Compliant
            <==> spec_drift(cfg, ssh_port, installed, jail_file, enabled).len() == 0,
        spec_check(cfg, ssh_port, family, installed, jail_file, enabled).state == State::Compliant ==> spec_apply(cfg, ssh_port, family, installed, jail_file, enabled, false).steps.len() == 0
            && spec_apply(cfg, ssh_port, family, installed, jail_file, enabled, false).report.applied.len() == 0,
{
    if spec_drift(cfg, ssh_port, installed, jail_file, enabled).len() == 0 {
        assert(command_changes(spec_drift(cfg, ssh_port, installed, jail_file, enabled)) =~= Seq::<ChangeV>::empty());
    }
}

} // verus!
