//! Docker runtime: install the engine, enable it, add users to the group.
//!
//! Install is distro-aware: docker.io on Debian/Ubuntu, the distro package on
//! Fedora, the docker-ce repo on Rocky/RHEL, native packages on Arch and
//! openSUSE. Presence is detected with `docker --version`, so the module is
//! idempotent however Docker was installed. Opt-in. Rollback removes the
//! managed group memberships; the engine stays installed.

use vstd::prelude::*;

use crate::action::{
    append_all, args2, args3, checked_steps, commands_value, run_all_checked, run_checked, run_quiet,
    Plan, PlanV, Step, StepV,
};
use crate::config::DockerConfig;
use crate::platform::{has_token, token_in, DistroFamily, Platform};
use crate::text::{chars_of, owned, push_str, str_eq};
use crate::types::{
    command_change, command_changes, commands_of, drift_status, drift_to_status, empty_report, Category,
    Change, ChangeV, Output, Report, ReportV, State, Status, StatusV,
};

verus! {

pub const SERVICE: &'static str = "docker";

/// The install commands for a distro.
pub open spec fn spec_install_plan(family: DistroFamily, id: Seq<char>) -> Option<Seq<(Seq<char>, Seq<Seq<char>>)>> {
    match family {
        DistroFamily::Debian => Some(seq![("apt-get"@, seq!["install"@, "-y"@, "docker.io"@])]),
        DistroFamily::Rhel => if id == "fedora"@ {
            Some(seq![("dnf"@, seq!["install"@, "-y"@, "docker"@])])
        } else {
            Some(
                seq![
                    ("dnf"@, seq!["install"@, "-y"@, "dnf-plugins-core"@]),
                    (
                        "dnf"@,
                        seq![
                            "config-manager"@,
                            "--add-repo"@,
                            "https://download.docker.com/linux/centos/docker-ce.repo"@,
                        ],
                    ),
                    (
                        "dnf"@,
                        seq!["install"@, "-y"@, "docker-ce"@, "docker-ce-cli"@, "containerd.io"@],
                    ),
                ],
            )
        },
        DistroFamily::Arch => Some(seq![("pacman"@, seq!["-S"@, "--noconfirm"@, "docker"@])]),
        DistroFamily::Suse => Some(seq![("zypper"@, seq!["install"@, "-y"@, "docker"@])]),
        DistroFamily::Unknown => None,
    }
}

/// Distro-specific install command sequence, or None when unsupported.
pub fn install_plan(p: &Platform) -> (r: Option<Vec<(&'static str, Vec<&'static str>)>>)
    ensures
        match r {
            Some(cmds) => spec_install_plan(p.family, p.id@) == Some(commands_value(cmds@)),
            None => spec_install_plan(p.family, p.id@) is None,
        },
{
    match p.family {
        DistroFamily::Debian => {
            let v = vec![("apt-get", vec!["install", "-y", "docker.io"])];
            assert(commands_value(v@) =~~= spec_install_plan(p.family, p.id@)->Some_0);
            Some(v)
        },
        DistroFamily::Rhel => {
            if str_eq(p.id.as_str(), "fedora") {
                let v = vec![("dnf", vec!["install", "-y", "docker"])];
                assert(commands_value(v@) =~~= spec_install_plan(p.family, p.id@)->Some_0);
                Some(v)
            } else {
                let v = vec![
                    ("dnf", vec!["install", "-y", "dnf-plugins-core"]),
                    (
                        "dnf",
                        vec![
                            "config-manager",
                            "--add-repo",
                            "https://download.docker.com/linux/centos/docker-ce.repo",
                        ],
                    ),
                    ("dnf", vec!["install", "-y", "docker-ce", "docker-ce-cli", "containerd.io"]),
                ];
                assert(commands_value(v@) =~~= spec_install_plan(p.family, p.id@)->Some_0);
                Some(v)
            }
        },
        DistroFamily::Arch => {
            let v = vec![("pacman", vec!["-S", "--noconfirm", "docker"])];
            assert(commands_value(v@) =~~= spec_install_plan(p.family, p.id@)->Some_0);
            Some(v)
        },
        DistroFamily::Suse => {
            let v = vec![("zypper", vec!["install", "-y", "docker"])];
            assert(commands_value(v@) =~~= spec_install_plan(p.family, p.id@)->Some_0);
            Some(v)
        },
        DistroFamily::Unknown => None,
    }
}

/// The probe `id -nG USER`, which lists the user's groups.
pub fn groups_probe(user: &str) -> (r: Step)
    ensures
        r.deep_view() == (StepV::Run { command: "id"@, args: seq!["-nG"@, user@] }),
{
    crate::action::run("id", args2("-nG", user))
}

/// What `id -nG` printed lists the `docker` group.
pub fn in_docker_group(out: &Option<Output>) -> (r: bool)
    ensures
        r == (out matches Some(o) && has_token(o.stdout@, "docker"@)),
{
    match out {
        Some(o) => {
            let cs = chars_of(o.stdout.as_str());
            proof {
                reveal_strlit("docker");
            }
            token_in(&cs, "docker")
        },
        None => false,
    }
}

// ---------------------------------------------------------------------------
// The module
// ---------------------------------------------------------------------------

/// Docker runtime module.
#[derive(Debug, Default)]
pub struct DockerModule;

/// A configured user and whether it is in the docker group.
#[derive(Debug, Clone)]
pub struct GroupMember {
    pub user: String,
    pub in_group: bool,
}

impl DeepView for GroupMember {
    type V = (Seq<char>, bool);

    open spec fn deep_view(&self) -> (Seq<char>, bool) {
        (self.user@, self.in_group)
    }
}

/// The users still to be added to the group, in order.
pub open spec fn missing_members(members: Seq<(Seq<char>, bool)>) -> Seq<Seq<char>>
    decreases members.len(),
{
    if members.len() == 0 {
        Seq::empty()
    } else {
        missing_members(members.drop_last()) + (if members.last().1 {
            Seq::empty()
        } else {
            seq![members.last().0]
        })
    }
}

/// `add USER to docker group`.
pub open spec fn add_text(user: Seq<char>) -> Seq<char> {
    "add "@ + user + " to docker group"@
}

/// Drift descriptions.
pub open spec fn spec_drift(installed: bool, enabled: bool, members: Seq<(Seq<char>, bool)>) -> Seq<Seq<char>> {
    (if !installed {
        seq!["install docker"@]
    } else {
        Seq::empty()
    }) + (if !enabled {
        seq!["enable docker service"@]
    } else {
        Seq::empty()
    }) + missing_members(members).map_values(|u: Seq<char>| add_text(u))
}

/// `check`.
pub open spec fn spec_check(cfg: DockerConfig, family: DistroFamily, id: Seq<char>, installed: bool, enabled: bool, members: Seq<(Seq<char>, bool)>) -> StatusV {
    if !cfg.enabled {
        StatusV { state: State::NotApplicable, detail: "docker disabled in config"@ }
    } else if spec_install_plan(family, id) is None {
        StatusV { state: State::NotApplicable, detail: "no docker install path for this distro"@ }
    } else {
        drift_status(spec_drift(installed, enabled, members))
    }
}

/// `apply`.
pub open spec fn spec_apply(
    cfg: DockerConfig,
    family: DistroFamily,
    id: Seq<char>,
    installed: bool,
    enabled: bool,
    members: Seq<(Seq<char>, bool)>,
    dry_run: bool,
) -> PlanV {
    let drift = spec_drift(installed, enabled, members);
    if !cfg.enabled || spec_install_plan(family, id) is None || drift.len() == 0 {
        PlanV { steps: Seq::empty(), report: empty_report("docker"@, dry_run) }
    } else if dry_run {
        PlanV {
            steps: Seq::empty(),
            report: ReportV {
                module: "docker"@,
                applied: Seq::empty(),
                skipped: command_changes(drift),
                dry_run,
            },
        }
    } else {
        let (s1, a1) = if !installed {
            (
                checked_steps(spec_install_plan(family, id)->Some_0),
                seq![command_change("install docker"@)],
            )
        } else {
            (Seq::empty(), Seq::empty())
        };
        let missing = missing_members(members);
        PlanV {
            steps: s1 + seq![
                StepV::RunChecked { command: "systemctl"@, args: seq!["enable"@, "--now"@, SERVICE@] },
            ] + missing.map_values(
                |u: Seq<char>| StepV::RunChecked { command: "usermod"@, args: seq!["-aG"@, "docker"@, u] },
            ),
            report: ReportV {
                module: "docker"@,
                applied: a1 + seq![command_change("enable docker service"@)] + missing.map_values(
                    |u: Seq<char>| command_change(add_text(u)),
                ),
                skipped: Seq::empty(),
                dry_run,
            },
        }
    }
}

/// `rollback`: take every configured user back out of the group.
pub open spec fn spec_rollback(users: Seq<Seq<char>>) -> Seq<StepV> {
    users.map_values(|u: Seq<char>| StepV::RunQuiet { command: "gpasswd"@, args: seq!["-d"@, u, "docker"@] })
}

/// The users not yet in the group.
fn missing_of(members: &Vec<GroupMember>) -> (r: Vec<String>)
    ensures
        r.deep_view() == missing_members(members.deep_view()),
{
    let mut out: Vec<String> = Vec::new();
    let mut i: usize = 0;
    assert(out.deep_view() =~= missing_members(members.deep_view().take(0)));
    while i < members.len()
        invariant
            i <= members@.len(),
            out.deep_view() == missing_members(members.deep_view().take(i as int)),
        decreases members@.len() - i,
    {
        let ghost before = out.deep_view();
        proof {
            assert(members.deep_view().take(i + 1).drop_last() =~= members.deep_view().take(i as int));
        }
        if !members[i].in_group {
            out.push(owned(members[i].user.as_str()));
            assert(out.deep_view() =~= before + seq![members.deep_view()[i as int].0]);
        } else {
            assert(out.deep_view() =~= before + Seq::<Seq<char>>::empty());
        }
        i = i + 1;
    }
    assert(members.deep_view().take(i as int) =~= members.deep_view());
    out
}

fn add_texts(users: &Vec<String>) -> (r: Vec<String>)
    ensures
        r.deep_view() == users.deep_view().map_values(|u: Seq<char>| add_text(u)),
{
    let mut out: Vec<String> = Vec::new();
    let mut i: usize = 0;
    while i < users.len()
        invariant
            i <= users@.len(),
            out.deep_view() == users.deep_view().take(i as int).map_values(|u: Seq<char>| add_text(u)),
        decreases users@.len() - i,
    {
        let mut m = owned("add ");
        push_str(&mut m, users[i].as_str());
        push_str(&mut m, " to docker group");
        let ghost before = out.deep_view();
        out.push(m);
        proof {
            assert(out.deep_view() =~= before.push(m@));
            assert(users.deep_view().take(i + 1).map_values(|u: Seq<char>| add_text(u)) =~= users.deep_view().take(
                i as int,
            ).map_values(|u: Seq<char>| add_text(u)).push(add_text(users.deep_view()[i as int])));
        }
        i = i + 1;
    }
    assert(users.deep_view().take(i as int) =~= users.deep_view());
    out
}

fn drift_of(installed: bool, enabled: bool, members: &Vec<GroupMember>) -> (r: Vec<String>)
    ensures
        r.deep_view() == spec_drift(installed, enabled, members.deep_view()),
{
    let mut drift: Vec<String> = Vec::new();
    if !installed {
        drift.push(owned("install docker"));
    }
    if !enabled {
        drift.push(owned("enable docker service"));
    }
    let ghost head = drift.deep_view();
    let missing = missing_of(members);
    let adds = add_texts(&missing);
    append_all(&mut drift, adds);
    assert(head =~= (if !installed {
        seq!["install docker"@]
    } else {
        Seq::empty()
    }) + (if !enabled {
        seq!["enable docker service"@]
    } else {
        Seq::empty()
    }));
    drift
}

impl DockerModule {
    pub fn name(&self) -> (r: &'static str)
        ensures
            r@ == "docker"@,
    {
        "docker"
    }

    pub fn summary(&self) -> (r: &'static str)
        ensures
            r@ == "Install Docker, enable the service, add users to the docker group"@,
    {
        "Install Docker, enable the service, add users to the docker group"
    }

    pub fn category(&self) -> (r: Category)
        ensures
            r == Category::Runtime,
    {
        Category::Runtime
    }

    /// Report drift: `installed` is whether `docker --version` ran, `enabled`
    /// whether the service is, `members` each configured user. Read-only.
    pub fn check(
        &self,
        cfg: &DockerConfig,
        p: &Platform,
        installed: bool,
        enabled: bool,
        members: &Vec<GroupMember>,
    ) -> (r: Status)
        ensures
            r.deep_view() == spec_check(*cfg, p.family, p.id@, installed, enabled, members.deep_view()),
    {
        if !cfg.enabled {
            return Status::not_applicable("docker disabled in config");
        }
        if install_plan(p).is_none() {
            return Status::not_applicable("no docker install path for this distro");
        }
        let drift = drift_of(installed, enabled, members);
        drift_to_status(&drift)
    }

    /// The changes `apply` would make.
    pub fn plan(
        &self,
        cfg: &DockerConfig,
        p: &Platform,
        installed: bool,
        enabled: bool,
        members: &Vec<GroupMember>,
    ) -> (r: Vec<Change>)
        ensures
            r.deep_view() == (if !cfg.enabled || spec_install_plan(p.family, p.id@) is None {
                Seq::<ChangeV>::empty()
            } else {
                command_changes(spec_drift(installed, enabled, members.deep_view()))
            }),
    {
        if !cfg.enabled || install_plan(p).is_none() {
            let none: Vec<Change> = Vec::new();
            assert(none.deep_view() =~= Seq::<ChangeV>::empty());
            return none;
        }
        let drift = drift_of(installed, enabled, members);
        commands_of(&drift)
    }

    /// Decide how to install and enable Docker and add the users.
    pub fn apply(
        &self,
        cfg: &DockerConfig,
        p: &Platform,
        installed: bool,
        enabled: bool,
        members: &Vec<GroupMember>,
        dry_run: bool,
    ) -> (r: Plan)
        ensures
            r.deep_view() == spec_apply(*cfg, p.family, p.id@, installed, enabled, members.deep_view(), dry_run),
    {
        let mut report = Report::new("docker", dry_run);
        let mut steps: Vec<Step> = Vec::new();
        assert(steps.deep_view() =~= Seq::<StepV>::empty());
        if !cfg.enabled {
            return Plan { steps, report };
        }
        let cmds = match install_plan(p) {
            None => return Plan { steps, report },
            Some(c) => c,
        };
        let drift = drift_of(installed, enabled, members);
        if drift.len() == 0 {
            return Plan { steps, report };
        }
        if dry_run {
            report.skipped = commands_of(&drift);
            return Plan { steps, report };
        }
        let mut applied: Vec<Change> = Vec::new();
        if !installed {
            let ins = run_all_checked(&cmds);
            append_all(&mut steps, ins);
            applied.push(Change::command("install docker"));
        }
        steps.push(run_checked("systemctl", args3("enable", "--now", SERVICE)));
        applied.push(Change::command("enable docker service"));
        let ghost s1 = steps.deep_view();
        let ghost a1 = applied.deep_view();
        let missing = missing_of(members);
        let mut i: usize = 0;
        while i < missing.len()
            invariant
                i <= missing@.len(),
                steps.deep_view() == s1 + missing.deep_view().take(i as int).map_values(
                    |u: Seq<char>| StepV::RunChecked { command: "usermod"@, args: seq!["-aG"@, "docker"@, u] },
                ),
                applied.deep_view() == a1 + missing.deep_view().take(i as int).map_values(
                    |u: Seq<char>| command_change(add_text(u)),
                ),
            decreases missing@.len() - i,
        {
            let u = missing[i].as_str();
            let ghost sb = steps.deep_view();
            let ghost ab = applied.deep_view();
            let st = run_checked("usermod", args3("-aG", "docker", u));
            steps.push(st);
            let mut m = owned("add ");
            push_str(&mut m, u);
            push_str(&mut m, " to docker group");
            let ch = Change::command(m.as_str());
            applied.push(ch);
            proof {
                let t = missing.deep_view().take(i + 1);
                let w = missing.deep_view()[i as int];
                assert(steps.deep_view() =~= sb.push(st.deep_view()));
                assert(applied.deep_view() =~= ab.push(ch.deep_view()));
                assert(t.map_values(
                    |u: Seq<char>| StepV::RunChecked { command: "usermod"@, args: seq!["-aG"@, "docker"@, u] },
                ) =~= missing.deep_view().take(i as int).map_values(
                    |u: Seq<char>| StepV::RunChecked { command: "usermod"@, args: seq!["-aG"@, "docker"@, u] },
                ).push(StepV::RunChecked { command: "usermod"@, args: seq!["-aG"@, "docker"@, w] }));
                assert(t.map_values(|u: Seq<char>| command_change(add_text(u))) =~= missing.deep_view().take(
                    i as int,
                ).map_values(|u: Seq<char>| command_change(add_text(u))).push(command_change(add_text(w))));
                assert(steps.deep_view() =~= s1 + t.map_values(
                    |u: Seq<char>| StepV::RunChecked { command: "usermod"@, args: seq!["-aG"@, "docker"@, u] },
                ));
                assert(applied.deep_view() =~= a1 + t.map_values(|u: Seq<char>| command_change(add_text(u))));
            }
            i = i + 1;
        }
        proof {
            assert(missing.deep_view().take(i as int) =~= missing.deep_view());
            let sp = spec_apply(*cfg, p.family, p.id@, installed, enabled, members.deep_view(), dry_run);
            assert(steps.deep_view() =~= sp.steps);
            assert(applied.deep_view() =~= sp.report.applied);
        }
        report.applied = applied;
        Plan { steps, report }
    }

    /// Take the configured users back out of the docker group.
    pub fn rollback(&self, cfg: &DockerConfig) -> (r: Vec<Step>)
        ensures
            r.deep_view() == spec_rollback(cfg.users.deep_view()),
    {
        let mut steps: Vec<Step> = Vec::new();
        let mut i: usize = 0;
        while i < cfg.users.len()
            invariant
                i <= cfg.users@.len(),
                steps.deep_view() == spec_rollback(cfg.users.deep_view().take(i as int)),
            decreases cfg.users@.len() - i,
        {
            let ghost before = steps.deep_view();
            let s = run_quiet("gpasswd", args3("-d", cfg.users[i].as_str(), "docker"));
            steps.push(s);
            proof {
                assert(steps.deep_view() =~= before.push(s.deep_view()));
                assert(spec_rollback(cfg.users.deep_view().take(i + 1)) =~= spec_rollback(
                    cfg.users.deep_view().take(i as int),
                ).push(s.deep_view()));
            }
            i = i + 1;
        }
        assert(cfg.users.deep_view().take(i as int) =~= cfg.users.deep_view());
        steps
    }
}


/// A user still to be added is one of the members.
proof fn lemma_missing_is_member(members: Seq<(Seq<char>, bool)>, u: Seq<char>)
    requires
        missing_members(members).contains(u),
    ensures
        exists|j: int| 0 <= j < members.len() && #[trigger] members[j].0 == u && !members[j].1,
    decreases members.len(),
{
    let d = members.drop_last();
    if missing_members(d).contains(u) {
        lemma_missing_is_member(d, u);
        let j = choose|j: int| 0 <= j < d.len() && #[trigger] d[j].0 == u && !d[j].1;
        assert(members[j] == d[j]);
    } else {
        let k = members.len() - 1;
        assert(members[k].0 == u && !members[k].1);
    }
}

/// Law: rollback takes back out of the group every user apply adds. When
/// the probed members are the configured users, each user that apply adds
/// with `usermod -aG docker` is removed by rollback with `gpasswd -d`.
pub proof fn law_rollback_leaves_group(
    cfg: DockerConfig,
    family: DistroFamily,
    id: Seq<char>,
    installed: bool,
    enabled: bool,
    members: Seq<(Seq<char>, bool)>,
    u: Seq<char>,
)
    requires
        cfg.enabled,
        spec_install_plan(family, id) is Some,
        members.map_values(|m: (Seq<char>, bool)| m.0) == cfg.users.deep_view(),
        missing_members(members).contains(u),
    ensures
        spec_apply(cfg, family, id, installed, enabled, members, false).steps.contains(
            StepV::RunChecked { command: "usermod"@, args: seq!["-aG"@, "docker"@, u] },
        ),
        spec_rollback(cfg.users.deep_view()).contains(
            StepV::RunQuiet { command: "gpasswd"@, args: seq!["-d"@, u, "docker"@] },
        ),
{
    let missing = missing_members(members);
    let x = choose|x: int| 0 <= x < missing.len() && missing[x] == u;
    assert(spec_drift(installed, enabled, members).len() > 0) by {
        let tail = missing.map_values(|w: Seq<char>| add_text(w));
        assert(tail.len() > 0);
    }
    let p = spec_apply(cfg, family, id, installed, enabled, members, false);
    let s1 = if !installed { checked_steps(spec_install_plan(family, id)->Some_0) } else { Seq::<StepV>::empty() };
    assert(p.steps[s1.len() + 1 + x] == StepV::RunChecked { command: "usermod"@, args: seq!["-aG"@, "docker"@, u] });
    lemma_missing_is_member(members, u);
    let j = choose|j: int| 0 <= j < members.len() && #[trigger] members[j].0 == u && !members[j].1;
    let users = cfg.users.deep_view();
    assert(users[j] == u);
    assert(spec_rollback(users)[j] == StepV::RunQuiet { command: "gpasswd"@, args: seq!["-d"@, u, "docker"@] });
}

/// Law: a dry run changes nothing and reports as skipped exactly the changes
/// `plan` lists; `check` is compliant exactly when there is nothing to plan;
/// once `check` is compliant, a real apply performs no step and applies
/// nothing.
pub proof fn law_dry_run_reports_plan(cfg: DockerConfig, family: DistroFamily, id: Seq<char>, installed: bool, enabled: bool, members: Seq<(Seq<char>, bool)>)
    requires
        cfg.enabled,
        spec_install_plan(family, id) is Some,
    ensures
        spec_apply(cfg, family, id, installed, enabled, members, true).steps.len() == 0,
        spec_apply(cfg, family, id, installed, enabled, members, true).report.applied.len() == 0,
        spec_apply(cfg, family, id, installed, enabled, members, true).report.skipped == command_changes(
            spec_drift(installed, enabled, members),
        ),
        spec_check(cfg, family, id, installed, enabled, members).state == State::Compliant <==> spec_drift(
            installed,
            enabled,
            members,
        ).len() == 0,
        spec_check(cfg, family, id, installed, enabled, members).state == State::Compliant ==> spec_apply(cfg, family, id, installed, enabled, members, false).steps.len() == 0
            && spec_apply(cfg, family, id, installed, enabled, members, false).report.applied.len() == 0,
{
    if spec_drift(installed, enabled, members).len() == 0 {
        assert(command_changes(spec_drift(installed, enabled, members)) =~= Seq::<ChangeV>::empty());
    }
}

} // verus!
