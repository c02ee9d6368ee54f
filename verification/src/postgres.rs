//! PostgreSQL: install the server, enable it, create databases.
//!
//! Opt-in. Installs the distro package (initialising the cluster on RHEL),
//! enables the service and creates the listed databases that are missing.
//! Rollback does not drop databases, to avoid destroying data. Supported on
//! Debian/Ubuntu and Fedora/Rocky/RHEL.

use vstd::prelude::*;

use crate::action::{args1, args3, args4, args5, run, run_checked, run_quiet, Plan, PlanV, Step, StepV};
use crate::config::PostgresConfig;
use crate::platform::{DistroFamily, Platform};
use crate::text::{owned, push_str, str_eq, trim, trim_owned};
use crate::types::{
    command_change, command_changes, commands_of, drift_status, drift_to_status, empty_report, Category,
    Change, ChangeV, Output, Report, ReportV, State, Status, StatusV,
};

verus! {

pub const SERVICE: &'static str = "postgresql";

/// PostgreSQL module.
#[derive(Debug, Default)]
pub struct PostgresModule;

/// A configured database and whether it exists.
#[derive(Debug, Clone)]
pub struct DatabaseState {
    pub name: String,
    pub exists: bool,
}

impl DeepView for DatabaseState {
    type V = (Seq<char>, bool);

    open spec fn deep_view(&self) -> (Seq<char>, bool) {
        (self.name@, self.exists)
    }
}

/// The query that tells whether database `db` exists.
pub open spec fn exists_query(db: Seq<char>) -> Seq<char> {
    "SELECT 1 FROM pg_database WHERE datname='"@ + db + "'"@
}

/// The probe `sudo -u postgres psql -tAc QUERY` for database `db`.
pub fn database_probe(db: &str) -> (r: Step)
    ensures
        r.deep_view() == (StepV::Run {
            command: "sudo"@,
            args: seq!["-u"@, "postgres"@, "psql"@, "-tAc"@, exists_query(db@)],
        }),
{
    let mut q = owned("SELECT 1 FROM pg_database WHERE datname='");
    push_str(&mut q, db);
    push_str(&mut q, "'");
    run("sudo", args5("-u", "postgres", "psql", "-tAc", q.as_str()))
}

/// What the probe printed says the database exists.
pub fn database_exists(out: &Option<Output>) -> (r: bool)
    ensures
        r == (out matches Some(o) && trim(o.stdout@) == "1"@),
{
    match out {
        Some(o) => {
            let t = trim_owned(o.stdout.as_str());
            str_eq(t.as_str(), "1")
        },
        None => false,
    }
}

/// Debian and the RHEL family have an install path.
pub open spec fn spec_supported(family: DistroFamily) -> bool {
    family == DistroFamily::Debian || family == DistroFamily::Rhel
}

pub fn supported(p: &Platform) -> (r: bool)
    ensures
        r == spec_supported(p.family),
{
    match p.family {
        DistroFamily::Debian => true,
        DistroFamily::Rhel => true,
        _ => false,
    }
}

/// The databases still to be created, in order.
pub open spec fn missing_databases(dbs: Seq<(Seq<char>, bool)>) -> Seq<Seq<char>>
    decreases dbs.len(),
{
    if dbs.len() == 0 {
        Seq::empty()
    } else {
        missing_databases(dbs.drop_last()) + (if dbs.last().1 {
            Seq::empty()
        } else {
            seq![dbs.last().0]
        })
    }
}

/// `create database DB`.
pub open spec fn create_text(db: Seq<char>) -> Seq<char> {
    "create database "@ + db
}

/// Drift descriptions.
pub open spec fn spec_drift(installed: bool, enabled: bool, dbs: Seq<(Seq<char>, bool)>) -> Seq<Seq<char>> {
    (if !installed {
        seq!["install postgresql"@]
    } else {
        Seq::empty()
    }) + (if !enabled {
        seq!["enable postgresql service"@]
    } else {
        Seq::empty()
    }) + missing_databases(dbs).map_values(|d: Seq<char>| create_text(d))
}

/// `check`.
pub open spec fn spec_check(cfg: PostgresConfig, family: DistroFamily, installed: bool, enabled: bool, dbs: Seq<(Seq<char>, bool)>) -> StatusV {
    if !cfg.enabled {
        StatusV { state: State::NotApplicable, detail: "postgres disabled in config"@ }
    } else if !spec_supported(family) {
        StatusV { state: State::NotApplicable, detail: "no postgres install path for this distro"@ }
    } else {
        drift_status(spec_drift(installed, enabled, dbs))
    }
}

/// The install commands.
pub open spec fn install_steps(family: DistroFamily) -> Seq<StepV> {
    match family {
        DistroFamily::Debian => seq![
            StepV::RunChecked { command: "apt-get"@, args: seq!["install"@, "-y"@, "postgresql"@] },
        ],
        DistroFamily::Rhel => seq![
            StepV::RunChecked { command: "dnf"@, args: seq!["install"@, "-y"@, "postgresql-server"@] },
            StepV::RunQuiet { command: "postgresql-setup"@, args: seq!["--initdb"@] },
        ],
        _ => Seq::empty(),
    }
}

/// Whether an apply has work to do.
pub open spec fn has_work(cfg: PostgresConfig, family: DistroFamily, installed: bool, enabled: bool, dbs: Seq<(Seq<char>, bool)>) -> bool {
    cfg.enabled && spec_supported(family) && spec_drift(installed, enabled, dbs).len() > 0
}

/// The steps that run before the databases are probed again: the install
/// when PostgreSQL is missing, then enabling and starting the service.
pub open spec fn spec_prepare_steps(
    cfg: PostgresConfig,
    family: DistroFamily,
    installed: bool,
    enabled: bool,
    dbs: Seq<(Seq<char>, bool)>,
    dry_run: bool,
) -> Seq<StepV> {
    if has_work(cfg, family, installed, enabled, dbs) && !dry_run {
        (if !installed {
            install_steps(family)
        } else {
            Seq::empty()
        }) + seq![StepV::RunChecked { command: "systemctl"@, args: seq!["enable"@, "--now"@, SERVICE@] }]
    } else {
        Seq::empty()
    }
}

/// `apply`: drift and dry runs go by what was found before the apply; the
/// databases to create are those `after` (probed once the prepare steps have
/// run) lacks. The steps are those that follow the prepare steps.
pub open spec fn spec_apply(
    cfg: PostgresConfig,
    family: DistroFamily,
    installed: bool,
    enabled: bool,
    dbs: Seq<(Seq<char>, bool)>,
    after: Seq<(Seq<char>, bool)>,
    dry_run: bool,
) -> PlanV {
    let drift = spec_drift(installed, enabled, dbs);
    if !cfg.enabled || !spec_supported(family) || drift.len() == 0 {
        PlanV { steps: Seq::empty(), report: empty_report("postgres"@, dry_run) }
    } else if dry_run {
        PlanV {
            steps: Seq::empty(),
            report: ReportV {
                module: "postgres"@,
                applied: Seq::empty(),
                skipped: command_changes(drift),
                dry_run,
            },
        }
    } else {
        let a1 = if !installed {
            seq![command_change("install postgresql"@)]
        } else {
            Seq::empty()
        };
        let missing = missing_databases(after);
        PlanV {
            steps: missing.map_values(
                |d: Seq<char>| StepV::RunChecked {
                    command: "sudo"@,
                    args: seq!["-u"@, "postgres"@, "createdb"@, d],
                },
            ),
            report: ReportV {
                module: "postgres"@,
                applied: a1 + missing.map_values(|d: Seq<char>| command_change(create_text(d))),
                skipped: Seq::empty(),
                dry_run,
            },
        }
    }
}

fn missing_of(dbs: &Vec<DatabaseState>) -> (r: Vec<String>)
    ensures
        r.deep_view() == missing_databases(dbs.deep_view()),
{
    let mut out: Vec<String> = Vec::new();
    let mut i: usize = 0;
    assert(out.deep_view() =~= missing_databases(dbs.deep_view().take(0)));
    while i < dbs.len()
        invariant
            i <= dbs@.len(),
            out.deep_view() == missing_databases(dbs.deep_view().take(i as int)),
        decreases dbs@.len() - i,
    {
        let ghost before = out.deep_view();
        proof {
            assert(dbs.deep_view().take(i + 1).drop_last() =~= dbs.deep_view().take(i as int));
        }
        if !dbs[i].exists {
            out.push(owned(dbs[i].name.as_str()));
            assert(out.deep_view() =~= before + seq![dbs.deep_view()[i as int].0]);
        } else {
            assert(out.deep_view() =~= before + Seq::<Seq<char>>::empty());
        }
        i = i + 1;
    }
    assert(dbs.deep_view().take(i as int) =~= dbs.deep_view());
    out
}

fn drift_of(installed: bool, enabled: bool, dbs: &Vec<DatabaseState>) -> (r: Vec<String>)
    ensures
        r.deep_view() == spec_drift(installed, enabled, dbs.deep_view()),
{
    let mut drift: Vec<String> = Vec::new();
    if !installed {
        drift.push(owned("install postgresql"));
    }
    if !enabled {
        drift.push(owned("enable postgresql service"));
    }
    let ghost head = drift.deep_view();
    let missing = missing_of(dbs);
    let mut i: usize = 0;
    while i < missing.len()
        invariant
            i <= missing@.len(),
            drift.deep_view() == head + missing.deep_view().take(i as int).map_values(
                |d: Seq<char>| create_text(d),
            ),
        decreases missing@.len() - i,
    {
        let mut m = owned("create database ");
        push_str(&mut m, missing[i].as_str());
        let ghost before = drift.deep_view();
        drift.push(m);
        proof {
            assert(drift.deep_view() =~= before.push(m@));
            assert(missing.deep_view().take(i + 1).map_values(|d: Seq<char>| create_text(d)) =~= missing.deep_view().take(
                i as int,
            ).map_values(|d: Seq<char>| create_text(d)).push(create_text(missing.deep_view()[i as int])));
        }
        i = i + 1;
    }
    assert(missing.deep_view().take(i as int) =~= missing.deep_view());
    drift
}

impl PostgresModule {
    pub fn name(&self) -> (r: &'static str)
        ensures
            r@ == "postgres"@,
    {
        "postgres"
    }

    pub fn summary(&self) -> (r: &'static str)
        ensures
            r@ == "Install PostgreSQL, enable it, create databases"@,
    {
        "Install PostgreSQL, enable it, create databases"
    }

    pub fn category(&self) -> (r: Category)
        ensures
            r == Category::Runtime,
    {
        Category::Runtime
    }

    /// Report drift: `installed` is whether `psql --version` ran, `enabled`
    /// whether the service is, `dbs` each configured database. Read-only.
    pub fn check(&self, cfg: &PostgresConfig, p: &Platform, installed: bool, enabled: bool, dbs: &Vec<DatabaseState>) -> (r: Status)
        ensures
            r.deep_view() == spec_check(*cfg, p.family, installed, enabled, dbs.deep_view()),
    {
        if !cfg.enabled {
            return Status::not_applicable("postgres disabled in config");
        }
        if !supported(p) {
            return Status::not_applicable("no postgres install path for this distro");
        }
        let drift = drift_of(installed, enabled, dbs);
        drift_to_status(&drift)
    }

    /// The changes `apply` would make.
    pub fn plan(&self, cfg: &PostgresConfig, p: &Platform, installed: bool, enabled: bool, dbs: &Vec<DatabaseState>) -> (r: Vec<Change>)
        ensures
            r.deep_view() == (if !cfg.enabled || !spec_supported(p.family) {
                Seq::<ChangeV>::empty()
            } else {
                command_changes(spec_drift(installed, enabled, dbs.deep_view()))
            }),
    {
        if !cfg.enabled || !supported(p) {
            let none: Vec<Change> = Vec::new();
            assert(none.deep_view() =~= Seq::<ChangeV>::empty());
            return none;
        }
        let drift = drift_of(installed, enabled, dbs);
        commands_of(&drift)
    }

    /// The steps to run before the databases are probed again: the install
    /// when PostgreSQL is missing, then enabling and starting the service.
    pub fn prepare_steps(
        &self,
        cfg: &PostgresConfig,
        p: &Platform,
        installed: bool,
        enabled: bool,
        dbs: &Vec<DatabaseState>,
        dry_run: bool,
    ) -> (r: Vec<Step>)
        ensures
            r.deep_view() == spec_prepare_steps(*cfg, p.family, installed, enabled, dbs.deep_view(), dry_run),
    {
        let mut steps: Vec<Step> = Vec::new();
        assert(steps.deep_view() =~= Seq::<StepV>::empty());
        if !cfg.enabled || !supported(p) || dry_run {
            return steps;
        }
        let drift = drift_of(installed, enabled, dbs);
        if drift.len() == 0 {
            return steps;
        }
        if !installed {
            match p.family {
                DistroFamily::Debian => {
                    steps.push(run_checked("apt-get", args3("install", "-y", "postgresql")));
                },
                DistroFamily::Rhel => {
                    steps.push(run_checked("dnf", args3("install", "-y", "postgresql-server")));
                    steps.push(run_quiet("postgresql-setup", args1("--initdb")));
                },
                _ => {},
            }
        }
        steps.push(run_checked("systemctl", args3("enable", "--now", SERVICE)));
        assert(steps.deep_view() =~= spec_prepare_steps(*cfg, p.family, installed, enabled, dbs.deep_view(), dry_run));
        steps
    }

    /// Decide how to converge. `installed`, `enabled` and `dbs` are what was
    /// found before the apply, `after` the databases probed once
    /// [`Self::prepare_steps`] have run; the plan's steps follow those.
    pub fn apply(
        &self,
        cfg: &PostgresConfig,
        p: &Platform,
        installed: bool,
        enabled: bool,
        dbs: &Vec<DatabaseState>,
        after: &Vec<DatabaseState>,
        dry_run: bool,
    ) -> (r: Plan)
        ensures
            r.deep_view() == spec_apply(*cfg, p.family, installed, enabled, dbs.deep_view(), after.deep_view(), dry_run),
    {
        let mut report = Report::new("postgres", dry_run);
        let mut steps: Vec<Step> = Vec::new();
        assert(steps.deep_view() =~= Seq::<StepV>::empty());
        if !cfg.enabled || !supported(p) {
            return Plan { steps, report };
        }
        let drift = drift_of(installed, enabled, dbs);
        if drift.len() == 0 {
            return Plan { steps, report };
        }
        if dry_run {
            report.skipped = commands_of(&drift);
            return Plan { steps, report };
        }
        let mut applied: Vec<Change> = Vec::new();
        if !installed {
            applied.push(Change::command("install postgresql"));
        }
        let ghost s1 = steps.deep_view();
        let ghost a1 = applied.deep_view();
        let missing = missing_of(after);
        let mut i: usize = 0;
        while i < missing.len()
            invariant
                i <= missing@.len(),
                steps.deep_view() == s1 + missing.deep_view().take(i as int).map_values(
                    |d: Seq<char>| StepV::RunChecked {
                        command: "sudo"@,
                        args: seq!["-u"@, "postgres"@, "createdb"@, d],
                    },
                ),
                applied.deep_view() == a1 + missing.deep_view().take(i as int).map_values(
                    |d: Seq<char>| command_change(create_text(d)),
                ),
            decreases missing@.len() - i,
        {
            let d = missing[i].as_str();
            let ghost sb = steps.deep_view();
            let ghost ab = applied.deep_view();
            let st = run_checked("sudo", args4("-u", "postgres", "createdb", d));
            steps.push(st);
            let mut m = owned("create database ");
            push_str(&mut m, d);
            let ch = Change::command(m.as_str());
            applied.push(ch);
            proof {
                let t = missing.deep_view().take(i + 1);
                let w = missing.deep_view()[i as int];
                assert(steps.deep_view() =~= sb.push(st.deep_view()));
                assert(applied.deep_view() =~= ab.push(ch.deep_view()));
                assert(t.map_values(
                    |d: Seq<char>| StepV::RunChecked {
                        command: "sudo"@,
                        args: seq!["-u"@, "postgres"@, "createdb"@, d],
                    },
                ) =~= missing.deep_view().take(i as int).map_values(
                    |d: Seq<char>| StepV::RunChecked {
                        command: "sudo"@,
                        args: seq!["-u"@, "postgres"@, "createdb"@, d],
                    },
                ).push(StepV::RunChecked { command: "sudo"@, args: seq!["-u"@, "postgres"@, "createdb"@, w] }));
                assert(t.map_values(|d: Seq<char>| command_change(create_text(d))) =~= missing.deep_view().take(
                    i as int,
                ).map_values(|d: Seq<char>| command_change(create_text(d))).push(command_change(create_text(w))));
            }
            i = i + 1;
        }
        proof {
            assert(missing.deep_view().take(i as int) =~= missing.deep_view());
            let sp = spec_apply(*cfg, p.family, installed, enabled, dbs.deep_view(), after.deep_view(), dry_run);
            assert(steps.deep_view() =~= sp.steps);
            assert(applied.deep_view() =~= sp.report.applied);
        }
        report.applied = applied;
        Plan { steps, report }
    }

    /// Databases are not dropped on rollback, to preserve data.
    pub fn rollback(&self) -> (r: Vec<Step>)
        ensures
            r@.len() == 0,
    {
        Vec::new()
    }
}


/// Law: a dry run changes nothing and reports as skipped exactly the changes
/// `plan` lists; `check` is compliant exactly when there is nothing to plan;
/// once `check` is compliant, a real apply prepares nothing, performs no step
/// and applies nothing, whatever is probed afterwards.
pub proof fn law_dry_run_reports_plan(cfg: PostgresConfig, family: DistroFamily, installed: bool, enabled: bool, dbs: Seq<(Seq<char>, bool)>, after: Seq<(Seq<char>, bool)>)
    requires
        cfg.enabled,
        spec_supported(family),
    ensures
        spec_prepare_steps(cfg, family, installed, enabled, dbs, true).len() == 0,
        spec_apply(cfg, family, installed, enabled, dbs, after, true).steps.len() == 0,
        spec_apply(cfg, family, installed, enabled, dbs, after, true).report.applied.len() == 0,
        spec_apply(cfg, family, installed, enabled, dbs, after, true).report.skipped == command_changes(
            spec_drift(installed, enabled, dbs),
        ),
        spec_check(cfg, family, installed, enabled, dbs).state == State::Compliant <==> spec_drift(
            installed,
            enabled,
            dbs,
        ).len() == 0,
        spec_check(cfg, family, installed, enabled, dbs).state == State::Compliant ==> spec_prepare_steps(
            cfg,
            family,
            installed,
            enabled,
            dbs,
            false,
        ).len() == 0 && spec_apply(cfg, family, installed, enabled, dbs, after, false).steps.len() == 0
            && spec_apply(cfg, family, installed, enabled, dbs, after, false).report.applied.len() == 0,
{
    if spec_drift(installed, enabled, dbs).len() == 0 {
        assert(command_changes(spec_drift(installed, enabled, dbs)) =~= Seq::<ChangeV>::empty());
    }
}

} // verus!
