//! Application deploy: clone a repo (or generate a stack) and run it.
//!
//! Opt-in. The docker runtime runs the repo's compose file (framework
//! agnostic). WordPress without a repo gets a self-contained WordPress +
//! MariaDB compose stack. The native runtime serves a static site through
//! Caddy; native runtimes for the dynamic frameworks are not there yet. The
//! domain and database are wired to Caddy and the database modules by
//! `Config::wire`.

use vstd::prelude::*;

use crate::action::{args2, args3, args4, args5, run_checked, run_quiet, write_file, Plan, PlanV, Step, StepV};
use crate::config::{AppConfig, AppConfigV, AppRuntime, Framework};
use crate::text::{owned, push_str, trim, trim_owned};
use crate::types::{
    command_change, command_changes, commands_of, drift_status, drift_to_status, empty_report, Category,
    Change, ChangeV, Error, ErrorV, Output, Report, ReportV, State, Status, StatusV,
};

verus! {

/// Where the app is checked out when `app.dir` is unset.
pub const DEFAULT_DIR: &'static str = "/srv/app";

/// A self-contained WordPress + MariaDB compose stack, published on port 8080
/// to match the default reverse-proxy wiring. Change the passwords before use.
pub const WORDPRESS_COMPOSE: &'static str = "services:
  db:
    image: mariadb:11
    restart: unless-stopped
    environment:
      MARIADB_DATABASE: wordpress
      MARIADB_USER: wordpress
      MARIADB_PASSWORD: wordpress
      MARIADB_ROOT_PASSWORD: wordpress
    volumes:
      - db:/var/lib/mysql
  wordpress:
    image: wordpress:latest
    restart: unless-stopped
    depends_on:
      - db
    ports:
      - \"8080:80\"
    environment:
      WORDPRESS_DB_HOST: db
      WORDPRESS_DB_USER: wordpress
      WORDPRESS_DB_PASSWORD: wordpress
      WORDPRESS_DB_NAME: wordpress
    volumes:
      - wp:/var/www/html
volumes:
  db:
  wp:
";

/// The checkout directory.
pub open spec fn spec_dir(app: AppConfigV) -> Seq<char> {
    match app.dir {
        Some(d) => d,
        None => DEFAULT_DIR@,
    }
}

/// The checkout directory: `app.dir`, else /srv/app.
pub fn dir(app: &AppConfig) -> (r: String)
    ensures
        r@ == spec_dir(app.deep_view()),
{
    match &app.dir {
        Some(d) => owned(d.as_str()),
        None => owned(DEFAULT_DIR),
    }
}

/// The framework's display name.
pub open spec fn spec_framework_name(f: Framework) -> Seq<char> {
    match f {
        Framework::Django => "Django"@,
        Framework::Laravel => "Laravel"@,
        Framework::Node => "Node/Next.js"@,
        Framework::Fastapi => "FastAPI"@,
        Framework::Rails => "Rails"@,
        Framework::Generic => "Generic"@,
        Framework::Static => "Static"@,
        Framework::Php => "PHP"@,
        Framework::Wordpress => "WordPress"@,
    }
}

pub fn framework_name(f: Framework) -> (r: &'static str)
    ensures
        r@ == spec_framework_name(f),
{
    match f {
        Framework::Django => "Django",
        Framework::Laravel => "Laravel",
        Framework::Node => "Node/Next.js",
        Framework::Fastapi => "FastAPI",
        Framework::Rails => "Rails",
        Framework::Generic => "Generic",
        Framework::Static => "Static",
        Framework::Php => "PHP",
        Framework::Wordpress => "WordPress",
    }
}

/// The probe `docker compose --project-directory DIR ps -q`.
pub fn compose_ps_probe(dir: &str) -> (r: Step)
    ensures
        r.deep_view() == (StepV::Run {
            command: "docker"@,
            args: seq!["compose"@, "--project-directory"@, dir@, "ps"@, "-q"@],
        }),
{
    crate::action::run("docker", args5("compose", "--project-directory", dir, "ps", "-q"))
}

/// The compose project has running containers: `ps -q` ran, exited 0 and
/// listed something.
pub open spec fn spec_compose_running(ps: Option<Output>) -> bool {
    ps matches Some(o) && o.code == 0 && trim(o.stdout@).len() > 0
}

pub fn compose_running(ps: &Option<Output>) -> (r: bool)
    ensures
        r == spec_compose_running(*ps),
{
    match ps {
        Some(o) => o.success() && !trim_owned(o.stdout.as_str()).as_str().is_empty(),
        None => false,
    }
}

/// The value of an existence test that may have failed.
pub open spec fn exists_view(r: Result<bool, Error>) -> Result<bool, ErrorV> {
    match r {
        Ok(b) => Ok(b),
        Err(e) => Err(e.deep_view()),
    }
}

/// A static site on the native runtime is up once checked out; anything
/// else is up when its compose project has running containers.
pub open spec fn spec_running(app: AppConfigV, dir_exists: Result<bool, ErrorV>, ps: Option<Output>) -> bool {
    if app.runtime == AppRuntime::Native && app.framework == Framework::Static {
        dir_exists == Ok::<bool, ErrorV>(true)
    } else {
        spec_compose_running(ps)
    }
}

/// Drift descriptions.
pub open spec fn spec_drift(app: AppConfigV, dir_exists: Result<bool, ErrorV>, ps: Option<Output>) -> Seq<Seq<char>> {
    if spec_running(app, dir_exists, ps) {
        Seq::empty()
    } else {
        seq!["deploy "@ + spec_framework_name(app.framework) + " app"@]
    }
}

/// Clone the repo (or pull if present); require the directory when there is
/// no repo.
pub open spec fn spec_checkout(app: AppConfigV, dir: Seq<char>, dir_exists: Result<bool, ErrorV>) -> Result<(Seq<StepV>, Seq<ChangeV>), ErrorV> {
    match dir_exists {
        Err(e) => Err(e),
        Ok(exists) => match app.repo {
            Some(repo) => if !exists {
                Ok(
                    (
                        seq![StepV::RunChecked { command: "git"@, args: seq!["clone"@, repo, dir] }],
                        seq![command_change("clone "@ + repo + " to "@ + dir)],
                    ),
                )
            } else {
                Ok(
                    (
                        seq![StepV::RunQuiet { command: "git"@, args: seq!["-C"@, dir, "pull"@] }],
                        seq![command_change("pull "@ + dir)],
                    ),
                )
            },
            None => if !exists {
                Err(
                    ErrorV::Module {
                        module: "app"@,
                        message: "no app.repo set and "@ + dir + " does not exist"@,
                    },
                )
            } else {
                Ok((Seq::empty(), Seq::empty()))
            },
        },
    }
}

/// `docker compose --project-directory DIR up -d`.
pub open spec fn compose_up(dir: Seq<char>) -> StepV {
    StepV::RunChecked {
        command: "docker"@,
        args: seq!["compose"@, "--project-directory"@, dir, "up"@, "-d"@],
    }
}

/// The compose file names looked for in the checkout.
pub open spec fn compose_files(dir: Seq<char>) -> Seq<Seq<char>> {
    seq![
        dir + "/compose.yaml"@,
        dir + "/compose.yml"@,
        dir + "/docker-compose.yml"@,
        dir + "/docker-compose.yaml"@,
    ]
}

/// The deploy once there is drift and it is not a dry run.
pub open spec fn spec_deploy(app: AppConfigV, dir_exists: Result<bool, ErrorV>) -> Result<(Seq<StepV>, Seq<ChangeV>), ErrorV> {
    let dir = spec_dir(app);
    if app.framework == Framework::Wordpress && app.repo is None {
        Ok(
            (
                seq![StepV::Write { path: dir + "/compose.yaml"@, body: WORDPRESS_COMPOSE@ }, compose_up(dir)],
                seq![
                    command_change("write WordPress compose stack"@),
                    command_change("docker compose up -d"@),
                ],
            ),
        )
    } else if app.runtime == AppRuntime::Native {
        if app.framework == Framework::Static {
            match spec_checkout(app, dir, dir_exists) {
                Err(e) => Err(e),
                Ok((s, a)) => Ok((s, a.push(command_change("static site served by Caddy"@)))),
            }
        } else {
            Err(
                ErrorV::Module {
                    module: "app"@,
                    message: "native runtime not yet implemented for "@ + spec_framework_name(
                        app.framework,
                    ) + "; use runtime = \"docker\""@,
                },
            )
        }
    } else {
        match spec_checkout(app, dir, dir_exists) {
            Err(e) => Err(e),
            Ok((s, a)) => Ok(
                (
                    s + seq![
                        StepV::Require {
                            paths: compose_files(dir),
                            error: ErrorV::Module {
                                module: "app"@,
                                message: "no docker compose file in "@ + dir
                                    + "; add compose.yaml or set runtime = \"native\""@,
                            },
                        },
                        compose_up(dir),
                    ],
                    a.push(command_change("docker compose up -d"@)),
                ),
            ),
        }
    }
}

/// `apply`.
pub open spec fn spec_apply(app: AppConfigV, dir_exists: Result<bool, ErrorV>, ps: Option<Output>, dry_run: bool) -> Result<PlanV, ErrorV> {
    let drift = spec_drift(app, dir_exists, ps);
    if !app.enabled || drift.len() == 0 {
        Ok(PlanV { steps: Seq::empty(), report: empty_report("app"@, dry_run) })
    } else if dry_run {
        Ok(
            PlanV {
                steps: Seq::empty(),
                report: ReportV {
                    module: "app"@,
                    applied: Seq::empty(),
                    skipped: command_changes(drift),
                    dry_run,
                },
            },
        )
    } else {
        match spec_deploy(app, dir_exists) {
            Err(e) => Err(e),
            Ok((steps, applied)) => Ok(
                PlanV {
                    steps,
                    report: ReportV { module: "app"@, applied, skipped: Seq::empty(), dry_run },
                },
            ),
        }
    }
}

/// `uninstall`: stop the stack (dropping its volumes when purging) and, when
/// purging, delete the checkout.
pub open spec fn spec_uninstall(app: AppConfigV, purge: bool) -> PlanV {
    let dir = spec_dir(app);
    let down = if app.runtime == AppRuntime::Docker {
        let args = seq!["compose"@, "--project-directory"@, dir, "down"@];
        seq![
            StepV::RunQuiet {
                command: "docker"@,
                args: if purge {
                    args.push("-v"@)
                } else {
                    args
                },
            },
        ]
    } else {
        Seq::empty()
    };
    let stopped = seq![command_change("stop app"@)];
    if purge {
        PlanV {
            steps: down.push(StepV::RunQuiet { command: "rm"@, args: seq!["-rf"@, dir] }),
            report: ReportV {
                module: "app"@,
                applied: stopped.push(command_change("purge checkout "@ + dir)),
                skipped: Seq::empty(),
                dry_run: false,
            },
        }
    } else {
        PlanV {
            steps: down,
            report: ReportV { module: "app"@, applied: stopped, skipped: Seq::empty(), dry_run: false },
        }
    }
}

/// Application deploy module.
#[derive(Debug, Default)]
pub struct AppModule;

fn app_err(message: String) -> (e: Error)
    ensures
        e.deep_view() == (ErrorV::Module { module: "app"@, message: message@ }),
{
    Error::Module { module: owned("app"), message }
}

/// Clone the repo (or pull if present); require the dir when there is no repo.
pub fn ensure_checkout(app: &AppConfig, dir: &str, dir_exists: &Result<bool, Error>) -> (r: Result<(Vec<Step>, Vec<Change>), Error>)
    ensures
        match r {
            Ok((s, a)) => spec_checkout(app.deep_view(), dir@, exists_view(*dir_exists)) == Ok::<
                (Seq<StepV>, Seq<ChangeV>),
                ErrorV,
            >((s.deep_view(), a.deep_view())),
            Err(e) => spec_checkout(app.deep_view(), dir@, exists_view(*dir_exists)) == Err::<
                (Seq<StepV>, Seq<ChangeV>),
                ErrorV,
            >(e.deep_view()),
        },
{
    let exists = match dir_exists {
        Err(e) => return Err(e.copy()),
        Ok(b) => *b,
    };
    let mut steps: Vec<Step> = Vec::new();
    let mut applied: Vec<Change> = Vec::new();
    match &app.repo {
        Some(repo) => {
            if !exists {
                steps.push(run_checked("git", args3("clone", repo.as_str(), dir)));
                let mut m = owned("clone ");
                push_str(&mut m, repo.as_str());
                push_str(&mut m, " to ");
                push_str(&mut m, dir);
                applied.push(Change::command(m.as_str()));
            } else {
                steps.push(run_quiet("git", args3("-C", dir, "pull")));
                let mut m = owned("pull ");
                push_str(&mut m, dir);
                applied.push(Change::command(m.as_str()));
            }
        },
        None => {
            if !exists {
                let mut m = owned("no app.repo set and ");
                push_str(&mut m, dir);
                push_str(&mut m, " does not exist");
                return Err(app_err(m));
            }
        },
    }
    proof {
        let sp = spec_checkout(app.deep_view(), dir@, exists_view(*dir_exists))->Ok_0;
        assert(steps.deep_view() =~= sp.0);
        assert(applied.deep_view() =~= sp.1);
    }
    Ok((steps, applied))
}

spec fn paths_view(s: Step) -> Seq<Seq<char>> {
    match s {
        Step::Require { paths, .. } => paths.deep_view(),
        _ => Seq::empty(),
    }
}

fn compose_up_step(dir: &str) -> (r: Step)
    ensures
        r.deep_view() == compose_up(dir@),
{
    run_checked("docker", args5("compose", "--project-directory", dir, "up", "-d"))
}

fn joined(dir: &str, name: &str) -> (r: String)
    ensures
        r@ == dir@ + name@,
{
    let mut s = owned(dir);
    push_str(&mut s, name);
    s
}

fn drift_of(app: &AppConfig, dir_exists: &Result<bool, Error>, ps: &Option<Output>) -> (r: Vec<String>)
    ensures
        r.deep_view() == spec_drift(app.deep_view(), exists_view(*dir_exists), *ps),
{
    let running = if app.runtime == AppRuntime::Native && app.framework == Framework::Static {
        match dir_exists {
            Ok(b) => *b,
            Err(_) => false,
        }
    } else {
        compose_running(ps)
    };
    let mut drift: Vec<String> = Vec::new();
    if !running {
        let mut m = owned("deploy ");
        push_str(&mut m, framework_name(app.framework));
        push_str(&mut m, " app");
        drift.push(m);
    }
    assert(drift.deep_view() =~= spec_drift(app.deep_view(), exists_view(*dir_exists), *ps));
    drift
}

impl AppModule {
    pub fn name(&self) -> (r: &'static str)
        ensures
            r@ == "app"@,
    {
        "app"
    }

    pub fn summary(&self) -> (r: &'static str)
        ensures
            r@ == "Deploy an app (Django, Laravel, Node, WordPress, ...) via compose"@,
    {
        "Deploy an app (Django, Laravel, Node, WordPress, ...) via compose"
    }

    pub fn category(&self) -> (r: Category)
        ensures
            r == Category::App,
    {
        Category::App
    }

    /// Report whether the app is up. `dir_exists` is whether the checkout
    /// exists, `ps` the output of [`compose_ps_probe`] if it could be run.
    pub fn check(&self, app: &AppConfig, dir_exists: &Result<bool, Error>, ps: &Option<Output>) -> (r: Status)
        ensures
            r.deep_view() == (if !app.enabled {
                StatusV { state: State::NotApplicable, detail: "app deploy disabled in config"@ }
            } else {
                drift_status(spec_drift(app.deep_view(), exists_view(*dir_exists), *ps))
            }),
    {
        if !app.enabled {
            return Status::not_applicable("app deploy disabled in config");
        }
        let drift = drift_of(app, dir_exists, ps);
        drift_to_status(&drift)
    }

    /// The changes `apply` would make.
    pub fn plan(&self, app: &AppConfig, dir_exists: &Result<bool, Error>, ps: &Option<Output>) -> (r: Vec<Change>)
        ensures
            r.deep_view() == (if !app.enabled {
                Seq::<ChangeV>::empty()
            } else {
                command_changes(spec_drift(app.deep_view(), exists_view(*dir_exists), *ps))
            }),
    {
        if !app.enabled {
            let none: Vec<Change> = Vec::new();
            assert(none.deep_view() =~= Seq::<ChangeV>::empty());
            return none;
        }
        let drift = drift_of(app, dir_exists, ps);
        commands_of(&drift)
    }

    /// Decide how to deploy the app.
    pub fn apply(&self, app: &AppConfig, dir_exists: &Result<bool, Error>, ps: &Option<Output>, dry_run: bool) -> (r: Result<Plan, Error>)
        ensures
            match r {
                Ok(p) => spec_apply(app.deep_view(), exists_view(*dir_exists), *ps, dry_run) == Ok::<
                    PlanV,
                    ErrorV,
                >(p.deep_view()),
                Err(e) => spec_apply(app.deep_view(), exists_view(*dir_exists), *ps, dry_run) == Err::<
                    PlanV,
                    ErrorV,
                >(e.deep_view()),
            },
    {
        let mut report = Report::new("app", dry_run);
        let mut steps: Vec<Step> = Vec::new();
        assert(steps.deep_view() =~= Seq::<StepV>::empty());
        if !app.enabled {
            return Ok(Plan { steps, report });
        }
        let drift = drift_of(app, dir_exists, ps);
        if drift.len() == 0 {
            return Ok(Plan { steps, report });
        }
        if dry_run {
            report.skipped = commands_of(&drift);
            return Ok(Plan { steps, report });
        }
        let d = dir(app);
        let mut applied: Vec<Change> = Vec::new();
        if app.framework == Framework::Wordpress && app.repo.is_none() {
            let path = joined(d.as_str(), "/compose.yaml");
            steps.push(write_file(path.as_str(), WORDPRESS_COMPOSE));
            applied.push(Change::command("write WordPress compose stack"));
            steps.push(compose_up_step(d.as_str()));
            applied.push(Change::command("docker compose up -d"));
        } else if app.runtime == AppRuntime::Native {
            if app.framework == Framework::Static {
                let (s, a) = match ensure_checkout(app, d.as_str(), dir_exists) {
                    Err(e) => return Err(e),
                    Ok(x) => x,
                };
                steps = s;
                applied = a;
                applied.push(Change::command("static site served by Caddy"));
            } else {
                let mut m = owned("native runtime not yet implemented for ");
                push_str(&mut m, framework_name(app.framework));
                push_str(&mut m, "; use runtime = \"docker\"");
                return Err(app_err(m));
            }
        } else {
            let (s, a) = match ensure_checkout(app, d.as_str(), dir_exists) {
                Err(e) => return Err(e),
                Ok(x) => x,
            };
            steps = s;
            applied = a;
            let mut paths: Vec<String> = Vec::new();
            paths.push(joined(d.as_str(), "/compose.yaml"));
            paths.push(joined(d.as_str(), "/compose.yml"));
            paths.push(joined(d.as_str(), "/docker-compose.yml"));
            paths.push(joined(d.as_str(), "/docker-compose.yaml"));
            let mut m = owned("no docker compose file in ");
            push_str(&mut m, d.as_str());
            push_str(&mut m, "; add compose.yaml or set runtime = \"native\"");
            let ghost s0 = steps.deep_view();
            let req = Step::Require { paths, error: app_err(m) };
            let up = compose_up_step(d.as_str());
            steps.push(req);
            steps.push(up);
            applied.push(Change::command("docker compose up -d"));
            proof {
                assert(req.deep_view() == StepV::Require {
                    paths: compose_files(d@),
                    error: ErrorV::Module {
                        module: "app"@,
                        message: "no docker compose file in "@ + d@ + "; add compose.yaml or set runtime = \"native\""@,
                    },
                }) by {
                    assert(paths_view(req) =~= compose_files(d@));
                }
                assert(steps.deep_view() =~= s0 + seq![req.deep_view(), up.deep_view()]);
            }
        }
        proof {
            let sp = spec_apply(app.deep_view(), exists_view(*dir_exists), *ps, dry_run)->Ok_0;
            assert(steps.deep_view() =~= sp.steps);
            assert(applied.deep_view() =~= sp.report.applied);
        }
        report.applied = applied;
        Ok(Plan { steps, report })
    }

    /// Stop a compose deployment.
    pub fn rollback(&self, app: &AppConfig) -> (r: Vec<Step>)
        ensures
            r.deep_view() == (if app.runtime == AppRuntime::Docker {
                seq![
                    StepV::RunQuiet {
                        command: "docker"@,
                        args: seq!["compose"@, "--project-directory"@, spec_dir(app.deep_view()), "down"@],
                    },
                ]
            } else {
                Seq::<StepV>::empty()
            }),
    {
        let mut steps: Vec<Step> = Vec::new();
        if app.runtime == AppRuntime::Docker {
            let d = dir(app);
            steps.push(run_quiet("docker", args4("compose", "--project-directory", d.as_str(), "down")));
            assert(steps.deep_view() =~= seq![
                StepV::RunQuiet {
                    command: "docker"@,
                    args: seq!["compose"@, "--project-directory"@, spec_dir(app.deep_view()), "down"@],
                },
            ]);
        } else {
            assert(steps.deep_view() =~= Seq::<StepV>::empty());
        }
        steps
    }

    /// Stop the app; with `purge`, also its volumes and checkout.
    pub fn uninstall(&self, app: &AppConfig, purge: bool) -> (r: Plan)
        ensures
            r.deep_view() == spec_uninstall(app.deep_view(), purge),
    {
        let mut report = Report::new("app", false);
        let d = dir(app);
        let mut steps: Vec<Step> = Vec::new();
        if app.runtime == AppRuntime::Docker {
            let mut args = args4("compose", "--project-directory", d.as_str(), "down");
            if purge {
                let ghost before = args.deep_view();
                args.push(owned("-v"));
                assert(args.deep_view() =~= before.push("-v"@));
            }
            steps.push(run_quiet("docker", args));
        }
        let mut applied: Vec<Change> = Vec::new();
        applied.push(Change::command("stop app"));
        if purge {
            steps.push(run_quiet("rm", args2("-rf", d.as_str())));
            let mut m = owned("purge checkout ");
            push_str(&mut m, d.as_str());
            applied.push(Change::command(m.as_str()));
        }
        proof {
            let sp = spec_uninstall(app.deep_view(), purge);
            assert(steps.deep_view() =~= sp.steps);
            assert(applied.deep_view() =~= sp.report.applied);
        }
        report.applied = applied;
        Plan { steps, report }
    }
}


/// Law: a dry run changes nothing and reports as skipped exactly the changes
/// `plan` lists; the status is compliant exactly when there is nothing to
/// plan, and then a real apply performs no step and applies nothing.
pub proof fn law_dry_run_reports_plan(app: AppConfigV, dir_exists: Result<bool, ErrorV>, ps: Option<Output>)
    requires
        app.enabled,
    ensures
        drift_status(spec_drift(app, dir_exists, ps)).state == State::Compliant <==> spec_drift(
            app,
            dir_exists,
            ps,
        ).len() == 0,
        spec_drift(app, dir_exists, ps).len() == 0 ==> (spec_apply(app, dir_exists, ps, false) matches Ok(p)
            && p.steps.len() == 0 && p.report.applied.len() == 0),
        spec_apply(app, dir_exists, ps, true) matches Ok(p) && p.steps.len() == 0 && p.report.applied.len()
            == 0 && p.report.skipped == command_changes(spec_drift(app, dir_exists, ps)),
{
    if spec_drift(app, dir_exists, ps).len() == 0 {
        assert(command_changes(spec_drift(app, dir_exists, ps)) =~= Seq::<ChangeV>::empty());
    }
}

} // verus!
