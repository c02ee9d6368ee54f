//! Side effects as data.
//!
//! A module decides what to do from what it observed (file contents, command
//! results) and hands back a list of [`Step`]s plus the [`Report`] that a fully
//! successful run produces. The caller performs the steps in order and, after
//! each one, asks [`verdict`] whether to go on. The first failure ends the run
//! with the error that [`verdict`] names; the report is then discarded.

use vstd::prelude::*;

use crate::text::{join, join_strings, owned, push_str, trim, trim_owned};
use crate::types::{Error, ErrorV, Report, ReportV};

verus! {

/// One side effect. Paths in `Write`, `WriteQuiet`, `Remove`, `RemoveQuiet`
/// and `Rename` are absolute and are resolved against the context root by the caller.
#[derive(Debug, Clone)]
pub enum Step {
    /// Run a command; only a failure to start it aborts.
    Run { command: String, args: Vec<String> },
    /// Run a command and ignore any failure (best effort).
    RunQuiet { command: String, args: Vec<String> },
    /// Run a command; a non-zero exit aborts with [`Error::Command`].
    RunChecked { command: String, args: Vec<String> },
    /// Write a file, creating parent directories; a failure aborts.
    Write { path: String, body: String },
    /// Write a file, ignoring any failure.
    WriteQuiet { path: String, body: String },
    /// Remove a file (absent is fine); a failure aborts.
    Remove { path: String },
    /// Remove a file, ignoring any failure.
    RemoveQuiet { path: String },
    /// Rename a file; a failure aborts.
    Rename { from: String, to: String },
    /// Run a validator on a staged file. A non-zero exit removes `staged`
    /// and aborts with [`Error::Safety`]: `reason`, ": ", the trimmed stderr.
    Validate { command: String, args: Vec<String>, staged: String, reason: String },
    /// Require one of `paths` to exist (one that cannot be checked counts as
    /// absent); when none does, abort with `error`.
    Require { paths: Vec<String>, error: Error },
}

/// The mathematical value of a [`Step`].
pub enum StepV {
    Run { command: Seq<char>, args: Seq<Seq<char>> },
    RunQuiet { command: Seq<char>, args: Seq<Seq<char>> },
    RunChecked { command: Seq<char>, args: Seq<Seq<char>> },
    Write { path: Seq<char>, body: Seq<char> },
    WriteQuiet { path: Seq<char>, body: Seq<char> },
    Remove { path: Seq<char> },
    RemoveQuiet { path: Seq<char> },
    Rename { from: Seq<char>, to: Seq<char> },
    Validate { command: Seq<char>, args: Seq<Seq<char>>, staged: Seq<char>, reason: Seq<char> },
    Require { paths: Seq<Seq<char>>, error: ErrorV },
}

impl DeepView for Step {
    type V = StepV;

    open spec fn deep_view(&self) -> StepV {
        match self {
            Step::Run { command, args } => StepV::Run {
                command: command@,
                args: args.deep_view(),
            },
            Step::RunQuiet { command, args } => StepV::RunQuiet {
                command: command@,
                args: args.deep_view(),
            },
            Step::RunChecked { command, args } => StepV::RunChecked {
                command: command@,
                args: args.deep_view(),
            },
            Step::Write { path, body } => StepV::Write { path: path@, body: body@ },
            Step::WriteQuiet { path, body } => StepV::WriteQuiet { path: path@, body: body@ },
            Step::Remove { path } => StepV::Remove { path: path@ },
            Step::RemoveQuiet { path } => StepV::RemoveQuiet { path: path@ },
            Step::Rename { from, to } => StepV::Rename { from: from@, to: to@ },
            Step::Validate { command, args, staged, reason } => StepV::Validate {
                command: command@,
                args: args.deep_view(),
                staged: staged@,
                reason: reason@,
            },
            Step::Require { paths, error } => StepV::Require {
                paths: paths.deep_view(),
                error: error.deep_view(),
            },
        }
    }
}

/// What happened when a step was performed.
#[derive(Debug, Clone)]
pub enum Outcome {
    /// A file operation completed.
    Done,
    /// A command ran to completion with this exit code and stderr.
    Exited { code: i32, stderr: String },
    /// The operation could not be carried out.
    Failed(Error),
    /// None of the paths a [`Step::Require`] names exists.
    Absent,
}

/// The mathematical value of an [`Outcome`].
pub enum OutcomeV {
    Done,
    Exited { code: i32, stderr: Seq<char> },
    Failed(ErrorV),
    Absent,
}

impl DeepView for Outcome {
    type V = OutcomeV;

    open spec fn deep_view(&self) -> OutcomeV {
        match self {
            Outcome::Done => OutcomeV::Done,
            Outcome::Exited { code, stderr } => OutcomeV::Exited { code: *code, stderr: stderr@ },
            Outcome::Failed(e) => OutcomeV::Failed(e.deep_view()),
            Outcome::Absent => OutcomeV::Absent,
        }
    }
}

/// How a run goes on after a step.
#[derive(Debug, Clone)]
pub enum Flow {
    Continue,
    /// Stop with this error.
    Abort(Error),
    /// Remove this file (ignoring failure), then stop with the error.
    CleanupAndAbort { path: String, error: Error },
}

/// The mathematical value of a [`Flow`].
pub enum FlowV {
    Continue,
    Abort(ErrorV),
    CleanupAndAbort { path: Seq<char>, error: ErrorV },
}

impl DeepView for Flow {
    type V = FlowV;

    open spec fn deep_view(&self) -> FlowV {
        match self {
            Flow::Continue => FlowV::Continue,
            Flow::Abort(e) => FlowV::Abort(e.deep_view()),
            Flow::CleanupAndAbort { path, error } => FlowV::CleanupAndAbort {
                path: path@,
                error: error.deep_view(),
            },
        }
    }
}

/// The files, by path, once `step` has run and succeeded: a write sets a
/// file, a remove drops it, a rename moves it; the other steps touch none.
pub open spec fn file_effect(files: Map<Seq<char>, Seq<char>>, step: StepV) -> Map<Seq<char>, Seq<char>> {
    match step {
        StepV::Write { path, body } => files.insert(path, body),
        StepV::WriteQuiet { path, body } => files.insert(path, body),
        StepV::Remove { path } => files.remove(path),
        StepV::RemoveQuiet { path } => files.remove(path),
        StepV::Rename { from, to } => if files.dom().contains(from) {
            files.remove(from).insert(to, files[from])
        } else {
            files
        },
        _ => files,
    }
}

/// The files once every step of `steps` has run and succeeded, in order.
pub open spec fn files_after(files: Map<Seq<char>, Seq<char>>, steps: Seq<StepV>) -> Map<Seq<char>, Seq<char>>
    decreases steps.len(),
{
    if steps.len() == 0 {
        files
    } else {
        files_after(file_effect(files, steps[0]), steps.drop_first())
    }
}

/// The command line `command` followed by its arguments, space separated.
pub open spec fn command_line(command: Seq<char>, args: Seq<Seq<char>>) -> Seq<char> {
    command + seq![' '] + join(args, seq![' '])
}

/// Builds `command arg1 arg2 ...`.
pub fn render_command_line(command: &str, args: &Vec<String>) -> (r: String)
    ensures
        r@ == command_line(command@, args.deep_view()),
{
    let mut r = owned(command);
    let sp = " ";
    proof {
        reveal_strlit(" ");
        assert(sp@ =~= seq![' ']);
    }
    push_str(&mut r, sp);
    let rest = join_strings(args, sp);
    push_str(&mut r, rest.as_str());
    r
}

/// The message of a rejected validation: `reason: stderr` with stderr trimmed.
pub open spec fn safety_message(reason: Seq<char>, stderr: Seq<char>) -> Seq<char> {
    reason + seq![':', ' '] + trim(stderr)
}

/// How a run goes on after `step` had `outcome`.
///
/// A failure to carry out a step aborts, except for best-effort steps. A
/// command's exit code only matters for checked commands and validators; a
/// rejecting validator also has its staged file removed.
pub open spec fn spec_verdict(step: StepV, outcome: OutcomeV) -> FlowV {
    match outcome {
        OutcomeV::Failed(e) => match step {
            StepV::RunQuiet { .. } => FlowV::Continue,
            StepV::RemoveQuiet { .. } => FlowV::Continue,
            StepV::WriteQuiet { .. } => FlowV::Continue,
            _ => FlowV::Abort(e),
        },
        OutcomeV::Done => FlowV::Continue,
        OutcomeV::Absent => match step {
            StepV::Require { error, .. } => FlowV::Abort(error),
            _ => FlowV::Continue,
        },
        OutcomeV::Exited { code, stderr } => match step {
            StepV::RunChecked { command, args } => if code != 0 {
                FlowV::Abort(ErrorV::Command { command: command_line(command, args), code, stderr })
            } else {
                FlowV::Continue
            },
            StepV::Validate { staged, reason, .. } => if code != 0 {
                FlowV::CleanupAndAbort {
                    path: staged,
                    error: ErrorV::Safety(safety_message(reason, stderr)),
                }
            } else {
                FlowV::Continue
            },
            _ => FlowV::Continue,
        },
    }
}

/// Decide how to go on after `step` had `outcome`.
pub fn verdict(step: &Step, outcome: Outcome) -> (r: Flow)
    ensures
        r.deep_view() == spec_verdict(step.deep_view(), outcome.deep_view()),
{
    match outcome {
        Outcome::Failed(e) => match step {
            Step::RunQuiet { .. } => Flow::Continue,
            Step::RemoveQuiet { .. } => Flow::Continue,
            Step::WriteQuiet { .. } => Flow::Continue,
            _ => Flow::Abort(e),
        },
        Outcome::Done => Flow::Continue,
        Outcome::Absent => match step {
            Step::Require { error, .. } => Flow::Abort(error.copy()),
            _ => Flow::Continue,
        },
        Outcome::Exited { code, stderr } => match step {
            Step::RunChecked { command, args } => {
                if code != 0 {
                    let line = render_command_line(command.as_str(), args);
                    Flow::Abort(Error::Command { command: line, code, stderr })
                } else {
                    Flow::Continue
                }
            },
            Step::Validate { staged, reason, .. } => {
                if code != 0 {
                    let mut msg = owned(reason.as_str());
                    let colon = ": ";
                    proof {
                        reveal_strlit(": ");
                        assert(colon@ =~= seq![':', ' ']);
                    }
                    push_str(&mut msg, colon);
                    let t = trim_owned(stderr.as_str());
                    push_str(&mut msg, t.as_str());
                    Flow::CleanupAndAbort { path: owned(staged.as_str()), error: Error::Safety(msg) }
                } else {
                    Flow::Continue
                }
            },
            _ => Flow::Continue,
        },
    }
}

/// What `apply` will do: the steps to perform and the report a fully
/// successful run produces.
#[derive(Debug, Clone)]
pub struct Plan {
    pub steps: Vec<Step>,
    pub report: Report,
}

/// The mathematical value of a [`Plan`].
pub struct PlanV {
    pub steps: Seq<StepV>,
    pub report: ReportV,
}

impl DeepView for Plan {
    type V = PlanV;

    open spec fn deep_view(&self) -> PlanV {
        PlanV { steps: self.steps.deep_view(), report: self.report.deep_view() }
    }
}

// ---------------------------------------------------------------------------
// Step builders
// ---------------------------------------------------------------------------

/// An argument list of one.
pub fn args1(a: &str) -> (r: Vec<String>)
    ensures
        r.deep_view() == seq![a@],
{
    let mut r: Vec<String> = Vec::new();
    r.push(owned(a));
    assert(r.deep_view() =~= seq![a@]);
    r
}

/// An argument list of two.
pub fn args2(a: &str, b: &str) -> (r: Vec<String>)
    ensures
        r.deep_view() == seq![a@, b@],
{
    let mut r = args1(a);
    let ghost old_r = r@;
    let ghost old_d = r.deep_view();
    assert(old_d.len() == old_r.len());
    let x = owned(b);
    r.push(x);
    assert(r@ == old_r.push(x));
    assert forall|i: int| 0 <= i < 1 implies r.deep_view()[i] == old_d[i] by {}
    assert(old_d[0] == a@);
    assert(r.deep_view()[0] == a@);
    assert(r.deep_view()[1] == b@);
    assert(r.deep_view() =~= seq![a@, b@]);
    r
}

/// An argument list of three.
pub fn args3(a: &str, b: &str, c: &str) -> (r: Vec<String>)
    ensures
        r.deep_view() == seq![a@, b@, c@],
{
    let mut r = args2(a, b);
    let ghost old_r = r@;
    let ghost old_d = r.deep_view();
    assert(old_d.len() == old_r.len());
    let x = owned(c);
    r.push(x);
    assert(r@ == old_r.push(x));
    assert forall|i: int| 0 <= i < 2 implies r.deep_view()[i] == old_d[i] by {}
    assert(r.deep_view() =~= seq![a@, b@, c@]);
    r
}

/// An argument list of four.
pub fn args4(a: &str, b: &str, c: &str, d: &str) -> (r: Vec<String>)
    ensures
        r.deep_view() == seq![a@, b@, c@, d@],
{
    let mut r = args3(a, b, c);
    let ghost old_r = r@;
    let ghost old_d = r.deep_view();
    assert(old_d.len() == old_r.len());
    let x = owned(d);
    r.push(x);
    assert(r@ == old_r.push(x));
    assert forall|i: int| 0 <= i < 3 implies r.deep_view()[i] == old_d[i] by {}
    assert(r.deep_view() =~= seq![a@, b@, c@, d@]);
    r
}

/// An argument list of five.
pub fn args5(a: &str, b: &str, c: &str, d: &str, e: &str) -> (r: Vec<String>)
    ensures
        r.deep_view() == seq![a@, b@, c@, d@, e@],
{
    let mut r = args4(a, b, c, d);
    let ghost old_r = r@;
    let ghost old_d = r.deep_view();
    assert(old_d.len() == old_r.len());
    let x = owned(e);
    r.push(x);
    assert(r@ == old_r.push(x));
    assert forall|i: int| 0 <= i < 4 implies r.deep_view()[i] == old_d[i] by {}
    assert(r.deep_view() =~= seq![a@, b@, c@, d@, e@]);
    r
}

/// An argument list of six.
pub fn args6(a: &str, b: &str, c: &str, d: &str, e: &str, f: &str) -> (r: Vec<String>)
    ensures
        r.deep_view() == seq![a@, b@, c@, d@, e@, f@],
{
    let mut r = args5(a, b, c, d, e);
    let ghost old_r = r@;
    let ghost old_d = r.deep_view();
    assert(old_d.len() == old_r.len());
    let x = owned(f);
    r.push(x);
    assert(r@ == old_r.push(x));
    assert forall|i: int| 0 <= i < 5 implies r.deep_view()[i] == old_d[i] by {}
    assert(r.deep_view() =~= seq![a@, b@, c@, d@, e@, f@]);
    r
}

pub fn run_checked(command: &str, args: Vec<String>) -> (r: Step)
    ensures
        r.deep_view() == (StepV::RunChecked { command: command@, args: args.deep_view() }),
{
    Step::RunChecked { command: owned(command), args }
}

pub fn run(command: &str, args: Vec<String>) -> (r: Step)
    ensures
        r.deep_view() == (StepV::Run { command: command@, args: args.deep_view() }),
{
    Step::Run { command: owned(command), args }
}

pub fn run_quiet(command: &str, args: Vec<String>) -> (r: Step)
    ensures
        r.deep_view() == (StepV::RunQuiet { command: command@, args: args.deep_view() }),
{
    Step::RunQuiet { command: owned(command), args }
}

pub fn write_file(path: &str, body: &str) -> (r: Step)
    ensures
        r.deep_view() == (StepV::Write { path: path@, body: body@ }),
{
    Step::Write { path: owned(path), body: owned(body) }
}

pub fn remove(path: &str) -> (r: Step)
    ensures
        r.deep_view() == (StepV::Remove { path: path@ }),
{
    Step::Remove { path: owned(path) }
}

pub fn remove_quiet(path: &str) -> (r: Step)
    ensures
        r.deep_view() == (StepV::RemoveQuiet { path: path@ }),
{
    Step::RemoveQuiet { path: owned(path) }
}

} // verus!

verus! {

/// Moves every element of `b` to the end of `a`.
pub fn append_all<T: DeepView>(a: &mut Vec<T>, b: Vec<T>)
    ensures
        final(a).deep_view() == old(a).deep_view() + b.deep_view(),
{
    let ghost a0 = a.deep_view();
    let ghost b0 = b.deep_view();
    let mut b = b;
    a.append(&mut b);
    assert(a.deep_view() =~= a0 + b0);
}

} // verus!

verus! {

/// The value of a list of commands, each a program and its arguments.
pub open spec fn commands_value(cmds: Seq<(&'static str, Vec<&'static str>)>) -> Seq<(Seq<char>, Seq<Seq<char>>)> {
    cmds.map_values(
        |c: (&'static str, Vec<&'static str>)| (c.0@, c.1@.map_values(|a: &'static str| a@)),
    )
}

/// Each command run in turn, each checked.
pub open spec fn checked_steps(cmds: Seq<(Seq<char>, Seq<Seq<char>>)>) -> Seq<StepV> {
    cmds.map_values(|c: (Seq<char>, Seq<Seq<char>>)| StepV::RunChecked { command: c.0, args: c.1 })
}

/// Owned copies of static arguments.
pub fn owned_args(args: &Vec<&'static str>) -> (r: Vec<String>)
    ensures
        r.deep_view() == args@.map_values(|a: &'static str| a@),
{
    let mut out: Vec<String> = Vec::new();
    let mut j: usize = 0;
    while j < args.len()
        invariant
            j <= args@.len(),
            out.deep_view() == args@.map_values(|x: &'static str| x@).take(j as int),
        decreases args@.len() - j,
    {
        let ghost before = out.deep_view();
        let x = owned(args[j]);
        out.push(x);
        assert(out.deep_view() =~= before.push(x@));
        assert(args@.map_values(|x: &'static str| x@).take(j + 1) =~= args@.map_values(
            |x: &'static str| x@,
        ).take(j as int).push(args@[j as int]@));
        j = j + 1;
    }
    assert(args@.map_values(|x: &'static str| x@).take(j as int) =~= args@.map_values(
        |x: &'static str| x@,
    ));
    out
}

/// A checked run of each command, in order.
pub fn run_all_checked(cmds: &Vec<(&'static str, Vec<&'static str>)>) -> (r: Vec<Step>)
    ensures
        r.deep_view() == checked_steps(commands_value(cmds@)),
{
    let ghost cv = commands_value(cmds@);
    let mut steps: Vec<Step> = Vec::new();
    let mut i: usize = 0;
    while i < cmds.len()
        invariant
            i <= cmds@.len(),
            cv == commands_value(cmds@),
            steps.deep_view() == checked_steps(cv.take(i as int)),
        decreases cmds@.len() - i,
    {
        let (cmd, args) = &cmds[i];
        let a = owned_args(args);
        let ghost before = steps.deep_view();
        let st = run_checked(cmd, a);
        steps.push(st);
        proof {
            assert(steps.deep_view() =~= before.push(st.deep_view()));
            assert(checked_steps(cv.take(i + 1)) =~= checked_steps(cv.take(i as int)).push(
                StepV::RunChecked { command: cv[i as int].0, args: cv[i as int].1 },
            ));
        }
        i = i + 1;
    }
    assert(cv.take(i as int) =~= cv);
    steps
}

} // verus!
