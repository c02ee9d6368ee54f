//! Value types exchanged between modules and the front-ends, with their
//! mathematical views.

use vstd::prelude::*;

use crate::text::{decimal, decimal_string, join, join_strings, owned, push_str};

verus! {

/// Coarse compliance state, used to colour the dashboard.
#[derive(Debug, Clone, Copy, PartialEq, Eq, Structural)]
pub enum State {
    /// System matches desired config.
    Compliant,
    /// System differs from desired config; changes are pending.
    Drift,
    /// Check could not complete.
    Error,
    /// Module does not apply on this host.
    NotApplicable,
}

/// Outcome of a module's compliance check.
#[derive(Debug, Clone)]
pub struct Status {
    pub state: State,
    /// Human-readable summary (e.g. "PasswordAuthentication=yes, expected no").
    pub detail: String,
}

/// The mathematical value of a [`Status`].
pub struct StatusV {
    pub state: State,
    pub detail: Seq<char>,
}

impl DeepView for Status {
    type V = StatusV;

    open spec fn deep_view(&self) -> StatusV {
        StatusV { state: self.state, detail: self.detail@ }
    }
}

/// The detail text of a compliant status.
pub open spec fn compliant_text() -> Seq<char> {
    seq!['c', 'o', 'm', 'p', 'l', 'i', 'a', 'n', 't']
}

impl Status {
    pub fn compliant() -> (r: Self)
        ensures
            r.deep_view() == (StatusV { state: State::Compliant, detail: compliant_text() }),
    {
        let s = "compliant";
        proof {
            reveal_strlit("compliant");
            assert(s@ =~= compliant_text());
        }
        Status { state: State::Compliant, detail: owned(s) }
    }

    pub fn drift(detail: &str) -> (r: Self)
        ensures
            r.deep_view() == (StatusV { state: State::Drift, detail: detail@ }),
    {
        Status { state: State::Drift, detail: owned(detail) }
    }

    pub fn not_applicable(detail: &str) -> (r: Self)
        ensures
            r.deep_view() == (StatusV { state: State::NotApplicable, detail: detail@ }),
    {
        Status { state: State::NotApplicable, detail: owned(detail) }
    }

    pub fn is_compliant(&self) -> (r: bool)
        ensures
            r == (self.state == State::Compliant),
    {
        self.state == State::Compliant
    }
}

/// Nature of a [`Change`].
#[derive(Debug, Clone, Copy, PartialEq, Eq, Structural)]
pub enum ChangeKind {
    Create,
    Modify,
    Delete,
    /// A side-effecting command (e.g. `systemctl restart sshd`).
    Command,
}

/// A single pending or applied modification.
#[derive(Debug, Clone)]
pub struct Change {
    pub kind: ChangeKind,
    /// One-line description shown in the plan.
    pub summary: String,
    /// Prior value, when known (for diff rendering).
    pub before: Option<String>,
    /// Desired value, when applicable.
    pub after: Option<String>,
}

/// The mathematical value of a [`Change`].
pub struct ChangeV {
    pub kind: ChangeKind,
    pub summary: Seq<char>,
    pub before: Option<Seq<char>>,
    pub after: Option<Seq<char>>,
}

impl DeepView for Change {
    type V = ChangeV;

    open spec fn deep_view(&self) -> ChangeV {
        ChangeV {
            kind: self.kind,
            summary: self.summary@,
            before: self.before.deep_view(),
            after: self.after.deep_view(),
        }
    }
}

/// A command change with the given summary.
pub open spec fn command_change(summary: Seq<char>) -> ChangeV {
    ChangeV { kind: ChangeKind::Command, summary, before: None, after: None }
}

/// Each summary as a command change.
pub open spec fn command_changes(summaries: Seq<Seq<char>>) -> Seq<ChangeV> {
    summaries.map_values(|s: Seq<char>| command_change(s))
}

impl Change {
    pub fn modify(summary: &str, before: &str, after: &str) -> (r: Self)
        ensures
            r.deep_view() == (ChangeV {
                kind: ChangeKind::Modify,
                summary: summary@,
                before: Some(before@),
                after: Some(after@),
            }),
    {
        Change {
            kind: ChangeKind::Modify,
            summary: owned(summary),
            before: Some(owned(before)),
            after: Some(owned(after)),
        }
    }

    pub fn command(summary: &str) -> (r: Self)
        ensures
            r.deep_view() == command_change(summary@),
    {
        Change { kind: ChangeKind::Command, summary: owned(summary), before: None, after: None }
    }
}

/// Every drift description as a command change (`drift.map(Change::command)`).
pub fn commands_of(drift: &Vec<String>) -> (r: Vec<Change>)
    ensures
        r.deep_view() == command_changes(drift.deep_view()),
{
    let mut r: Vec<Change> = Vec::new();
    let mut i: usize = 0;
    while i < drift.len()
        invariant
            i <= drift@.len(),
            r.deep_view() == command_changes(drift.deep_view().take(i as int)),
        decreases drift@.len() - i,
    {
        let c = Change::command(drift[i].as_str());
        let ghost before = r.deep_view();
        r.push(c);
        proof {
            assert(r.deep_view() =~= before.push(c.deep_view()));
            assert(command_changes(drift.deep_view().take(i + 1)) =~= command_changes(
                drift.deep_view().take(i as int),
            ).push(command_change(drift.deep_view()[i as int])));
        }
        i = i + 1;
    }
    assert(drift.deep_view().take(i as int) =~= drift.deep_view());
    r
}

/// Result of an `apply` run.
#[derive(Debug, Clone)]
pub struct Report {
    pub module: String,
    /// Changes that were performed (empty when `dry_run`).
    pub applied: Vec<Change>,
    /// Changes that were planned but intentionally not performed.
    pub skipped: Vec<Change>,
    pub dry_run: bool,
}

/// The mathematical value of a [`Report`].
pub struct ReportV {
    pub module: Seq<char>,
    pub applied: Seq<ChangeV>,
    pub skipped: Seq<ChangeV>,
    pub dry_run: bool,
}

impl DeepView for Report {
    type V = ReportV;

    open spec fn deep_view(&self) -> ReportV {
        ReportV {
            module: self.module@,
            applied: self.applied.deep_view(),
            skipped: self.skipped.deep_view(),
            dry_run: self.dry_run,
        }
    }
}

/// A report for `module` with nothing applied or skipped.
pub open spec fn empty_report(module: Seq<char>, dry_run: bool) -> ReportV {
    ReportV { module, applied: Seq::empty(), skipped: Seq::empty(), dry_run }
}

impl Report {
    pub fn new(module: &str, dry_run: bool) -> (r: Self)
        ensures
            r.deep_view() == empty_report(module@, dry_run),
    {
        let r = Report { module: owned(module), applied: Vec::new(), skipped: Vec::new(), dry_run };
        assert(r.applied.deep_view() =~= Seq::<ChangeV>::empty());
        assert(r.skipped.deep_view() =~= Seq::<ChangeV>::empty());
        r
    }

    /// True when no changes were performed (already compliant, or dry-run).
    pub fn is_noop(&self) -> (r: bool)
        ensures
            r == (self.applied@.len() == 0),
    {
        self.applied.len() == 0
    }
}

/// Captured result of a command invocation.
#[derive(Debug, Clone)]
pub struct Output {
    pub code: i32,
    pub stdout: String,
    pub stderr: String,
}

impl Output {
    pub fn success(&self) -> (r: bool)
        ensures
            r == (self.code == 0),
    {
        self.code == 0
    }
}

/// Grouping for ordering and UI. Security modules form the always-on baseline.
#[derive(Debug, Clone, Copy, PartialEq, Eq, Structural, PartialOrd, Ord)]
pub enum Category {
    Security,
    System,
    Runtime,
    Network,
    App,
}

/// Plan position of a category: its place in declaration order.
pub open spec fn category_rank(c: Category) -> u8 {
    match c {
        Category::Security => 0,
        Category::System => 1,
        Category::Runtime => 2,
        Category::Network => 3,
        Category::App => 4,
    }
}

impl Category {
    /// Plan/dashboard ordering: security baseline first.
    pub fn rank(self) -> (r: u8)
        ensures
            r == category_rank(self),
    {
        match self {
            Category::Security => 0,
            Category::System => 1,
            Category::Runtime => 2,
            Category::Network => 3,
            Category::App => 4,
        }
    }
}

/// Errors raised by core logic and modules.
#[derive(Debug, Clone)]
pub enum Error {
    /// A file operation failed.
    Io { path: String, message: String },
    Config(String),
    Command { command: String, code: i32, stderr: String },
    /// A precondition that protects against lockout was not satisfied.
    Safety(String),
    Module { module: String, message: String },
}

/// The mathematical value of an [`Error`].
pub enum ErrorV {
    Io { path: Seq<char>, message: Seq<char> },
    Config(Seq<char>),
    Command { command: Seq<char>, code: i32, stderr: Seq<char> },
    Safety(Seq<char>),
    Module { module: Seq<char>, message: Seq<char> },
}

impl DeepView for Error {
    type V = ErrorV;

    open spec fn deep_view(&self) -> ErrorV {
        match self {
            Error::Io { path, message } => ErrorV::Io { path: path@, message: message@ },
            Error::Config(m) => ErrorV::Config(m@),
            Error::Command { command, code, stderr } => ErrorV::Command {
                command: command@,
                code: *code,
                stderr: stderr@,
            },
            Error::Safety(m) => ErrorV::Safety(m@),
            Error::Module { module, message } => ErrorV::Module {
                module: module@,
                message: message@,
            },
        }
    }
}

impl Error {
    /// A copy of this error.
    pub fn copy(&self) -> (r: Error)
        ensures
            r.deep_view() == self.deep_view(),
    {
        match self {
            Error::Io { path, message } => Error::Io { path: owned(path.as_str()), message: owned(message.as_str()) },
            Error::Config(m) => Error::Config(owned(m.as_str())),
            Error::Command { command, code, stderr } => Error::Command {
                command: owned(command.as_str()),
                code: *code,
                stderr: owned(stderr.as_str()),
            },
            Error::Safety(m) => Error::Safety(owned(m.as_str())),
            Error::Module { module, message } => Error::Module {
                module: owned(module.as_str()),
                message: owned(message.as_str()),
            },
        }
    }
}

/// Decimal rendering of a signed integer (`Display` for `i32`).
pub open spec fn signed_decimal(n: int) -> Seq<char> {
    if n < 0 {
        seq!['-'] + decimal((-n) as nat)
    } else {
        decimal(n as nat)
    }
}

/// The message an [`Error`] displays.
pub open spec fn error_text(e: ErrorV) -> Seq<char> {
    match e {
        ErrorV::Io { path, message } => "io error at "@ + path + ": "@ + message,
        ErrorV::Config(m) => "config error: "@ + m,
        ErrorV::Command { command, code, stderr } => "command `"@ + command + "` failed (exit "@
            + signed_decimal(code as int) + "): "@ + stderr,
        ErrorV::Safety(m) => "safety check failed: "@ + m,
        ErrorV::Module { module, message } => "module `"@ + module + "`: "@ + message,
    }
}

/// Decimal rendering of `n`.
pub fn signed_decimal_string(n: i32) -> (r: String)
    ensures
        r@ == signed_decimal(n as int),
{
    if n < 0 {
        let m: i64 = n as i64;
        let mag: u64 = (0i64 - m) as u64;
        let mut r = owned("-");
        let d = decimal_string(mag);
        push_str(&mut r, d.as_str());
        proof {
            reveal_strlit("-");
        }
        r
    } else {
        decimal_string(n as u64)
    }
}

impl Error {
    /// The human-readable message of this error.
    pub fn message(&self) -> (r: String)
        ensures
            r@ == error_text(self.deep_view()),
    {
        match self {
            Error::Io { path, message } => {
                let mut r = owned("io error at ");
                push_str(&mut r, path.as_str());
                push_str(&mut r, ": ");
                push_str(&mut r, message.as_str());
                r
            },
            Error::Config(m) => {
                let mut r = owned("config error: ");
                push_str(&mut r, m.as_str());
                r
            },
            Error::Command { command, code, stderr } => {
                let mut r = owned("command `");
                push_str(&mut r, command.as_str());
                push_str(&mut r, "` failed (exit ");
                let c = signed_decimal_string(*code);
                push_str(&mut r, c.as_str());
                push_str(&mut r, "): ");
                push_str(&mut r, stderr.as_str());
                r
            },
            Error::Safety(m) => {
                let mut r = owned("safety check failed: ");
                push_str(&mut r, m.as_str());
                r
            },
            Error::Module { module, message } => {
                let mut r = owned("module `");
                push_str(&mut r, module.as_str());
                push_str(&mut r, "`: ");
                push_str(&mut r, message.as_str());
                r
            },
        }
    }
}

/// The status a module reports for a list of drift descriptions.
pub open spec fn drift_status(drift: Seq<Seq<char>>) -> StatusV {
    if drift.len() == 0 {
        StatusV { state: State::Compliant, detail: compliant_text() }
    } else {
        StatusV { state: State::Drift, detail: join(drift, seq![';', ' ']) }
    }
}

/// Compliant when there is no drift, else drift with the descriptions
/// joined by "; ".
pub fn drift_to_status(drift: &Vec<String>) -> (r: Status)
    ensures
        r.deep_view() == drift_status(drift.deep_view()),
{
    if drift.len() == 0 {
        Status::compliant()
    } else {
        let sep = "; ";
        proof {
            reveal_strlit("; ");
            assert(sep@ =~= seq![';', ' ']);
        }
        let detail = join_strings(drift, sep);
        Status::drift(detail.as_str())
    }
}

/// The output of a finished local process: its exit code (-1 when it was
/// ended by a signal) and its decoded output streams.
pub fn process_output(code: Option<i32>, stdout: String, stderr: String) -> (r: Output)
    ensures
        r.code == (match code {
            Some(c) => c,
            None => -1i32,
        }),
        r.stdout == stdout,
        r.stderr == stderr,
{
    let c = match code {
        Some(c) => c,
        None => -1,
    };
    Output { code: c, stdout, stderr }
}

/// The error for a command that could not be started: the command line,
/// code -1 and the reason.
pub fn spawn_error(command: &str, args: &Vec<String>, reason: &str) -> (r: Error)
    ensures
        r.deep_view() == (ErrorV::Command {
            command: command@ + seq![' '] + join(args.deep_view(), seq![' ']),
            code: -1i32,
            stderr: reason@,
        }),
{
    let line = crate::action::render_command_line(command, args);
    Error::Command { command: line, code: -1, stderr: owned(reason) }
}

} // verus!
