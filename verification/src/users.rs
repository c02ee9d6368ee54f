//! User management: create accounts, grant sudo, install SSH keys.
//!
//! Sudo is granted with a per-user file under /etc/sudoers.d (validated by
//! `visudo -cf`), which is portable across distros where the sudo group name
//! differs. SSH keys are merged into the user's authorized_keys, never
//! removing keys the operator added by hand. Accounts are created with
//! `useradd`.

use vstd::prelude::*;

use crate::action::{append_all, args2, args3, args4, remove, remove_quiet, run_checked, run_quiet, write_file, Plan, PlanV, Step, StepV};
use crate::common::{resolve, spec_resolve};
use crate::config::UserConfig;
use crate::text::{
    chars_of, decimal, decimal_string, has_prefix, lines, owned, push_char, push_str, split_lines,
    starts_with, str_eq, terminated, trim, trim_owned,
};
use crate::types::{
    command_change, command_changes, commands_of, drift_status, drift_to_status,
    empty_report, Category, Change, ChangeV, Report, ReportV, State, Status, StatusV,
};

verus! {

/// The account database.
pub const PASSWD: &'static str = "/etc/passwd";

/// Where per-user sudo grants live.
pub const SUDOERS_DIR: &'static str = "/etc/sudoers.d";

/// `/etc/sudoers.d/gli-NAME`.
pub open spec fn spec_sudoers_file(name: Seq<char>) -> Seq<char> {
    SUDOERS_DIR@ + "/gli-"@ + name
}

/// `/home/NAME/.ssh`.
pub open spec fn spec_ssh_dir(name: Seq<char>) -> Seq<char> {
    "/home/"@ + name + "/.ssh"@
}

/// `/home/NAME/.ssh/authorized_keys`.
pub open spec fn spec_authorized_keys(name: Seq<char>) -> Seq<char> {
    spec_ssh_dir(name) + "/authorized_keys"@
}

/// The sudoers grant: `NAME ALL=(ALL:ALL) ALL` and a newline.
pub open spec fn spec_sudoers_content(name: Seq<char>) -> Seq<char> {
    name + " ALL=(ALL:ALL) ALL\n"@
}

pub fn sudoers_file(name: &str) -> (r: String)
    ensures
        r@ == spec_sudoers_file(name@),
{
    let mut r = owned(SUDOERS_DIR);
    push_str(&mut r, "/gli-");
    push_str(&mut r, name);
    r
}

fn ssh_dir(name: &str) -> (r: String)
    ensures
        r@ == spec_ssh_dir(name@),
{
    let mut r = owned("/home/");
    push_str(&mut r, name);
    push_str(&mut r, "/.ssh");
    r
}

pub fn authorized_keys(name: &str) -> (r: String)
    ensures
        r@ == spec_authorized_keys(name@),
{
    let mut r = ssh_dir(name);
    push_str(&mut r, "/authorized_keys");
    r
}

pub fn sudoers_content(name: &str) -> (r: String)
    ensures
        r@ == spec_sudoers_content(name@),
{
    let mut r = owned(name);
    push_str(&mut r, " ALL=(ALL:ALL) ALL\n");
    r
}

// ---------------------------------------------------------------------------
// Keys
// ---------------------------------------------------------------------------

/// The trimmed lines of an authorized_keys text: the keys it holds.
pub open spec fn key_lines(existing: Seq<char>) -> Seq<Seq<char>> {
    lines(existing).map_values(|l: Seq<char>| trim(l))
}

/// How many of `want`, trimmed, are not in `have`.
pub open spec fn count_missing(have: Seq<Seq<char>>, want: Seq<Seq<char>>) -> nat
    decreases want.len(),
{
    if want.len() == 0 {
        0
    } else {
        count_missing(have, want.drop_last()) + (if have.contains(trim(want.last())) {
            0nat
        } else {
            1nat
        })
    }
}

/// Each of `want` not in `have`, trimmed and followed by a newline.
pub open spec fn appended(have: Seq<Seq<char>>, want: Seq<Seq<char>>) -> Seq<char>
    decreases want.len(),
{
    if want.len() == 0 {
        Seq::empty()
    } else {
        appended(have, want.drop_last()) + (if have.contains(trim(want.last())) {
            Seq::empty()
        } else {
            trim(want.last()).push('\n')
        })
    }
}

/// Count configured keys not already present (by trimmed-line equality).
pub open spec fn spec_missing_keys(existing: Seq<char>, want: Seq<Seq<char>>) -> nat {
    count_missing(key_lines(existing), want)
}

/// Append any missing keys to `existing`, preserving operator-added keys.
pub open spec fn spec_merge_keys(existing: Seq<char>, want: Seq<Seq<char>>) -> Seq<char> {
    terminated(existing) + appended(key_lines(existing), want)
}

/// The trimmed lines of `existing`.
fn trimmed_lines(existing: &str) -> (r: Vec<String>)
    ensures
        r.deep_view() == key_lines(existing@),
{
    let ls = split_lines(existing);
    let mut out: Vec<String> = Vec::new();
    let mut i: usize = 0;
    while i < ls.len()
        invariant
            i <= ls@.len(),
            ls.deep_view() == lines(existing@),
            out.deep_view() == ls.deep_view().take(i as int).map_values(|l: Seq<char>| trim(l)),
        decreases ls@.len() - i,
    {
        let t = trim_owned(ls[i].as_str());
        let ghost before = out.deep_view();
        out.push(t);
        proof {
            assert(out.deep_view() =~= before.push(t@));
            assert(ls.deep_view().take(i + 1).map_values(|l: Seq<char>| trim(l)) =~= ls.deep_view().take(
                i as int,
            ).map_values(|l: Seq<char>| trim(l)).push(trim(ls.deep_view()[i as int])));
        }
        i = i + 1;
    }
    assert(ls.deep_view().take(i as int) =~= ls.deep_view());
    out
}

/// Whether `have` holds `k`.
fn holds(have: &Vec<String>, k: &str) -> (r: bool)
    ensures
        r == have.deep_view().contains(k@),
{
    let mut i: usize = 0;
    while i < have.len()
        invariant
            i <= have@.len(),
            forall|j: int| 0 <= j < i ==> have.deep_view()[j] != k@,
        decreases have@.len() - i,
    {
        if str_eq(have[i].as_str(), k) {
            assert(have.deep_view()[i as int] == k@);
            return true;
        }
        i = i + 1;
    }
    false
}

/// Count configured keys not already present (by trimmed-line equality).
pub fn missing_keys(existing: &str, want: &Vec<String>) -> (r: usize)
    ensures
        r == spec_missing_keys(existing@, want.deep_view()),
{
    let have = trimmed_lines(existing);
    let mut n: usize = 0;
    let mut i: usize = 0;
    while i < want.len()
        invariant
            i <= want@.len(),
            have.deep_view() == key_lines(existing@),
            n == count_missing(have.deep_view(), want.deep_view().take(i as int)),
            n <= i,
        decreases want@.len() - i,
    {
        let k = trim_owned(want[i].as_str());
        proof {
            assert(want.deep_view().take(i + 1).drop_last() =~= want.deep_view().take(i as int));
        }
        if !holds(&have, k.as_str()) {
            n = n + 1;
        }
        i = i + 1;
    }
    assert(want.deep_view().take(i as int) =~= want.deep_view());
    n
}

/// Append any missing keys to `existing`, preserving operator-added keys.
pub fn merge_keys(existing: &str, want: &Vec<String>) -> (r: String)
    ensures
        r@ == spec_merge_keys(existing@, want.deep_view()),
{
    let have = trimmed_lines(existing);
    let mut out = owned(existing);
    let ec = chars_of(existing);
    if ec.len() > 0 && ec[ec.len() - 1] != '\n' {
        push_char(&mut out, '\n');
    }
    let ghost base = out@;
    assert(base == terminated(existing@));
    let mut i: usize = 0;
    while i < want.len()
        invariant
            i <= want@.len(),
            have.deep_view() == key_lines(existing@),
            out@ == base + appended(have.deep_view(), want.deep_view().take(i as int)),
        decreases want@.len() - i,
    {
        let k = trim_owned(want[i].as_str());
        proof {
            assert(want.deep_view().take(i + 1).drop_last() =~= want.deep_view().take(i as int));
        }
        if !holds(&have, k.as_str()) {
            let ghost prev = out@;
            push_str(&mut out, k.as_str());
            push_char(&mut out, '\n');
            assert(out@ =~= prev + k@.push('\n'));
        }
        proof {
            let t = want.deep_view().take(i + 1);
            assert(base + appended(have.deep_view(), t) =~= base + appended(have.deep_view(), t.drop_last()) + (if have.deep_view().contains(trim(t.last())) {
                Seq::<char>::empty()
            } else {
                trim(t.last()).push('\n')
            }));
        }
        i = i + 1;
    }
    assert(want.deep_view().take(i as int) =~= want.deep_view());
    out
}

// ---------------------------------------------------------------------------
// Accounts
// ---------------------------------------------------------------------------

/// Some line of the account database starts with `NAME:`.
pub open spec fn spec_user_exists(passwd: Seq<char>, name: Seq<char>) -> bool {
    exists|i: int| 0 <= i < lines(passwd).len() && has_prefix(#[trigger] lines(passwd)[i], name + ":"@)
}

/// Whether the account database holds `name`.
pub fn user_exists(passwd: &str, name: &str) -> (r: bool)
    ensures
        r == spec_user_exists(passwd@, name@),
{
    let ls = split_lines(passwd);
    let mut prefix = owned(name);
    push_str(&mut prefix, ":");
    let mut i: usize = 0;
    while i < ls.len()
        invariant
            i <= ls@.len(),
            ls.deep_view() == lines(passwd@),
            prefix@ == name@ + ":"@,
            forall|j: int| 0 <= j < i ==> !has_prefix(#[trigger] lines(passwd@)[j], name@ + ":"@),
        decreases ls@.len() - i,
    {
        if starts_with(ls[i].as_str(), prefix.as_str()) {
            assert(lines(passwd@)[i as int] == ls.deep_view()[i as int]);
            return true;
        }
        i = i + 1;
    }
    false
}

} // verus!

verus! {

// ---------------------------------------------------------------------------
// The module
// ---------------------------------------------------------------------------

/// User management module.
#[derive(Debug, Default)]
pub struct UsersModule;

/// A configured user with what was read for it: its authorized_keys (empty
/// when absent) and its sudoers grant file, if any.
#[derive(Debug, Clone)]
pub struct ObservedUser {
    pub name: String,
    pub spec: UserConfig,
    pub authorized_keys: String,
    pub sudoers: Option<String>,
}

/// The mathematical value of an [`ObservedUser`].
pub struct ObservedUserV {
    pub name: Seq<char>,
    pub sudo: bool,
    pub keys: Seq<Seq<char>>,
    pub authorized_keys: Seq<char>,
    pub sudoers: Option<Seq<char>>,
}

impl DeepView for ObservedUser {
    type V = ObservedUserV;

    open spec fn deep_view(&self) -> ObservedUserV {
        ObservedUserV {
            name: self.name@,
            sudo: self.spec.sudo,
            keys: self.spec.ssh_keys.deep_view(),
            authorized_keys: self.authorized_keys@,
            sudoers: self.sudoers.deep_view(),
        }
    }
}

/// A file's text, or empty when it is absent.
pub open spec fn or_empty(f: Option<Seq<char>>) -> Seq<char> {
    match f {
        Some(t) => t,
        None => Seq::empty(),
    }
}

/// Drift descriptions for one user (empty when compliant).
pub open spec fn spec_user_drift(passwd: Seq<char>, u: ObservedUserV) -> Seq<Seq<char>> {
    let create = if !spec_user_exists(passwd, u.name) {
        seq!["create user "@ + u.name]
    } else {
        Seq::empty()
    };
    let missing = spec_missing_keys(u.authorized_keys, u.keys);
    let keys = if u.keys.len() > 0 && missing > 0 {
        seq!["install "@ + decimal(missing) + " SSH key(s) for "@ + u.name]
    } else {
        Seq::empty()
    };
    let sudoers = or_empty(u.sudoers);
    let sudo = if u.sudo && sudoers != spec_sudoers_content(u.name) {
        seq!["grant sudo to "@ + u.name]
    } else if !u.sudo && sudoers.len() > 0 {
        seq!["revoke sudo from "@ + u.name]
    } else {
        Seq::empty()
    };
    create + keys + sudo
}

/// The drift of every user, in order.
pub open spec fn all_drift(passwd: Seq<char>, us: Seq<ObservedUserV>) -> Seq<Seq<char>>
    decreases us.len(),
{
    if us.len() == 0 {
        Seq::empty()
    } else {
        all_drift(passwd, us.drop_last()) + spec_user_drift(passwd, us.last())
    }
}

/// The steps that bring one user in line, and the changes they make.
pub open spec fn user_work(passwd: Seq<char>, u: ObservedUserV, root: Seq<char>) -> (Seq<StepV>, Seq<ChangeV>) {
    let (s1, a1) = if !spec_user_exists(passwd, u.name) {
        (
            seq![StepV::RunChecked { command: "useradd"@, args: seq!["-m"@, "-s"@, "/bin/bash"@, u.name] }],
            seq![command_change("create user "@ + u.name)],
        )
    } else {
        (Seq::empty(), Seq::empty())
    };
    let merged = spec_merge_keys(u.authorized_keys, u.keys);
    let dir = spec_resolve(root, spec_ssh_dir(u.name));
    let (s2, a2) = if u.keys.len() > 0 && merged != u.authorized_keys {
        (
            seq![
                StepV::Write { path: spec_authorized_keys(u.name), body: merged },
                StepV::RunChecked { command: "chmod"@, args: seq!["700"@, dir] },
                StepV::RunChecked {
                    command: "chmod"@,
                    args: seq!["600"@, spec_resolve(root, spec_authorized_keys(u.name))],
                },
                StepV::RunChecked { command: "chown"@, args: seq!["-R"@, u.name + ":"@ + u.name, dir] },
            ],
            seq![command_change("install SSH keys for "@ + u.name)],
        )
    } else {
        (Seq::empty(), Seq::empty())
    };
    let file = spec_sudoers_file(u.name);
    let (s3, a3) = if u.sudo {
        if or_empty(u.sudoers) != spec_sudoers_content(u.name) {
            (
                seq![
                    StepV::Write { path: file, body: spec_sudoers_content(u.name) },
                    StepV::Validate {
                        command: "visudo"@,
                        args: seq!["-cf"@, spec_resolve(root, file)],
                        staged: file,
                        reason: "sudoers file for "@ + u.name + " rejected by visudo"@,
                    },
                ],
                seq![command_change("grant sudo to "@ + u.name)],
            )
        } else {
            (Seq::empty(), Seq::empty())
        }
    } else if u.sudoers is Some {
        (seq![StepV::Remove { path: file }], seq![command_change("revoke sudo from "@ + u.name)])
    } else {
        (Seq::empty(), Seq::empty())
    };
    (s1 + s2 + s3, a1 + a2 + a3)
}

/// The steps of every user, in order.
pub open spec fn all_steps(passwd: Seq<char>, us: Seq<ObservedUserV>, root: Seq<char>) -> Seq<StepV>
    decreases us.len(),
{
    if us.len() == 0 {
        Seq::empty()
    } else {
        all_steps(passwd, us.drop_last(), root) + user_work(passwd, us.last(), root).0
    }
}

/// The changes of every user, in order.
pub open spec fn all_applied(passwd: Seq<char>, us: Seq<ObservedUserV>, root: Seq<char>) -> Seq<ChangeV>
    decreases us.len(),
{
    if us.len() == 0 {
        Seq::empty()
    } else {
        all_applied(passwd, us.drop_last(), root) + user_work(passwd, us.last(), root).1
    }
}

/// `check`.
pub open spec fn spec_check(passwd: Seq<char>, us: Seq<ObservedUserV>) -> StatusV {
    if us.len() == 0 {
        StatusV { state: State::NotApplicable, detail: "no users configured"@ }
    } else {
        drift_status(all_drift(passwd, us))
    }
}

/// `apply`: nothing without users or drift; the drift as skipped changes on
/// a dry run; else every user's steps in turn.
pub open spec fn spec_apply(passwd: Seq<char>, us: Seq<ObservedUserV>, dry_run: bool, root: Seq<char>) -> PlanV {
    let planned = command_changes(all_drift(passwd, us));
    if us.len() == 0 || planned.len() == 0 {
        PlanV { steps: Seq::empty(), report: empty_report("users"@, dry_run) }
    } else if dry_run {
        PlanV {
            steps: Seq::empty(),
            report: ReportV { module: "users"@, applied: Seq::empty(), skipped: planned, dry_run },
        }
    } else {
        PlanV {
            steps: all_steps(passwd, us, root),
            report: ReportV {
                module: "users"@,
                applied: all_applied(passwd, us, root),
                skipped: Seq::empty(),
                dry_run,
            },
        }
    }
}

/// `rollback`: revoke every managed sudo grant; accounts and keys stay.
pub open spec fn spec_rollback(names: Seq<Seq<char>>) -> Seq<StepV> {
    names.map_values(|n: Seq<char>| StepV::RemoveQuiet { path: spec_sudoers_file(n) })
}

/// The steps and changes of `uninstall` for one user.
pub open spec fn uninstall_one(name: Seq<char>, purge: bool) -> (Seq<StepV>, Seq<ChangeV>) {
    let s = seq![StepV::RemoveQuiet { path: spec_sudoers_file(name) }];
    let a = seq![command_change("revoke sudo from "@ + name)];
    if purge {
        (
            s.push(StepV::RunQuiet { command: "userdel"@, args: seq!["-r"@, name] }),
            a.push(command_change("delete user "@ + name)),
        )
    } else {
        (s, a)
    }
}

/// `uninstall`: revoke every grant; with `purge`, delete the accounts too.
pub open spec fn spec_uninstall(names: Seq<Seq<char>>, purge: bool) -> PlanV
    decreases names.len(),
{
    if names.len() == 0 {
        PlanV { steps: Seq::empty(), report: empty_report("users"@, false) }
    } else {
        let p = spec_uninstall(names.drop_last(), purge);
        let (s, a) = uninstall_one(names.last(), purge);
        PlanV {
            steps: p.steps + s,
            report: ReportV { applied: p.report.applied + a, ..p.report },
        }
    }
}

/// Drift descriptions for one user (empty when compliant).
pub fn user_drift(passwd: &str, u: &ObservedUser) -> (r: Vec<String>)
    ensures
        r.deep_view() == spec_user_drift(passwd@, u.deep_view()),
{
    let ghost v = u.deep_view();
    let mut drift: Vec<String> = Vec::new();
    if !user_exists(passwd, u.name.as_str()) {
        let mut m = owned("create user ");
        push_str(&mut m, u.name.as_str());
        drift.push(m);
    }
    let ghost d1 = drift.deep_view();
    if u.spec.ssh_keys.len() > 0 {
        let missing = missing_keys(u.authorized_keys.as_str(), &u.spec.ssh_keys);
        if missing > 0 {
            let mut m = owned("install ");
            let n = decimal_string(missing as u64);
            push_str(&mut m, n.as_str());
            push_str(&mut m, " SSH key(s) for ");
            push_str(&mut m, u.name.as_str());
            drift.push(m);
        }
    }
    let ghost d2 = drift.deep_view();
    let sudoers = match &u.sudoers {
        Some(t) => owned(t.as_str()),
        None => String::new(),
    };
    let want = sudoers_content(u.name.as_str());
    if u.spec.sudo && !str_eq(sudoers.as_str(), want.as_str()) {
        let mut m = owned("grant sudo to ");
        push_str(&mut m, u.name.as_str());
        drift.push(m);
    } else if !u.spec.sudo && !sudoers.as_str().is_empty() {
        let mut m = owned("revoke sudo from ");
        push_str(&mut m, u.name.as_str());
        drift.push(m);
    }
    proof {
        let sp = spec_user_drift(passwd@, v);
        assert(sudoers@ == or_empty(v.sudoers));
        assert(drift.deep_view() =~= sp);
    }
    drift
}

/// The steps that bring one user in line, and the changes they make.
pub fn apply_user(passwd: &str, u: &ObservedUser, root: &str) -> (r: (Vec<Step>, Vec<Change>))
    ensures
        r.0.deep_view() == user_work(passwd@, u.deep_view(), root@).0,
        r.1.deep_view() == user_work(passwd@, u.deep_view(), root@).1,
{
    let ghost v = u.deep_view();
    let name = u.name.as_str();
    let mut steps: Vec<Step> = Vec::new();
    let mut applied: Vec<Change> = Vec::new();
    if !user_exists(passwd, name) {
        steps.push(run_checked("useradd", args4("-m", "-s", "/bin/bash", name)));
        let mut m = owned("create user ");
        push_str(&mut m, name);
        applied.push(Change::command(m.as_str()));
    }
    let ghost s1 = steps.deep_view();
    let ghost a1 = applied.deep_view();
    if u.spec.ssh_keys.len() > 0 {
        let ak_abs = authorized_keys(name);
        let merged = merge_keys(u.authorized_keys.as_str(), &u.spec.ssh_keys);
        if !str_eq(merged.as_str(), u.authorized_keys.as_str()) {
            let dir_abs = ssh_dir(name);
            let dir = resolve(root, dir_abs.as_str());
            let ak = resolve(root, ak_abs.as_str());
            let mut owner = owned(name);
            push_str(&mut owner, ":");
            push_str(&mut owner, name);
            steps.push(write_file(ak_abs.as_str(), merged.as_str()));
            steps.push(run_checked("chmod", args2("700", dir.as_str())));
            steps.push(run_checked("chmod", args2("600", ak.as_str())));
            steps.push(run_checked("chown", args3("-R", owner.as_str(), dir.as_str())));
            let mut m = owned("install SSH keys for ");
            push_str(&mut m, name);
            applied.push(Change::command(m.as_str()));
        }
    }
    let ghost s2 = steps.deep_view();
    let ghost a2 = applied.deep_view();
    let file = sudoers_file(name);
    if u.spec.sudo {
        let want = sudoers_content(name);
        let current = match &u.sudoers {
            Some(t) => owned(t.as_str()),
            None => String::new(),
        };
        if !str_eq(current.as_str(), want.as_str()) {
            let path = resolve(root, file.as_str());
            let mut reason = owned("sudoers file for ");
            push_str(&mut reason, name);
            push_str(&mut reason, " rejected by visudo");
            steps.push(write_file(file.as_str(), want.as_str()));
            steps.push(
                Step::Validate {
                    command: owned("visudo"),
                    args: args2("-cf", path.as_str()),
                    staged: owned(file.as_str()),
                    reason,
                },
            );
            let mut m = owned("grant sudo to ");
            push_str(&mut m, name);
            applied.push(Change::command(m.as_str()));
        }
    } else if u.sudoers.is_some() {
        steps.push(remove(file.as_str()));
        let mut m = owned("revoke sudo from ");
        push_str(&mut m, name);
        applied.push(Change::command(m.as_str()));
    }
    proof {
        let w = user_work(passwd@, v, root@);
        assert(steps.deep_view() =~= w.0);
        assert(applied.deep_view() =~= w.1);
    }
    (steps, applied)
}

impl UsersModule {
    pub fn name(&self) -> (r: &'static str)
        ensures
            r@ == "users"@,
    {
        "users"
    }

    pub fn summary(&self) -> (r: &'static str)
        ensures
            r@ == "Create users, grant sudo via sudoers.d, install SSH keys"@,
    {
        "Create users, grant sudo via sudoers.d, install SSH keys"
    }

    pub fn category(&self) -> (r: Category)
        ensures
            r == Category::Security,
    {
        Category::Security
    }

    fn drift(passwd: &str, users: &Vec<ObservedUser>) -> (r: Vec<String>)
        ensures
            r.deep_view() == all_drift(passwd@, users.deep_view()),
    {
        let mut drift: Vec<String> = Vec::new();
        let mut i: usize = 0;
        assert(drift.deep_view() =~= all_drift(passwd@, users.deep_view().take(0)));
        while i < users.len()
            invariant
                i <= users@.len(),
                drift.deep_view() == all_drift(passwd@, users.deep_view().take(i as int)),
            decreases users@.len() - i,
        {
            let d = user_drift(passwd, &users[i]);
            append_all(&mut drift, d);
            assert(users.deep_view().take(i + 1).drop_last() =~= users.deep_view().take(i as int));
            i = i + 1;
        }
        assert(users.deep_view().take(i as int) =~= users.deep_view());
        drift
    }

    /// Report each user's drift. Read-only.
    pub fn check(&self, passwd: &str, users: &Vec<ObservedUser>) -> (r: Status)
        ensures
            r.deep_view() == spec_check(passwd@, users.deep_view()),
    {
        if users.len() == 0 {
            return Status::not_applicable("no users configured");
        }
        let drift = Self::drift(passwd, users);
        drift_to_status(&drift)
    }

    /// The changes `apply` would make.
    pub fn plan(&self, passwd: &str, users: &Vec<ObservedUser>) -> (r: Vec<Change>)
        ensures
            r.deep_view() == command_changes(all_drift(passwd@, users.deep_view())),
    {
        let drift = Self::drift(passwd, users);
        commands_of(&drift)
    }

    /// Decide how to bring every configured user in line.
    pub fn apply(&self, passwd: &str, users: &Vec<ObservedUser>, dry_run: bool, root: &str) -> (r: Plan)
        ensures
            r.deep_view() == spec_apply(passwd@, users.deep_view(), dry_run, root@),
    {
        let mut report = Report::new("users", dry_run);
        let mut steps: Vec<Step> = Vec::new();
        assert(steps.deep_view() =~= Seq::<StepV>::empty());
        if users.len() == 0 {
            return Plan { steps, report };
        }
        let drift = Self::drift(passwd, users);
        let planned = commands_of(&drift);
        if planned.len() == 0 {
            return Plan { steps, report };
        }
        if dry_run {
            report.skipped = planned;
            return Plan { steps, report };
        }
        let mut applied: Vec<Change> = Vec::new();
        let mut i: usize = 0;
        assert(steps.deep_view() =~= all_steps(passwd@, users.deep_view().take(0), root@));
        assert(applied.deep_view() =~= all_applied(passwd@, users.deep_view().take(0), root@));
        while i < users.len()
            invariant
                i <= users@.len(),
                steps.deep_view() == all_steps(passwd@, users.deep_view().take(i as int), root@),
                applied.deep_view() == all_applied(passwd@, users.deep_view().take(i as int), root@),
            decreases users@.len() - i,
        {
            let (s, a) = apply_user(passwd, &users[i], root);
            append_all(&mut steps, s);
            append_all(&mut applied, a);
            assert(users.deep_view().take(i + 1).drop_last() =~= users.deep_view().take(i as int));
            i = i + 1;
        }
        assert(users.deep_view().take(i as int) =~= users.deep_view());
        report.applied = applied;
        Plan { steps, report }
    }

    /// Revoke every managed sudo grant; accounts and keys are left in place
    /// (removing them risks locking out the operator).
    pub fn rollback(&self, names: &Vec<String>) -> (r: Vec<Step>)
        ensures
            r.deep_view() == spec_rollback(names.deep_view()),
    {
        let mut steps: Vec<Step> = Vec::new();
        let mut i: usize = 0;
        while i < names.len()
            invariant
                i <= names@.len(),
                steps.deep_view() == spec_rollback(names.deep_view().take(i as int)),
            decreases names@.len() - i,
        {
            let f = sudoers_file(names[i].as_str());
            let ghost before = steps.deep_view();
            steps.push(remove_quiet(f.as_str()));
            proof {
                assert(steps.deep_view() =~= before.push(StepV::RemoveQuiet { path: f@ }));
                assert(spec_rollback(names.deep_view().take(i + 1)) =~= spec_rollback(
                    names.deep_view().take(i as int),
                ).push(StepV::RemoveQuiet { path: spec_sudoers_file(names.deep_view()[i as int]) }));
            }
            i = i + 1;
        }
        assert(names.deep_view().take(i as int) =~= names.deep_view());
        steps
    }

    /// Revoke every grant; with `purge`, also delete the accounts and their
    /// home directories.
    pub fn uninstall(&self, names: &Vec<String>, purge: bool) -> (r: Plan)
        ensures
            r.deep_view() == spec_uninstall(names.deep_view(), purge),
    {
        let mut report = Report::new("users", false);
        let mut steps: Vec<Step> = Vec::new();
        let mut i: usize = 0;
        assert(steps.deep_view() =~= Seq::<StepV>::empty());
        assert(names.deep_view().take(0) =~= Seq::<Seq<char>>::empty());
        while i < names.len()
            invariant
                i <= names@.len(),
                (PlanV { steps: steps.deep_view(), report: report.deep_view() }) == spec_uninstall(
                    names.deep_view().take(i as int),
                    purge,
                ),
            decreases names@.len() - i,
        {
            let name = names[i].as_str();
            let ghost s0 = steps.deep_view();
            let ghost a0 = report.applied.deep_view();
            steps.push(remove_quiet(sudoers_file(name).as_str()));
            let mut m = owned("revoke sudo from ");
            push_str(&mut m, name);
            report.applied.push(Change::command(m.as_str()));
            if purge {
                steps.push(run_quiet("userdel", args2("-r", name)));
                let mut d = owned("delete user ");
                push_str(&mut d, name);
                report.applied.push(Change::command(d.as_str()));
            }
            proof {
                let t = names.deep_view().take(i + 1);
                assert(t.drop_last() =~= names.deep_view().take(i as int));
                let (s, a) = uninstall_one(names.deep_view()[i as int], purge);
                assert(steps.deep_view() =~= s0 + s);
                assert(report.applied.deep_view() =~= a0 + a);
            }
            i = i + 1;
        }
        assert(names.deep_view().take(i as int) =~= names.deep_view());
        Plan { steps, report }
    }
}

} // verus!

verus! {

// ---------------------------------------------------------------------------
// Laws of key merging
// ---------------------------------------------------------------------------

/// The keys `appended` adds, in order.
pub open spec fn added_keys(have: Seq<Seq<char>>, want: Seq<Seq<char>>) -> Seq<Seq<char>>
    decreases want.len(),
{
    if want.len() == 0 {
        Seq::empty()
    } else {
        added_keys(have, want.drop_last()) + (if have.contains(trim(want.last())) {
            Seq::empty()
        } else {
            seq![trim(want.last())]
        })
    }
}

/// Every key, once trimmed, is a single line.
pub open spec fn single_line_keys(want: Seq<Seq<char>>) -> bool {
    forall|i: int, j: int|
        0 <= i < want.len() && 0 <= j < trim(want[i]).len() ==> #[trigger] trim(want[i])[j] != '\n'
}

proof fn lemma_appended_lines(have: Seq<Seq<char>>, want: Seq<Seq<char>>)
    requires
        single_line_keys(want),
    ensures
        lines(appended(have, want)) == added_keys(have, want),
        appended(have, want).len() == 0 || appended(have, want).last() == '\n',
        added_keys(have, want).map_values(|l: Seq<char>| trim(l)) == added_keys(have, want),
    decreases want.len(),
{
    if want.len() == 0 {
        assert(lines(Seq::<char>::empty()) =~= Seq::<Seq<char>>::empty());
        assert(added_keys(have, want).map_values(|l: Seq<char>| trim(l)) =~= added_keys(have, want));
    } else {
        let w = want.drop_last();
        assert forall|i: int, j: int| 0 <= i < w.len() && 0 <= j < trim(w[i]).len() implies #[trigger] trim(
            w[i],
        )[j] != '\n' by {
            assert(w[i] == want[i]);
        }
        lemma_appended_lines(have, w);
        let k = trim(want.last());
        let front = appended(have, w);
        crate::text::lemma_trim_idempotent(want.last());
        if have.contains(k) {
            assert(appended(have, want) =~= front);
            assert(added_keys(have, want) =~= added_keys(have, w));
        } else {
            let piece = k.push('\n');
            assert(appended(have, want) =~= front + piece);
            crate::text::lemma_trim_ends(want.last());
            assert forall|j: int| 0 <= j < k.len() implies #[trigger] k[j] != '\n' by {
                assert(trim(want[want.len() - 1])[j] != '\n');
            }
            if k.len() > 0 {
                assert(crate::text::is_ws('\r'));
            }
            crate::text::lemma_lines_single(k);
            crate::text::lemma_lines_concat(front, piece);
            assert(added_keys(have, want) =~= added_keys(have, w) + seq![k]);
            assert(added_keys(have, want).map_values(|l: Seq<char>| trim(l)) =~= added_keys(
                have,
                w,
            ).map_values(|l: Seq<char>| trim(l)) + seq![trim(k)]);
        }
    }
}

proof fn lemma_added_covers(have: Seq<Seq<char>>, want: Seq<Seq<char>>, j: int)
    requires
        0 <= j < want.len(),
        !have.contains(trim(want[j])),
    ensures
        added_keys(have, want).contains(trim(want[j])),
    decreases want.len(),
{
    let w = want.drop_last();
    let front = added_keys(have, w);
    if j == want.len() - 1 {
        let a = added_keys(have, want);
        assert(a[a.len() - 1] == trim(want[j]));
    } else {
        assert(w[j] == want[j]);
        lemma_added_covers(have, w, j);
        let i = choose|i: int| 0 <= i < front.len() && front[i] == trim(want[j]);
        assert(added_keys(have, want)[i] == front[i]);
    }
}

proof fn lemma_all_present(have: Seq<Seq<char>>, want: Seq<Seq<char>>)
    requires
        forall|i: int| 0 <= i < want.len() ==> have.contains(trim(#[trigger] want[i])),
    ensures
        count_missing(have, want) == 0,
        appended(have, want) == Seq::<char>::empty(),
    decreases want.len(),
{
    if want.len() > 0 {
        let w = want.drop_last();
        assert forall|i: int| 0 <= i < w.len() implies have.contains(trim(#[trigger] w[i])) by {
            assert(w[i] == want[i]);
        }
        lemma_all_present(have, w);
        assert(have.contains(trim(want[want.len() - 1])));
        assert(appended(have, want) =~= Seq::<char>::empty());
    }
}

/// The keys of a merged file: the old ones, then the added ones.
proof fn lemma_merged_keys(existing: Seq<char>, want: Seq<Seq<char>>)
    requires
        single_line_keys(want),
    ensures
        key_lines(spec_merge_keys(existing, want)) == key_lines(existing) + added_keys(
            key_lines(existing),
            want,
        ),
        spec_merge_keys(existing, want).len() == 0 || spec_merge_keys(existing, want).last() == '\n',
{
    let k = key_lines(existing);
    let t = terminated(existing);
    lemma_appended_lines(k, want);
    if existing.len() > 0 && existing.last() != '\n' {
        crate::text::lemma_lines_push_nl_trim(existing);
    }
    assert(key_lines(t) == k);
    crate::text::lemma_lines_concat(t, appended(k, want));
    assert(lines(spec_merge_keys(existing, want)) == lines(t) + added_keys(k, want));
    assert((lines(t) + added_keys(k, want)).map_values(|l: Seq<char>| trim(l)) =~= key_lines(t)
        + added_keys(k, want).map_values(|l: Seq<char>| trim(l)));
    let m = spec_merge_keys(existing, want);
    let a = appended(k, want);
    if a.len() > 0 {
        assert(m.last() == a.last());
    } else {
        assert(m =~= t);
    }
}

/// Law: after a merge no configured key is missing (for keys that are one
/// line each).
pub proof fn law_merge_covers(existing: Seq<char>, want: Seq<Seq<char>>)
    requires
        single_line_keys(want),
    ensures
        spec_missing_keys(spec_merge_keys(existing, want), want) == 0,
{
    let k = key_lines(existing);
    let m = spec_merge_keys(existing, want);
    lemma_merged_keys(existing, want);
    let km = key_lines(m);
    assert forall|i: int| 0 <= i < want.len() implies km.contains(trim(#[trigger] want[i])) by {
        if k.contains(trim(want[i])) {
            let x = choose|x: int| 0 <= x < k.len() && k[x] == trim(want[i]);
            assert(km[x] == k[x]);
        } else {
            lemma_added_covers(k, want, i);
            let a = added_keys(k, want);
            let x = choose|x: int| 0 <= x < a.len() && a[x] == trim(want[i]);
            assert(km[k.len() + x] == a[x]);
        }
    }
    lemma_all_present(km, want);
}

/// Law: merging is idempotent (for keys that are one line each).
pub proof fn law_merge_idempotent(existing: Seq<char>, want: Seq<Seq<char>>)
    requires
        single_line_keys(want),
    ensures
        spec_merge_keys(spec_merge_keys(existing, want), want) == spec_merge_keys(existing, want),
{
    let m = spec_merge_keys(existing, want);
    lemma_merged_keys(existing, want);
    law_merge_covers(existing, want);
    let km = key_lines(m);
    assert forall|i: int| 0 <= i < want.len() implies km.contains(trim(#[trigger] want[i])) by {
        let k = key_lines(existing);
        if k.contains(trim(want[i])) {
            let x = choose|x: int| 0 <= x < k.len() && k[x] == trim(want[i]);
            assert(km[x] == k[x]);
        } else {
            lemma_added_covers(k, want, i);
            let a = added_keys(k, want);
            let x = choose|x: int| 0 <= x < a.len() && a[x] == trim(want[i]);
            assert(km[k.len() + x] == a[x]);
        }
    }
    lemma_all_present(km, want);
    assert(terminated(m) == m);
    assert(spec_merge_keys(m, want) =~= m);
}

/// Law: a merge keeps the existing text as it is, keys added by hand
/// included, and only appends after it.
pub proof fn law_merge_preserves(existing: Seq<char>, want: Seq<Seq<char>>)
    ensures
        crate::text::has_prefix(spec_merge_keys(existing, want), existing),
{
    let m = spec_merge_keys(existing, want);
    assert(m.take(existing.len() as int) =~= existing);
}


/// Law: a real apply works off every drift that `check` reports for a user.
/// A missing account is created; missing keys are written, after which none
/// is missing, with the key file's mode set to 600; a wanted sudo grant
/// that is absent or differs is written and checked by `visudo`; and
/// an existing sudoers drop-in of a user who should not have sudo is removed.
pub proof fn law_user_work_covers_drift(passwd: Seq<char>, u: ObservedUserV, root: Seq<char>)
    ensures
        ({
            let w = user_work(passwd, u, root).0;
            let sudoers_file = "/etc/sudoers.d/gli-"@ + u.name;
            &&& !spec_user_exists(passwd, u.name) ==> w.contains(
                StepV::RunChecked { command: "useradd"@, args: seq!["-m"@, "-s"@, "/bin/bash"@, u.name] },
            )
            &&& (u.keys.len() > 0 && single_line_keys(u.keys) && spec_missing_keys(u.authorized_keys, u.keys)
                > 0) ==> w.contains(
                StepV::Write {
                    path: spec_authorized_keys(u.name),
                    body: spec_merge_keys(u.authorized_keys, u.keys),
                },
            ) && spec_missing_keys(spec_merge_keys(u.authorized_keys, u.keys), u.keys) == 0
            &&& (u.sudo && or_empty(u.sudoers) != spec_sudoers_content(u.name)) ==> w.contains(
                StepV::Write { path: sudoers_file, body: spec_sudoers_content(u.name) },
            ) && (exists|k: int|
                0 <= k < w.len() && (#[trigger] w[k] matches StepV::Validate { command, staged, .. }
                    && command == "visudo"@ && staged == sudoers_file))
            &&& (u.keys.len() > 0 && single_line_keys(u.keys) && spec_missing_keys(u.authorized_keys, u.keys)
                > 0) ==> w.contains(
                StepV::RunChecked {
                    command: "chmod"@,
                    args: seq!["600"@, spec_resolve(root, spec_authorized_keys(u.name))],
                },
            )
            &&& (!u.sudo && u.sudoers is Some) ==> w.contains(StepV::Remove { path: sudoers_file })
        }),
{
    reveal_strlit("/etc/sudoers.d");
    reveal_strlit("/gli-");
    reveal_strlit("/etc/sudoers.d/gli-");
    assert(spec_sudoers_file(u.name) =~= "/etc/sudoers.d/gli-"@ + u.name);
    let w = user_work(passwd, u, root).0;
    let n1: int = if !spec_user_exists(passwd, u.name) { 1 } else { 0 };
    let merged = spec_merge_keys(u.authorized_keys, u.keys);
    let keys_step = u.keys.len() > 0 && merged != u.authorized_keys;
    let n2: int = if keys_step { 4 } else { 0 };
    if u.keys.len() > 0 && single_line_keys(u.keys) && spec_missing_keys(u.authorized_keys, u.keys) > 0 {
        law_merge_covers(u.authorized_keys, u.keys);
        assert(merged != u.authorized_keys);
        assert(w[n1] == StepV::Write { path: spec_authorized_keys(u.name), body: merged });
        assert(w[n1 + 2] == StepV::RunChecked {
            command: "chmod"@,
            args: seq!["600"@, spec_resolve(root, spec_authorized_keys(u.name))],
        });
    }
    if !spec_user_exists(passwd, u.name) {
        assert(w[0] == StepV::RunChecked { command: "useradd"@, args: seq!["-m"@, "-s"@, "/bin/bash"@, u.name] });
    }
    if u.sudo && or_empty(u.sudoers) != spec_sudoers_content(u.name) {
        assert(w[n1 + n2] == StepV::Write { path: spec_sudoers_file(u.name), body: spec_sudoers_content(u.name) });
        assert(w[n1 + n2 + 1] matches StepV::Validate { command, staged, .. } && command == "visudo"@
            && staged == spec_sudoers_file(u.name));
        assert(0 <= n1 + n2 + 1 < w.len());
    }
    if !u.sudo && u.sudoers is Some {
        assert(w[n1 + n2] == StepV::Remove { path: spec_sudoers_file(u.name) });
    }
}

/// Every step of one user's work is among the steps of all users.
proof fn lemma_all_steps_has(passwd: Seq<char>, us: Seq<ObservedUserV>, root: Seq<char>, i: int, x: StepV)
    requires
        0 <= i < us.len(),
        user_work(passwd, us[i], root).0.contains(x),
    ensures
        all_steps(passwd, us, root).contains(x),
        spec_user_drift(passwd, us[i]).len() > 0 ==> all_drift(passwd, us).len() > 0,
    decreases us.len(),
{
    let d = us.drop_last();
    let w = user_work(passwd, us[i], root).0;
    let j = choose|j: int| 0 <= j < w.len() && w[j] == x;
    if i == us.len() - 1 {
        let a = all_steps(passwd, d, root);
        assert((a + w)[a.len() + j] == x);
    } else {
        assert(d[i] == us[i]);
        lemma_all_steps_has(passwd, d, root, i, x);
        let a = all_steps(passwd, d, root);
        let k = choose|k: int| 0 <= k < a.len() && a[k] == x;
        assert((a + user_work(passwd, us.last(), root).0)[k] == x);
    }
}

/// Law: a real apply revokes sudo. When a managed user should not have sudo
/// and a sudoers drop-in with content exists for them, a real apply removes
/// that drop-in.
pub proof fn law_apply_revokes_sudo(passwd: Seq<char>, us: Seq<ObservedUserV>, root: Seq<char>, i: int)
    requires
        0 <= i < us.len(),
        !us[i].sudo,
        us[i].sudoers matches Some(f) && f.len() > 0,
    ensures
        spec_apply(passwd, us, false, root).steps.contains(
            StepV::Remove { path: "/etc/sudoers.d/gli-"@ + us[i].name },
        ),
{
    law_user_work_covers_drift(passwd, us[i], root);
    let x = StepV::Remove { path: "/etc/sudoers.d/gli-"@ + us[i].name };
    assert(spec_user_drift(passwd, us[i]).len() > 0);
    lemma_all_steps_has(passwd, us, root, i, x);
    assert(command_changes(all_drift(passwd, us)).len() > 0);
}

/// Law: rollback revokes what apply grants. When apply grants sudo to a
/// managed user it writes that user's sudoers drop-in, and rollback over the
/// managed users removes exactly that drop-in.
pub proof fn law_rollback_revokes_sudo(passwd: Seq<char>, u: ObservedUserV, root: Seq<char>, names: Seq<Seq<char>>, i: int)
    requires
        0 <= i < names.len(),
        names[i] == u.name,
        u.sudo,
        or_empty(u.sudoers) != spec_sudoers_content(u.name),
    ensures
        user_work(passwd, u, root).0.contains(
            StepV::Write { path: spec_sudoers_file(u.name), body: spec_sudoers_content(u.name) },
        ),
        spec_rollback(names).contains(StepV::RemoveQuiet { path: spec_sudoers_file(u.name) }),
{
    let w = user_work(passwd, u, root).0;
    let s1 = if !spec_user_exists(passwd, u.name) {
        seq![StepV::RunChecked { command: "useradd"@, args: seq!["-m"@, "-s"@, "/bin/bash"@, u.name] }]
    } else {
        Seq::<StepV>::empty()
    };
    let merged = spec_merge_keys(u.authorized_keys, u.keys);
    let n2: int = if u.keys.len() > 0 && merged != u.authorized_keys { 4 } else { 0 };
    assert(w[s1.len() + n2] == StepV::Write { path: spec_sudoers_file(u.name), body: spec_sudoers_content(u.name) });
    assert(spec_rollback(names)[i] == StepV::RemoveQuiet { path: spec_sudoers_file(u.name) });
}

/// Law: a dry run changes nothing and reports as skipped exactly the changes
/// `plan` lists; `check` is compliant exactly when there is nothing to plan;
/// once `check` is compliant, a real apply performs no step and applies
/// nothing.
pub proof fn law_dry_run_reports_plan(passwd: Seq<char>, us: Seq<ObservedUserV>, root: Seq<char>)
    ensures
        spec_apply(passwd, us, true, root).steps.len() == 0,
        spec_apply(passwd, us, true, root).report.applied.len() == 0,
        us.len() > 0 ==> spec_apply(passwd, us, true, root).report.skipped == command_changes(
            all_drift(passwd, us),
        ),
        us.len() > 0 ==> (spec_check(passwd, us).state == State::Compliant <==> all_drift(passwd, us).len() == 0),
        spec_check(passwd, us).state == State::Compliant ==> spec_apply(passwd, us, false, root).steps.len() == 0
            && spec_apply(passwd, us, false, root).report.applied.len() == 0,
{
    if us.len() > 0 && all_drift(passwd, us).len() == 0 {
        assert(command_changes(all_drift(passwd, us)) =~= Seq::<ChangeV>::empty());
    }
}

} // verus!
