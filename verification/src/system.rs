//! Base system settings: hostname, timezone, swap file.
//!
//! The everyday first-boot configuration of a fresh VPS. Each setting is
//! optional; unset settings are left alone. The prior hostname and timezone
//! are snapshotted for rollback.

use vstd::prelude::*;

use crate::action::{args1, args2, args3, run_checked, run_quiet, remove_quiet, write_file, Plan, PlanV, Step, StepV};
use crate::config::SystemConfig;
use crate::text::{
    chars_of, contains, decimal, decimal_string, is_whitespace, is_ws, join, join_strings, lines, owned,
    push_char, push_str, skip_ws_from, split_lines, str_contains, str_eq, string_of, terminated, trim,
    trim_owned, trim_start, word_len, lemma_trim_idempotent, lemma_word_len,
};
use crate::types::{
    command_changes, commands_of, drift_status, drift_to_status, empty_report, Category, Change,
    ChangeV, ReportV, State, Status, StatusV, command_change, Report,
};

verus! {

pub const HOSTNAME_FILE: &'static str = "/etc/hostname";

pub const FSTAB: &'static str = "/etc/fstab";

pub const SWAPFILE: &'static str = "/swapfile";

pub const HOSTNAME_BAK: &'static str = "/etc/gli/system.hostname.bak";

pub const TIMEZONE_BAK: &'static str = "/etc/gli/system.timezone.bak";

// ---------------------------------------------------------------------------
// fstab
// ---------------------------------------------------------------------------

/// The first whitespace-separated field of a line (empty when there is none).
pub open spec fn first_field(l: Seq<char>) -> Seq<char> {
    trim_start(l).take(word_len(trim_start(l)) as int)
}

/// An fstab line whose device field is the swap file.
pub open spec fn is_swap_line(l: Seq<char>) -> bool {
    first_field(l) == SWAPFILE@
}

/// Whether `fstab` has a line for the swap file.
pub open spec fn spec_has_swap_line(fstab: Seq<char>) -> bool {
    exists|i: int| 0 <= i < lines(fstab).len() && is_swap_line(#[trigger] lines(fstab)[i])
}

/// The fstab entry for the swap file.
pub open spec fn swap_entry() -> Seq<char> {
    SWAPFILE@ + " none swap sw 0 0\n"@
}

/// Add the swapfile line to fstab, or None if it is already present.
pub open spec fn spec_ensure_swap_fstab(fstab: Seq<char>) -> Option<Seq<char>> {
    if spec_has_swap_line(fstab) {
        None
    } else {
        Some(terminated(fstab) + swap_entry())
    }
}

/// The lines that are not swap-file lines, in order.
pub open spec fn non_swap_lines(ls: Seq<Seq<char>>) -> Seq<Seq<char>>
    decreases ls.len(),
{
    if ls.len() == 0 {
        Seq::empty()
    } else {
        non_swap_lines(ls.drop_last()) + (if is_swap_line(ls.last()) {
            Seq::empty()
        } else {
            seq![ls.last()]
        })
    }
}

/// Strip the swapfile line from fstab, or None if there is nothing to remove.
pub open spec fn spec_remove_swap_fstab(fstab: Seq<char>) -> Option<Seq<char>> {
    if !spec_has_swap_line(fstab) {
        None
    } else {
        let s = join(non_swap_lines(lines(fstab)), seq!['\n']);
        Some(
            if s.len() > 0 {
                s.push('\n')
            } else {
                s
            },
        )
    }
}

/// Whether `l` is a swap-file line.
fn swap_line(l: &str) -> (r: bool)
    ensures
        r == is_swap_line(l@),
{
    let cs = chars_of(l);
    let n = cs.len();
    let a = skip_ws_from(&cs, 0, n);
    let mut b = a;
    while b < n && !is_whitespace(cs[b])
        invariant
            cs@ == l@,
            n == cs@.len(),
            a <= b <= n,
            forall|j: int| a <= j < b ==> !is_ws(#[trigger] cs@[j]),
        decreases n - b,
    {
        b = b + 1;
    }
    proof {
        assert(cs@.subrange(0, n as int) =~= l@);
        let t = trim_start(l@);
        assert(t =~= cs@.subrange(a as int, n as int));
        assert forall|j: int| 0 <= j < b - a implies !is_ws(#[trigger] t[j]) by {
            assert(t[j] == cs@[a + j]);
        }
        if b < n {
            assert(t[b - a] == cs@[b as int]);
        }
        lemma_word_len(t, b - a);
        assert(t.take(b - a) =~= cs@.subrange(a as int, b as int));
    }
    let field = string_of(&cs, a, b);
    str_eq(field.as_str(), SWAPFILE)
}

pub fn has_swap_line(fstab: &str) -> (r: bool)
    ensures
        r == spec_has_swap_line(fstab@),
{
    let ls = split_lines(fstab);
    let mut i: usize = 0;
    while i < ls.len()
        invariant
            i <= ls@.len(),
            ls.deep_view() == lines(fstab@),
            forall|j: int| 0 <= j < i ==> !is_swap_line(#[trigger] lines(fstab@)[j]),
        decreases ls@.len() - i,
    {
        if swap_line(ls[i].as_str()) {
            assert(lines(fstab@)[i as int] == ls.deep_view()[i as int]);
            return true;
        }
        i = i + 1;
    }
    false
}

/// Add the swapfile line to fstab, or None if it is already present.
pub fn ensure_swap_fstab(fstab: &str) -> (r: Option<String>)
    ensures
        r.deep_view() == spec_ensure_swap_fstab(fstab@),
{
    if has_swap_line(fstab) {
        return None;
    }
    let mut s = owned(fstab);
    let cs = chars_of(fstab);
    if cs.len() > 0 && cs[cs.len() - 1] != '\n' {
        push_char(&mut s, '\n');
    }
    push_str(&mut s, SWAPFILE);
    push_str(&mut s, " none swap sw 0 0\n");
    Some(s)
}

/// Strip the swapfile line from fstab, or None if there is nothing to remove.
pub fn remove_swap_fstab(fstab: &str) -> (r: Option<String>)
    ensures
        r.deep_view() == spec_remove_swap_fstab(fstab@),
{
    if !has_swap_line(fstab) {
        return None;
    }
    let ls = split_lines(fstab);
    let mut kept: Vec<String> = Vec::new();
    let mut i: usize = 0;
    assert(kept.deep_view() =~= non_swap_lines(ls.deep_view().take(0)));
    while i < ls.len()
        invariant
            i <= ls@.len(),
            ls.deep_view() == lines(fstab@),
            kept.deep_view() == non_swap_lines(ls.deep_view().take(i as int)),
        decreases ls@.len() - i,
    {
        let ghost before = kept.deep_view();
        proof {
            assert(ls.deep_view().take(i + 1).drop_last() =~= ls.deep_view().take(i as int));
        }
        if !swap_line(ls[i].as_str()) {
            kept.push(owned(ls[i].as_str()));
            assert(kept.deep_view() =~= before + seq![ls.deep_view()[i as int]]);
        } else {
            assert(kept.deep_view() =~= before + Seq::<Seq<char>>::empty());
        }
        i = i + 1;
    }
    assert(ls.deep_view().take(i as int) =~= ls.deep_view());
    let nl = "\n";
    proof {
        reveal_strlit("\n");
        assert(nl@ =~= seq!['\n']);
    }
    let mut s = join_strings(&kept, nl);
    if !s.as_str().is_empty() {
        push_char(&mut s, '\n');
    }
    Some(s)
}

} // verus!

verus! {

// ---------------------------------------------------------------------------
// The module
// ---------------------------------------------------------------------------

/// Base system module.
#[derive(Debug, Default)]
pub struct SystemModule;

/// What was read from the host: `/etc/hostname` (empty when absent), the
/// output of `timedatectl show -p Timezone --value` when it could be run,
/// `/proc/swaps` and `/etc/fstab` (each empty when absent).
#[derive(Debug, Clone)]
pub struct SystemState {
    pub hostname_file: String,
    pub timezone_output: Option<String>,
    pub swaps: String,
    pub fstab: String,
}

/// The mathematical value of a [`SystemState`].
pub struct SystemStateV {
    pub hostname_file: Seq<char>,
    pub timezone_output: Option<Seq<char>>,
    pub swaps: Seq<char>,
    pub fstab: Seq<char>,
}

impl DeepView for SystemState {
    type V = SystemStateV;

    open spec fn deep_view(&self) -> SystemStateV {
        SystemStateV {
            hostname_file: self.hostname_file@,
            timezone_output: self.timezone_output.deep_view(),
            swaps: self.swaps@,
            fstab: self.fstab@,
        }
    }
}

/// The current hostname.
pub open spec fn current_hostname(st: SystemStateV) -> Seq<char> {
    trim(st.hostname_file)
}

/// The current timezone; empty when `timedatectl` could not be run.
pub open spec fn current_timezone(st: SystemStateV) -> Seq<char> {
    match st.timezone_output {
        Some(o) => trim(o),
        None => Seq::empty(),
    }
}

/// The swap file is in use.
pub open spec fn swap_active(swaps: Seq<char>) -> bool {
    contains(swaps, SWAPFILE@)
}

/// The hostname drift, if any.
pub open spec fn hostname_drift(cfg: SystemConfig, st: SystemStateV) -> Seq<Seq<char>> {
    match cfg.hostname.deep_view() {
        Some(want) => if current_hostname(st) != want {
            seq!["set hostname to "@ + want]
        } else {
            Seq::empty()
        },
        None => Seq::empty(),
    }
}

/// The timezone drift, if any.
pub open spec fn timezone_drift(cfg: SystemConfig, st: SystemStateV) -> Seq<Seq<char>> {
    match cfg.timezone.deep_view() {
        Some(want) => if current_timezone(st) != want {
            seq!["set timezone to "@ + want]
        } else {
            Seq::empty()
        },
        None => Seq::empty(),
    }
}

/// The swap drift, if any.
pub open spec fn swap_drift(cfg: SystemConfig, st: SystemStateV) -> Seq<Seq<char>> {
    match cfg.swap_mb {
        Some(mb) => if mb > 0 && !swap_active(st.swaps) {
            seq!["create "@ + decimal(mb as nat) + " MiB swap file"@]
        } else {
            Seq::empty()
        },
        None => Seq::empty(),
    }
}

/// Drift descriptions, in the order hostname, timezone, swap.
pub open spec fn spec_drift(cfg: SystemConfig, st: SystemStateV) -> Seq<Seq<char>> {
    hostname_drift(cfg, st) + timezone_drift(cfg, st) + swap_drift(cfg, st)
}

/// No setting is configured.
pub open spec fn nothing_configured(cfg: SystemConfig) -> bool {
    cfg.hostname is None && cfg.timezone is None && (match cfg.swap_mb {
        Some(mb) => mb == 0,
        None => true,
    })
}

/// `check`.
pub open spec fn spec_check(cfg: SystemConfig, st: SystemStateV) -> StatusV {
    if nothing_configured(cfg) {
        StatusV { state: State::NotApplicable, detail: "no base system settings configured"@ }
    } else {
        drift_status(spec_drift(cfg, st))
    }
}

/// The steps of `apply` once there is drift: snapshot and set the hostname
/// and timezone, create and enable the swap file and record it in fstab.
pub open spec fn apply_work(cfg: SystemConfig, st: SystemStateV) -> (Seq<StepV>, Seq<ChangeV>) {
    let (s1, a1) = match cfg.hostname.deep_view() {
        Some(want) => if current_hostname(st) != want {
            (
                seq![
                    StepV::Write { path: HOSTNAME_BAK@, body: current_hostname(st) },
                    StepV::RunChecked { command: "hostnamectl"@, args: seq!["set-hostname"@, want] },
                ],
                seq![command_change("set hostname to "@ + want)],
            )
        } else {
            (Seq::empty(), Seq::empty())
        },
        None => (Seq::empty(), Seq::empty()),
    };
    let (s2, a2) = match cfg.timezone.deep_view() {
        Some(want) => if current_timezone(st) != want {
            (
                seq![
                    StepV::Write { path: TIMEZONE_BAK@, body: current_timezone(st) },
                    StepV::RunChecked { command: "timedatectl"@, args: seq!["set-timezone"@, want] },
                ],
                seq![command_change("set timezone to "@ + want)],
            )
        } else {
            (Seq::empty(), Seq::empty())
        },
        None => (Seq::empty(), Seq::empty()),
    };
    let (s3, a3) = match cfg.swap_mb {
        Some(mb) => if mb > 0 && !swap_active(st.swaps) {
            let fstab_step = match spec_ensure_swap_fstab(st.fstab) {
                Some(updated) => seq![StepV::Write { path: FSTAB@, body: updated }],
                None => Seq::empty(),
            };
            (
                seq![
                    StepV::RunChecked {
                        command: "fallocate"@,
                        args: seq!["-l"@, decimal(mb as nat) + "M"@, SWAPFILE@],
                    },
                    StepV::RunChecked { command: "chmod"@, args: seq!["600"@, SWAPFILE@] },
                    StepV::RunChecked { command: "mkswap"@, args: seq![SWAPFILE@] },
                    StepV::RunChecked { command: "swapon"@, args: seq![SWAPFILE@] },
                ] + fstab_step,
                seq![command_change("create "@ + decimal(mb as nat) + " MiB swap file"@)],
            )
        } else {
            (Seq::empty(), Seq::empty())
        },
        None => (Seq::empty(), Seq::empty()),
    };
    (s1 + s2 + s3, a1 + a2 + a3)
}

/// `apply`.
pub open spec fn spec_apply(cfg: SystemConfig, st: SystemStateV, dry_run: bool) -> PlanV {
    let drift = spec_drift(cfg, st);
    if drift.len() == 0 {
        PlanV { steps: Seq::empty(), report: empty_report("system"@, dry_run) }
    } else if dry_run {
        PlanV {
            steps: Seq::empty(),
            report: ReportV {
                module: "system"@,
                applied: Seq::empty(),
                skipped: command_changes(drift),
                dry_run,
            },
        }
    } else {
        let (steps, applied) = apply_work(cfg, st);
        PlanV {
            steps,
            report: ReportV { module: "system"@, applied, skipped: Seq::empty(), dry_run },
        }
    }
}

/// `rollback`: restore the snapshotted hostname and timezone, and tear down
/// an active swap file.
pub open spec fn spec_rollback(
    hostname_bak: Option<Seq<char>>,
    timezone_bak: Option<Seq<char>>,
    swaps: Option<Seq<char>>,
    fstab: Seq<char>,
) -> Seq<StepV> {
    let h = match hostname_bak {
        Some(prev) => seq![
            StepV::RunQuiet { command: "hostnamectl"@, args: seq!["set-hostname"@, trim(prev)] },
            StepV::RemoveQuiet { path: HOSTNAME_BAK@ },
        ],
        None => Seq::empty(),
    };
    let t = match timezone_bak {
        Some(prev) => seq![
            StepV::RunQuiet { command: "timedatectl"@, args: seq!["set-timezone"@, trim(prev)] },
            StepV::RemoveQuiet { path: TIMEZONE_BAK@ },
        ],
        None => Seq::empty(),
    };
    let s = match swaps {
        Some(sw) => if swap_active(sw) {
            seq![
                StepV::RunQuiet { command: "swapoff"@, args: seq![SWAPFILE@] },
                StepV::RemoveQuiet { path: SWAPFILE@ },
            ] + match spec_remove_swap_fstab(fstab) {
                Some(stripped) => seq![StepV::WriteQuiet { path: FSTAB@, body: stripped }],
                None => Seq::empty(),
            }
        } else {
            Seq::empty()
        },
        None => Seq::empty(),
    };
    h + t + s
}

/// `uninstall`, once `swapoff` has run and the swap file's removal was tried.
pub open spec fn spec_uninstall(removed: bool, fstab: Seq<char>) -> PlanV {
    if removed {
        PlanV {
            steps: match spec_remove_swap_fstab(fstab) {
                Some(stripped) => seq![StepV::WriteQuiet { path: FSTAB@, body: stripped }],
                None => Seq::empty(),
            },
            report: ReportV {
                module: "system"@,
                applied: seq![command_change("remove swap file"@)],
                skipped: Seq::empty(),
                dry_run: false,
            },
        }
    } else {
        PlanV { steps: Seq::empty(), report: empty_report("system"@, false) }
    }
}

fn current_timezone_of(st: &SystemState) -> (r: String)
    ensures
        r@ == current_timezone(st.deep_view()),
{
    match &st.timezone_output {
        Some(o) => trim_owned(o.as_str()),
        None => String::new(),
    }
}

impl SystemModule {
    pub fn name(&self) -> (r: &'static str)
        ensures
            r@ == "system"@,
    {
        "system"
    }

    pub fn summary(&self) -> (r: &'static str)
        ensures
            r@ == "Set hostname, timezone, and a swap file"@,
    {
        "Set hostname, timezone, and a swap file"
    }

    pub fn category(&self) -> (r: Category)
        ensures
            r == Category::System,
    {
        Category::System
    }

    /// Drift descriptions, in the order hostname, timezone, swap.
    pub fn drift(&self, cfg: &SystemConfig, st: &SystemState) -> (r: Vec<String>)
        ensures
            r.deep_view() == spec_drift(*cfg, st.deep_view()),
    {
        let mut drift: Vec<String> = Vec::new();
        match &cfg.hostname {
            Some(want) => {
                let cur = trim_owned(st.hostname_file.as_str());
                if !str_eq(cur.as_str(), want.as_str()) {
                    let mut m = owned("set hostname to ");
                    push_str(&mut m, want.as_str());
                    drift.push(m);
                }
            },
            None => {},
        }
        let ghost d1 = drift.deep_view();
        match &cfg.timezone {
            Some(want) => {
                let cur = current_timezone_of(st);
                if !str_eq(cur.as_str(), want.as_str()) {
                    let mut m = owned("set timezone to ");
                    push_str(&mut m, want.as_str());
                    drift.push(m);
                }
            },
            None => {},
        }
        let ghost d2 = drift.deep_view();
        match cfg.swap_mb {
            Some(mb) => {
                if mb > 0 && !str_contains(st.swaps.as_str(), SWAPFILE) {
                    let mut m = owned("create ");
                    let n = decimal_string(mb as u64);
                    push_str(&mut m, n.as_str());
                    push_str(&mut m, " MiB swap file");
                    drift.push(m);
                }
            },
            None => {},
        }
        proof {
            let v = st.deep_view();
            assert(d1 =~= hostname_drift(*cfg, v));
            assert(d2 =~= hostname_drift(*cfg, v) + timezone_drift(*cfg, v));
            assert(drift.deep_view() =~= spec_drift(*cfg, v));
        }
        drift
    }

    /// Report drift from the configured settings. Read-only.
    pub fn check(&self, cfg: &SystemConfig, st: &SystemState) -> (r: Status)
        ensures
            r.deep_view() == spec_check(*cfg, st.deep_view()),
    {
        let none = match cfg.swap_mb {
            Some(mb) => mb == 0,
            None => true,
        };
        if cfg.hostname.is_none() && cfg.timezone.is_none() && none {
            return Status::not_applicable("no base system settings configured");
        }
        let drift = self.drift(cfg, st);
        drift_to_status(&drift)
    }

    /// The changes `apply` would make.
    pub fn plan(&self, cfg: &SystemConfig, st: &SystemState) -> (r: Vec<Change>)
        ensures
            r.deep_view() == command_changes(spec_drift(*cfg, st.deep_view())),
    {
        let drift = self.drift(cfg, st);
        commands_of(&drift)
    }

    /// Decide how to bring the host to the configured settings.
    pub fn apply(&self, cfg: &SystemConfig, st: &SystemState, dry_run: bool) -> (r: Plan)
        ensures
            r.deep_view() == spec_apply(*cfg, st.deep_view(), dry_run),
    {
        let mut report = Report::new("system", dry_run);
        let mut steps: Vec<Step> = Vec::new();
        assert(steps.deep_view() =~= Seq::<StepV>::empty());
        let drift = self.drift(cfg, st);
        if drift.len() == 0 {
            return Plan { steps, report };
        }
        if dry_run {
            report.skipped = commands_of(&drift);
            return Plan { steps, report };
        }
        let ghost v = st.deep_view();
        let mut applied: Vec<Change> = Vec::new();
        match &cfg.hostname {
            Some(want) => {
                let cur = trim_owned(st.hostname_file.as_str());
                if !str_eq(cur.as_str(), want.as_str()) {
                    steps.push(write_file(HOSTNAME_BAK, cur.as_str()));
                    steps.push(run_checked("hostnamectl", args2("set-hostname", want.as_str())));
                    let mut m = owned("set hostname to ");
                    push_str(&mut m, want.as_str());
                    applied.push(Change::command(m.as_str()));
                }
            },
            None => {},
        }
        let ghost s1 = steps.deep_view();
        let ghost a1 = applied.deep_view();
        match &cfg.timezone {
            Some(want) => {
                let cur = current_timezone_of(st);
                if !str_eq(cur.as_str(), want.as_str()) {
                    steps.push(write_file(TIMEZONE_BAK, cur.as_str()));
                    steps.push(run_checked("timedatectl", args2("set-timezone", want.as_str())));
                    let mut m = owned("set timezone to ");
                    push_str(&mut m, want.as_str());
                    applied.push(Change::command(m.as_str()));
                }
            },
            None => {},
        }
        let ghost s2 = steps.deep_view();
        let ghost a2 = applied.deep_view();
        match cfg.swap_mb {
            Some(mb) => {
                if mb > 0 && !str_contains(st.swaps.as_str(), SWAPFILE) {
                    let n = decimal_string(mb as u64);
                    let mut size = owned(n.as_str());
                    push_str(&mut size, "M");
                    steps.push(run_checked("fallocate", args3("-l", size.as_str(), SWAPFILE)));
                    steps.push(run_checked("chmod", args2("600", SWAPFILE)));
                    steps.push(run_checked("mkswap", args1(SWAPFILE)));
                    steps.push(run_checked("swapon", args1(SWAPFILE)));
                    match ensure_swap_fstab(st.fstab.as_str()) {
                        Some(updated) => steps.push(write_file(FSTAB, updated.as_str())),
                        None => {},
                    }
                    let mut m = owned("create ");
                    push_str(&mut m, n.as_str());
                    push_str(&mut m, " MiB swap file");
                    applied.push(Change::command(m.as_str()));
                }
            },
            None => {},
        }
        proof {
            let w = apply_work(*cfg, v);
            assert(steps.deep_view() =~= w.0);
            assert(applied.deep_view() =~= w.1);
        }
        report.applied = applied;
        Plan { steps, report }
    }

    /// Decide how to undo the last apply. `swaps` is `/proc/swaps`, `None`
    /// when it could not be read.
    pub fn rollback(
        &self,
        hostname_bak: &Option<String>,
        timezone_bak: &Option<String>,
        swaps: &Option<String>,
        fstab: &str,
    ) -> (r: Vec<Step>)
        ensures
            r.deep_view() == spec_rollback(
                hostname_bak.deep_view(),
                timezone_bak.deep_view(),
                swaps.deep_view(),
                fstab@,
            ),
    {
        let mut steps: Vec<Step> = Vec::new();
        match hostname_bak {
            Some(prev) => {
                let p = trim_owned(prev.as_str());
                steps.push(run_quiet("hostnamectl", args2("set-hostname", p.as_str())));
                steps.push(remove_quiet(HOSTNAME_BAK));
            },
            None => {},
        }
        let ghost s1 = steps.deep_view();
        match timezone_bak {
            Some(prev) => {
                let p = trim_owned(prev.as_str());
                steps.push(run_quiet("timedatectl", args2("set-timezone", p.as_str())));
                steps.push(remove_quiet(TIMEZONE_BAK));
            },
            None => {},
        }
        let ghost s2 = steps.deep_view();
        match swaps {
            Some(sw) => {
                if str_contains(sw.as_str(), SWAPFILE) {
                    steps.push(run_quiet("swapoff", args1(SWAPFILE)));
                    steps.push(remove_quiet(SWAPFILE));
                    match remove_swap_fstab(fstab) {
                        Some(stripped) => steps.push(
                            Step::WriteQuiet { path: owned(FSTAB), body: stripped },
                        ),
                        None => {},
                    }
                }
            },
            None => {},
        }
        proof {
            assert(steps.deep_view() =~= spec_rollback(
                hostname_bak.deep_view(),
                timezone_bak.deep_view(),
                swaps.deep_view(),
                fstab@,
            ));
        }
        steps
    }

    /// Tear down the managed swap file. The caller runs `swapoff /swapfile`
    /// and removes the file first; `removed` tells whether the removal
    /// succeeded. Hostname and timezone are host settings and stay.
    pub fn uninstall(&self, removed: bool, fstab: &str) -> (r: Plan)
        ensures
            r.deep_view() == spec_uninstall(removed, fstab@),
    {
        let mut report = Report::new("system", false);
        let mut steps: Vec<Step> = Vec::new();
        assert(steps.deep_view() =~= Seq::<StepV>::empty());
        if removed {
            match remove_swap_fstab(fstab) {
                Some(stripped) => steps.push(Step::WriteQuiet { path: owned(FSTAB), body: stripped }),
                None => {},
            }
            report.applied.push(Change::command("remove swap file"));
            assert(report.applied.deep_view() =~= seq![command_change("remove swap file"@)]);
            assert(steps.deep_view() =~= spec_uninstall(removed, fstab@).steps);
        }
        Plan { steps, report }
    }
}

} // verus!

verus! {

// ---------------------------------------------------------------------------
// Laws of the fstab edits
// ---------------------------------------------------------------------------

/// The entry's one line is a swap-file line.
proof fn lemma_entry_line()
    ensures
        lines(swap_entry()) == seq![SWAPFILE@ + " none swap sw 0 0"@],
        is_swap_line(SWAPFILE@ + " none swap sw 0 0"@),
{
    reveal_strlit("/swapfile");
    reveal_strlit(" none swap sw 0 0\n");
    reveal_strlit(" none swap sw 0 0");
    let line = SWAPFILE@ + " none swap sw 0 0"@;
    assert(swap_entry() =~= line.push('\n'));
    assert forall|j: int| 0 <= j < line.len() implies #[trigger] line[j] != '\n' by {}
    crate::text::lemma_lines_single(line);
    assert(!is_ws(line[0]));
    crate::text::lemma_lead_ws(line, 0);
    assert(trim_start(line) =~= line);
    assert forall|j: int| 0 <= j < 9 implies !is_ws(#[trigger] line[j]) by {}
    assert(is_ws(line[9]));
    lemma_word_len(line, 9);
    assert(line.take(9) =~= SWAPFILE@);
}

/// Law: adding the swap entry leaves the existing text in front, the result
/// has a swap-file line, and adding it again changes nothing.
pub proof fn law_ensure_swap_fstab(fstab: Seq<char>)
    ensures
        spec_ensure_swap_fstab(fstab) matches Some(out) ==> crate::text::has_prefix(out, fstab)
            && spec_has_swap_line(out) && spec_ensure_swap_fstab(out) is None,
{
    if let Some(out) = spec_ensure_swap_fstab(fstab) {
        let t = terminated(fstab);
        assert(out.take(fstab.len() as int) =~= fstab);
        lemma_entry_line();
        crate::text::lemma_lines_concat(t, swap_entry());
        let k = lines(t).len();
        assert(lines(out)[k as int] == SWAPFILE@ + " none swap sw 0 0"@);
    }
}

proof fn lemma_non_swap_lines(ls: Seq<Seq<char>>)
    requires
        forall|j: int| 0 <= j < ls.len() ==> crate::text::no_nl(#[trigger] ls[j]),
    ensures
        forall|i: int| 0 <= i < non_swap_lines(ls).len() ==> !is_swap_line(
            #[trigger] non_swap_lines(ls)[i],
        ) && crate::text::no_nl(non_swap_lines(ls)[i]),
    decreases ls.len(),
{
    if ls.len() > 0 {
        let d = ls.drop_last();
        assert forall|j: int| 0 <= j < d.len() implies crate::text::no_nl(#[trigger] d[j]) by {
            assert(d[j] == ls[j]);
        }
        lemma_non_swap_lines(d);
        let k = non_swap_lines(ls);
        assert forall|i: int| 0 <= i < k.len() implies !is_swap_line(#[trigger] k[i])
            && crate::text::no_nl(k[i]) by {
            if i < non_swap_lines(d).len() {
                assert(k[i] == non_swap_lines(d)[i]);
            } else {
                assert(k[i] == ls.last());
                assert(ls.last() == ls[ls.len() - 1]);
            }
        }
    }
}

/// Law: stripping leaves no swap-file line behind, and keeps every other
/// line, in order, less a final carriage return (a lone empty line left
/// over is dropped with its line break).
pub proof fn law_remove_swap_fstab(fstab: Seq<char>)
    ensures
        spec_remove_swap_fstab(fstab) matches Some(out) ==> !spec_has_swap_line(out) && (
        non_swap_lines(lines(fstab)) != seq![Seq::<char>::empty()] ==> lines(out) == non_swap_lines(
            lines(fstab),
        ).map_values(|l: Seq<char>| crate::text::strip_cr(l))),
{
    if let Some(out) = spec_remove_swap_fstab(fstab) {
        let kept = non_swap_lines(lines(fstab));
        crate::text::lemma_lines_no_nl(fstab);
        lemma_non_swap_lines(lines(fstab));
        let s = join(kept, seq!['\n']);
        if s.len() > 0 {
            assert(kept.len() > 0);
            crate::text::lemma_lines_of_joined_lines(kept);
            assert forall|i: int| 0 <= i < lines(out).len() implies !is_swap_line(
                #[trigger] lines(out)[i],
            ) by {
                let l = kept[i];
                assert(lines(out)[i] == crate::text::strip_cr(l));
                if l.len() > 0 && l.last() == '\r' {
                    assert(l =~= l.drop_last().push('\r'));
                    crate::text::lemma_first_field_push_ws(l.drop_last(), '\r');
                }
            }
        } else {
            assert(lines(out) =~= Seq::<Seq<char>>::empty());
            if kept.len() >= 2 {
                crate::text::lemma_join_front(kept, seq!['\n']);
            }
            if kept.len() == 1 {
                assert(s == kept[0]);
                assert(kept[0] =~= Seq::<char>::empty());
                assert(kept =~= seq![Seq::<char>::empty()]);
            }
            if kept.len() == 0 {
                assert(kept.map_values(|l: Seq<char>| crate::text::strip_cr(l)) =~= Seq::<Seq<char>>::empty());
            }
        }
    }
}


/// Lines none of which is a swap-file line are all kept.
proof fn lemma_non_swap_all(ls: Seq<Seq<char>>)
    requires
        forall|j: int| 0 <= j < ls.len() ==> !is_swap_line(#[trigger] ls[j]),
    ensures
        non_swap_lines(ls) == ls,
    decreases ls.len(),
{
    if ls.len() > 0 {
        let d = ls.drop_last();
        assert forall|j: int| 0 <= j < d.len() implies !is_swap_line(#[trigger] d[j]) by {
            assert(d[j] == ls[j]);
        }
        lemma_non_swap_all(d);
        assert(!is_swap_line(ls[ls.len() - 1]));
        assert(d + seq![ls.last()] =~= ls);
    }
}

/// Text that ends with a line break and holds no carriage return is its
/// lines joined with `\n`, plus the final line break.
proof fn lemma_join_lines_back(f: Seq<char>)
    requires
        f.len() > 0,
        f.last() == '\n',
        forall|j: int| 0 <= j < f.len() ==> f[j] != '\r',
    ensures
        lines(f).len() > 0,
        join(lines(f), seq!['\n']).push('\n') == f,
    decreases f.len(),
{
    let nl = seq!['\n'];
    let p = crate::text::find_char(f, '\n');
    crate::text::lemma_find_char_props(f, '\n');
    if p == f.len() {
        assert(f[f.len() - 1] == '\n');
    }
    let first = f.take(p as int);
    if first.len() > 0 {
        assert(first.last() == f[p - 1]);
    }
    assert(crate::text::strip_cr(first) == first);
    let rest = f.skip(p as int + 1);
    if rest.len() == 0 {
        assert(lines(rest) =~= Seq::<Seq<char>>::empty());
        assert(lines(f) =~= seq![first]);
        assert(first.push('\n') =~= f);
    } else {
        assert(rest.last() == f.last());
        assert forall|j: int| 0 <= j < rest.len() implies rest[j] != '\r' by {
            assert(rest[j] == f[p + 1 + j]);
        }
        lemma_join_lines_back(rest);
        let ls = lines(f);
        assert(ls =~= seq![first] + lines(rest));
        crate::text::lemma_join_front(ls, nl);
        assert(ls.drop_first() =~= lines(rest));
        assert(join(ls, nl).push('\n') =~= first + nl + join(lines(rest), nl).push('\n'));
        assert(first + nl + rest =~= f);
    }
}

/// Law: removing the swap entry undoes adding it. This holds of every fstab
/// without a swap-file line or a carriage return that is empty or ends with
/// a line break, but a lone line break: the removal drops the one empty
/// line that is left, and its break with it.
pub proof fn law_remove_undoes_ensure(fstab: Seq<char>)
    requires
        !spec_has_swap_line(fstab),
        fstab.len() == 0 || fstab.last() == '\n',
        forall|j: int| 0 <= j < fstab.len() ==> fstab[j] != '\r',
        fstab != seq!['\n'],
    ensures
        spec_ensure_swap_fstab(fstab) matches Some(out) && spec_remove_swap_fstab(out) == Some(fstab),
{
    let nl = seq!['\n'];
    let out = terminated(fstab) + swap_entry();
    assert(terminated(fstab) == fstab);
    let entry = SWAPFILE@ + " none swap sw 0 0"@;
    lemma_entry_line();
    crate::text::lemma_lines_concat(fstab, swap_entry());
    let ls = lines(fstab);
    let lo = lines(out);
    assert(lo =~= ls.push(entry));
    assert(is_swap_line(lo[ls.len() as int]));
    assert(spec_has_swap_line(out));
    assert(lo.drop_last() =~= ls);
    assert(lo.last() == entry);
    assert forall|j: int| 0 <= j < ls.len() implies !is_swap_line(#[trigger] ls[j]) by {}
    lemma_non_swap_all(ls);
    assert(non_swap_lines(lo) =~= ls);
    if fstab.len() == 0 {
        assert(ls =~= Seq::<Seq<char>>::empty());
        assert(join(ls, nl) =~= fstab);
    } else {
        lemma_join_lines_back(fstab);
        if fstab.len() == 1 {
            assert(fstab =~= seq!['\n']);
        }
        assert(join(ls, nl).len() > 0);
    }
}

/// Law: rollback undoes apply for the timezone. When the configured
/// timezone differs from the current one, a real apply snapshots the current
/// timezone; and rollback from any timezone snapshot sets the timezone back
/// to the (trimmed) snapshot, then drops the snapshot, whatever else it has
/// to restore.
pub proof fn law_rollback_restores_timezone(
    cfg: SystemConfig,
    st: SystemStateV,
    hostname_bak: Option<Seq<char>>,
    prev: Seq<char>,
    swaps: Option<Seq<char>>,
    fstab: Seq<char>,
)
    ensures
        (cfg.timezone.deep_view() matches Some(want) && current_timezone(st) != want) ==> spec_apply(
            cfg,
            st,
            false,
        ).steps.contains(StepV::Write { path: TIMEZONE_BAK@, body: current_timezone(st) }),
        exists|k: int|
            0 <= k && k + 1 < spec_rollback(hostname_bak, Some(prev), swaps, fstab).len() && #[trigger] spec_rollback(
                hostname_bak,
                Some(prev),
                swaps,
                fstab,
            )[k] == (StepV::RunQuiet { command: "timedatectl"@, args: seq!["set-timezone"@, trim(prev)] })
                && spec_rollback(hostname_bak, Some(prev), swaps, fstab)[k + 1] == (StepV::RemoveQuiet {
                path: TIMEZONE_BAK@,
            }),
{
    if cfg.timezone.deep_view() matches Some(want) && current_timezone(st) != want {
        assert(timezone_drift(cfg, st).len() > 0);
        assert(spec_drift(cfg, st).len() > 0);
        let w = apply_work(cfg, st);
        let h = match cfg.hostname.deep_view() {
            Some(hw) => if current_hostname(st) != hw { 2int } else { 0int },
            None => 0int,
        };
        assert(w.0[h] == (StepV::Write { path: TIMEZONE_BAK@, body: current_timezone(st) }));
    }
    let r = spec_rollback(hostname_bak, Some(prev), swaps, fstab);
    let k: int = if hostname_bak is Some { 2 } else { 0 };
    assert(r[k] == (StepV::RunQuiet { command: "timedatectl"@, args: seq!["set-timezone"@, trim(prev)] }));
    assert(r[k + 1] == (StepV::RemoveQuiet { path: TIMEZONE_BAK@ }));
}

/// Law: rollback undoes apply for the hostname. When the configured
/// hostname differs from the current one, apply first snapshots the current
/// hostname; rollback from that snapshot sets the hostname back to exactly
/// it and drops the snapshot.
pub proof fn law_rollback_restores_hostname(cfg: SystemConfig, st: SystemStateV, timezone_bak: Option<Seq<char>>, swaps: Option<Seq<char>>, fstab: Seq<char>)
    requires
        cfg.hostname.deep_view() matches Some(want) && current_hostname(st) != want,
    ensures
        spec_apply(cfg, st, false).steps[0] == (StepV::Write { path: HOSTNAME_BAK@, body: current_hostname(st) }),
        spec_rollback(Some(current_hostname(st)), timezone_bak, swaps, fstab).take(2) == seq![
            StepV::RunQuiet { command: "hostnamectl"@, args: seq!["set-hostname"@, current_hostname(st)] },
            StepV::RemoveQuiet { path: HOSTNAME_BAK@ },
        ],
{
    lemma_trim_idempotent(st.hostname_file);
    assert(spec_drift(cfg, st).len() > 0);
}

/// Law: a dry run changes nothing and reports as skipped exactly the changes
/// `plan` lists; `check` is compliant exactly when there is nothing to plan;
/// once `check` is compliant, a real apply performs no step and applies
/// nothing.
pub proof fn law_dry_run_reports_plan(cfg: SystemConfig, st: SystemStateV)
    ensures
        spec_apply(cfg, st, true).steps.len() == 0,
        spec_apply(cfg, st, true).report.applied.len() == 0,
        spec_apply(cfg, st, true).report.skipped == command_changes(spec_drift(cfg, st)),
        !nothing_configured(cfg) ==> (spec_check(cfg, st).state == State::Compliant <==> spec_drift(cfg, st).len() == 0),
        spec_check(cfg, st).state == State::Compliant ==> spec_apply(cfg, st, false).steps.len() == 0
            && spec_apply(cfg, st, false).report.applied.len() == 0,
{
    if spec_drift(cfg, st).len() == 0 {
        assert(command_changes(spec_drift(cfg, st)) =~= Seq::<ChangeV>::empty());
    }
}

} // verus!
