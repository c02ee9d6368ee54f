//! Lockout protection.
//!
//! After a risky change (ssh, firewall) a guard process, detached so it
//! survives an SSH hangup, rolls the change back unless the operator
//! confirms from the session that applied it within a timeout. An operator who
//! locked themselves out cannot confirm, so the guard restores the previous
//! state. This module holds the guard's decisions; starting processes,
//! waiting and reading the terminal are the caller's.

use vstd::prelude::*;

use crate::catalog::{spec_get, ModuleCatalog, ModuleId};
use crate::text::{decimal, eq_ignore_case, join, join_strings, owned, push_str, str_eq_ignore_case, trim, trim_owned};

verus! {

/// Seconds before an unconfirmed change is rolled back.
pub const TIMEOUT_SECS: u64 = 60;

/// Seconds the operator is given to confirm, leaving the guard a margin.
pub const CONFIRM_SECS: u64 = 55;

/// What the guard does on one tick.
#[derive(Debug, Clone, Copy, PartialEq, Eq, Structural)]
pub enum GuardAction {
    /// The operator confirmed: keep the changes and stop.
    Keep,
    /// Not yet confirmed and still in time: check again a second later.
    Wait,
    /// The deadline passed without confirmation: roll back.
    RollBack,
}

/// One tick of the guard: confirmation wins, then the deadline.
pub fn guard_tick(confirmed: bool, past_deadline: bool) -> (r: GuardAction)
    ensures
        confirmed ==> r == GuardAction::Keep,
        !confirmed && past_deadline ==> r == GuardAction::RollBack,
        !confirmed && !past_deadline ==> r == GuardAction::Wait,
{
    if confirmed {
        GuardAction::Keep
    } else if past_deadline {
        GuardAction::RollBack
    } else {
        GuardAction::Wait
    }
}

/// The modules among `names` that the catalog knows, in order.
pub open spec fn known(catalog: Seq<ModuleId>, names: Seq<Seq<char>>) -> Seq<ModuleId>
    decreases names.len(),
{
    if names.len() == 0 {
        Seq::empty()
    } else {
        known(catalog, names.drop_last()) + match spec_get(catalog, names.last()) {
            Some(m) => seq![m],
            None => Seq::empty(),
        }
    }
}

/// The modules to roll back: each named module the catalog knows, in the
/// order named; unknown names are skipped.
pub fn rollback_targets(catalog: &ModuleCatalog, names: &Vec<String>) -> (r: Vec<ModuleId>)
    ensures
        r@ == known(catalog@, names.deep_view()),
{
    let mut out: Vec<ModuleId> = Vec::new();
    let mut i: usize = 0;
    assert(out@ =~= known(catalog@, names.deep_view().take(0)));
    while i < names.len()
        invariant
            i <= names@.len(),
            out@ == known(catalog@, names.deep_view().take(i as int)),
        decreases names@.len() - i,
    {
        proof {
            assert(names.deep_view().take(i + 1).drop_last() =~= names.deep_view().take(i as int));
        }
        match catalog.get(names[i].as_str()) {
            Some(m) => out.push(m),
            None => {},
        }
        proof {
            assert(out@ =~= known(catalog@, names.deep_view().take(i + 1)));
        }
        i = i + 1;
    }
    assert(names.deep_view().take(i as int) =~= names.deep_view());
    out
}

/// The guard's command line after the program: config, module list,
/// timeout and commit file.
pub open spec fn spec_guard_args(config: Seq<char>, modules: Seq<Seq<char>>, commit: Seq<char>) -> Seq<Seq<char>> {
    seq![
        "-c"@,
        config,
        "guard"@,
        "--modules"@,
        join(modules, seq![',']),
        "--timeout"@,
        decimal(TIMEOUT_SECS as nat),
        "--commit"@,
        commit,
    ]
}

/// The arguments the detached guard is started with.
pub fn guard_args(config: &str, modules: &Vec<String>, commit: &str) -> (r: Vec<String>)
    ensures
        r.deep_view() == spec_guard_args(config@, modules.deep_view(), commit@),
{
    let comma = ",";
    proof {
        reveal_strlit(",");
        assert(comma@ =~= seq![',']);
    }
    let mut a: Vec<String> = Vec::new();
    a.push(owned("-c"));
    a.push(owned(config));
    a.push(owned("guard"));
    a.push(owned("--modules"));
    a.push(join_strings(modules, comma));
    a.push(owned("--timeout"));
    a.push(crate::text::decimal_string(TIMEOUT_SECS));
    a.push(owned("--commit"));
    a.push(owned(commit));
    assert(a.deep_view() =~= spec_guard_args(config@, modules.deep_view(), commit@));
    a
}

/// An answer keeps the changes when, trimmed, it is empty, `y` or `yes`
/// in any case.
pub open spec fn spec_is_confirmation(line: Seq<char>) -> bool {
    let t = trim(line);
    t.len() == 0 || eq_ignore_case(t, "y"@) || eq_ignore_case(t, "yes"@)
}

/// Whether the operator's answer confirms the changes.
pub fn is_confirmation(line: &str) -> (r: bool)
    ensures
        r == spec_is_confirmation(line@),
{
    let t = trim_owned(line);
    t.as_str().is_empty() || str_eq_ignore_case(t.as_str(), "y") || str_eq_ignore_case(t.as_str(), "yes")
}

/// The notice shown once risky changes are applied.
pub open spec fn spec_risky_notice(modules: Seq<Seq<char>>) -> Seq<char> {
    "Risky changes applied ("@ + join(modules, seq![',', ' ']) + "). They roll back automatically in "@
        + decimal(TIMEOUT_SECS as nat) + "s unless you confirm from this session."@
}

pub fn risky_notice(modules: &Vec<String>) -> (r: String)
    ensures
        r@ == spec_risky_notice(modules.deep_view()),
{
    let sep = ", ";
    proof {
        reveal_strlit(", ");
        assert(sep@ =~= seq![',', ' ']);
    }
    let mut s = owned("Risky changes applied (");
    let names = join_strings(modules, sep);
    push_str(&mut s, names.as_str());
    push_str(&mut s, "). They roll back automatically in ");
    let n = crate::text::decimal_string(TIMEOUT_SECS);
    push_str(&mut s, n.as_str());
    push_str(&mut s, "s unless you confirm from this session.");
    s
}

} // verus!
