//! Small helpers shared by modules: path resolution and package removal.

use vstd::prelude::*;

use crate::action::{args2, args3, run, run_quiet, Step, StepV};
use crate::types::Output;
use crate::platform::{DistroFamily, Platform};
use crate::text::{chars_of, has_suffix, lead_char, owned, push_str, str_eq, string_of, trim, trim_owned, lemma_lead_char};

verus! {

/// `path` followed by `suffix` (a sibling file such as `x.bak`).
pub open spec fn spec_with_suffix(path: Seq<char>, suffix: Seq<char>) -> Seq<char> {
    path + suffix
}

/// Append `suffix` to a path's filename (e.g. `.bak`).
pub fn with_suffix(path: &str, suffix: &str) -> (r: String)
    ensures
        r@ == spec_with_suffix(path@, suffix@),
{
    let mut r = owned(path);
    push_str(&mut r, suffix);
    r
}

/// `absolute` resolved against `root`: its leading slashes dropped, then
/// joined under `root` with one separator.
pub open spec fn spec_resolve(root: Seq<char>, absolute: Seq<char>) -> Seq<char> {
    let rel = absolute.skip(lead_char(absolute, '/') as int);
    if has_suffix(root, seq!['/']) {
        root + rel
    } else {
        root + seq!['/'] + rel
    }
}

/// Resolve an absolute-looking path (`/etc/...`) against `root`.
pub fn resolve(root: &str, absolute: &str) -> (r: String)
    ensures
        r@ == spec_resolve(root@, absolute@),
{
    let cs = chars_of(absolute);
    let mut a: usize = 0;
    while a < cs.len() && cs[a] == '/'
        invariant
            cs@ == absolute@,
            a <= cs@.len(),
            forall|j: int| 0 <= j < a ==> #[trigger] cs@[j] == '/',
        decreases cs@.len() - a,
    {
        a = a + 1;
    }
    proof {
        lemma_lead_char(absolute@, '/', a as int);
    }
    let rel = string_of(&cs, a, cs.len());
    assert(rel@ =~= absolute@.skip(a as int));
    let rc = chars_of(root);
    let ends = rc.len() > 0 && rc[rc.len() - 1] == '/';
    proof {
        if ends {
            assert(root@.skip(root@.len() - 1) =~= seq!['/']);
        }
        if has_suffix(root@, seq!['/']) {
            assert(root@.skip(root@.len() - 1)[0] == root@[root@.len() - 1]);
        }
    }
    let mut r = owned(root);
    if !ends {
        let sep = "/";
        proof {
            reveal_strlit("/");
            assert(sep@ =~= seq!['/']);
        }
        push_str(&mut r, sep);
    }
    push_str(&mut r, rel.as_str());
    r
}

/// The command that removes `pkg` with the host package manager; `purge`
/// also removes configuration where the manager supports it.
pub open spec fn spec_remove_pkg(family: DistroFamily, pkg: Seq<char>, purge: bool) -> Option<StepV> {
    match family {
        DistroFamily::Debian => Some(
            StepV::RunQuiet {
                command: "apt-get"@,
                args: seq![if purge { "purge"@ } else { "remove"@ }, "-y"@, pkg],
            },
        ),
        DistroFamily::Rhel => Some(
            StepV::RunQuiet { command: "dnf"@, args: seq!["remove"@, "-y"@, pkg] },
        ),
        DistroFamily::Arch => Some(
            StepV::RunQuiet { command: "pacman"@, args: seq!["-Rns"@, "--noconfirm"@, pkg] },
        ),
        DistroFamily::Suse => Some(
            StepV::RunQuiet { command: "zypper"@, args: seq!["remove"@, "-y"@, pkg] },
        ),
        DistroFamily::Unknown => None,
    }
}

/// Remove a package with the host package manager (best effort).
pub fn remove_pkg(platform: &Platform, pkg: &str, purge: bool) -> (r: Option<Step>)
    ensures
        match r {
            Some(s) => spec_remove_pkg(platform.family, pkg@, purge) == Some(s.deep_view()),
            None => spec_remove_pkg(platform.family, pkg@, purge) is None,
        },
{
    match platform.family {
        DistroFamily::Debian => {
            let verb = if purge {
                "purge"
            } else {
                "remove"
            };
            let s = run_quiet("apt-get", args3(verb, "-y", pkg));
            Some(s)
        },
        DistroFamily::Rhel => {
            let s = run_quiet("dnf", args3("remove", "-y", pkg));
            Some(s)
        },
        DistroFamily::Arch => {
            let s = run_quiet("pacman", args3("-Rns", "--noconfirm", pkg));
            Some(s)
        },
        DistroFamily::Suse => {
            let s = run_quiet("zypper", args3("remove", "-y", pkg));
            Some(s)
        },
        DistroFamily::Unknown => None,
    }
}

/// Stop and disable a systemd service (best effort).
pub fn disable_service(service: &str) -> (r: Step)
    ensures
        r.deep_view() == (StepV::RunQuiet {
            command: "systemctl"@,
            args: seq!["disable"@, "--now"@, service@],
        }),
{
    run_quiet("systemctl", args3("disable", "--now", service))
}

/// The probe `systemctl is-enabled SERVICE`.
pub fn is_enabled_probe(service: &str) -> (r: Step)
    ensures
        r.deep_view() == (StepV::Run { command: "systemctl"@, args: seq!["is-enabled"@, service@] }),
{
    run("systemctl", args2("is-enabled", service))
}

/// A probe that could be run and exited 0; `None` is a probe that could not
/// be run at all.
pub fn succeeded(out: &Option<Output>) -> (r: bool)
    ensures
        r == (out matches Some(o) && o.code == 0),
{
    match out {
        Some(o) => o.success(),
        None => false,
    }
}

/// What `systemctl is-enabled` printed says `enabled`.
pub fn reports_enabled(out: &Option<Output>) -> (r: bool)
    ensures
        r == (out matches Some(o) && trim(o.stdout@) == "enabled"@),
{
    match out {
        Some(o) => {
            let t = trim_owned(o.stdout.as_str());
            str_eq(t.as_str(), "enabled")
        },
        None => false,
    }
}

} // verus!
