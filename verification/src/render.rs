//! Plain-text rendering of plans for the command line.

use vstd::prelude::*;

use crate::text::{chars_of, decimal, decimal_string, find_char, owned, push_str, string_of};
use crate::types::{Change, ChangeV, State, Status, StatusV};

verus! {

/// The part of a summary before its first `:`.
pub open spec fn spec_strip_arrow(summary: Seq<char>) -> Seq<char> {
    summary.take(find_char(summary, ':') as int)
}

/// The module already embeds `key: before -> after`; show only the key.
pub fn strip_arrow(summary: &str) -> (r: String)
    ensures
        r@ == spec_strip_arrow(summary@),
{
    let cs = chars_of(summary);
    let mut i: usize = 0;
    while i < cs.len() && cs[i] != ':'
        invariant
            cs@ == summary@,
            i <= cs@.len(),
            forall|j: int| 0 <= j < i ==> #[trigger] cs@[j] != ':',
        decreases cs@.len() - i,
    {
        i = i + 1;
    }
    proof {
        crate::text::lemma_find_char(summary@, ':', i as int);
        assert(cs@.subrange(0, i as int) =~= summary@.take(i as int));
    }
    string_of(&cs, 0, i)
}

/// The status marker.
pub open spec fn marker(state: State) -> Seq<char> {
    match state {
        State::Compliant => "ok"@,
        State::Drift => "~"@,
        State::Error => "x"@,
        State::NotApplicable => "-"@,
    }
}

/// One line per change: `~ key: before -> after` when both sides are known,
/// else `+ summary`.
pub open spec fn change_line(c: ChangeV) -> Seq<char> {
    match (c.before, c.after) {
        (Some(b), Some(a)) => "    ~ "@ + spec_strip_arrow(c.summary) + ": "@ + b + " -> "@ + a,
        _ => "    + "@ + c.summary,
    }
}

/// The lines printed for one module: a header, then its status or, when it
/// has drifted, its pending changes.
pub open spec fn spec_module_plan(name: Seq<char>, summary: Seq<char>, status: StatusV, changes: Seq<ChangeV>) -> Seq<Seq<char>> {
    let header = "["@ + marker(status.state) + "] "@ + name + " ("@ + summary + ")"@;
    seq![header] + match status.state {
        State::Compliant => seq!["    compliant"@],
        State::NotApplicable => seq!["    n/a: "@ + status.detail],
        State::Error => seq!["    error: "@ + status.detail],
        State::Drift => changes.map_values(|c: ChangeV| change_line(c)),
    }
}

fn marker_text(state: State) -> (r: &'static str)
    ensures
        r@ == marker(state),
{
    match state {
        State::Compliant => "ok",
        State::Drift => "~",
        State::Error => "x",
        State::NotApplicable => "-",
    }
}

fn render_change(c: &Change) -> (r: String)
    ensures
        r@ == change_line(c.deep_view()),
{
    match (&c.before, &c.after) {
        (Some(b), Some(a)) => {
            let mut s = owned("    ~ ");
            let k = strip_arrow(c.summary.as_str());
            push_str(&mut s, k.as_str());
            push_str(&mut s, ": ");
            push_str(&mut s, b.as_str());
            push_str(&mut s, " -> ");
            push_str(&mut s, a.as_str());
            s
        },
        _ => {
            let mut s = owned("    + ");
            push_str(&mut s, c.summary.as_str());
            s
        },
    }
}

/// The lines for a module header, its status, and any pending changes.
pub fn module_plan(name: &str, summary: &str, status: &Status, changes: &Vec<Change>) -> (r: Vec<String>)
    ensures
        r.deep_view() == spec_module_plan(name@, summary@, status.deep_view(), changes.deep_view()),
{
    let mut lines: Vec<String> = Vec::new();
    let mut header = owned("[");
    push_str(&mut header, marker_text(status.state));
    push_str(&mut header, "] ");
    push_str(&mut header, name);
    push_str(&mut header, " (");
    push_str(&mut header, summary);
    push_str(&mut header, ")");
    lines.push(header);
    let ghost head = lines.deep_view();
    match status.state {
        State::Compliant => lines.push(owned("    compliant")),
        State::NotApplicable => {
            let mut l = owned("    n/a: ");
            push_str(&mut l, status.detail.as_str());
            lines.push(l);
        },
        State::Error => {
            let mut l = owned("    error: ");
            push_str(&mut l, status.detail.as_str());
            lines.push(l);
        },
        State::Drift => {
            let mut i: usize = 0;
            while i < changes.len()
                invariant
                    i <= changes@.len(),
                    lines.deep_view() == head + changes.deep_view().take(i as int).map_values(
                        |c: ChangeV| change_line(c),
                    ),
                decreases changes@.len() - i,
            {
                let l = render_change(&changes[i]);
                let ghost before = lines.deep_view();
                lines.push(l);
                proof {
                    assert(lines.deep_view() =~= before.push(l@));
                    assert(changes.deep_view().take(i + 1).map_values(|c: ChangeV| change_line(c))
                        =~= changes.deep_view().take(i as int).map_values(|c: ChangeV| change_line(c)).push(
                        change_line(changes.deep_view()[i as int]),
                    ));
                }
                i = i + 1;
            }
            assert(changes.deep_view().take(i as int) =~= changes.deep_view());
        },
    }
    assert(lines.deep_view() =~= spec_module_plan(name@, summary@, status.deep_view(), changes.deep_view()));
    lines
}

/// The closing summary.
pub open spec fn spec_summary(total: nat) -> Seq<Seq<char>> {
    seq![
        Seq::empty(),
        if total == 0 {
            "Nothing to do; system matches config."@
        } else if total == 1 {
            "1 change pending. Run `vpsguard apply` to converge."@
        } else {
            decimal(total) + " changes pending. Run `vpsguard apply` to converge."@
        },
    ]
}

/// Trailing summary: a blank line, then the count of pending changes.
pub fn summary(total_changes: usize) -> (r: Vec<String>)
    ensures
        r.deep_view() == spec_summary(total_changes as nat),
{
    let mut lines: Vec<String> = Vec::new();
    lines.push(String::new());
    let msg = if total_changes == 0 {
        owned("Nothing to do; system matches config.")
    } else if total_changes == 1 {
        owned("1 change pending. Run `vpsguard apply` to converge.")
    } else {
        let mut m = decimal_string(total_changes as u64);
        push_str(&mut m, " changes pending. Run `vpsguard apply` to converge.");
        m
    };
    lines.push(msg);
    assert(lines.deep_view() =~= spec_summary(total_changes as nat));
    lines
}

} // verus!
