//! SSH hardening: manages Port, PermitRootLogin, PasswordAuthentication and
//! the modern Ciphers/KexAlgorithms/MACs set in `sshd_config`.
//!
//! A rewritten config is staged, validated with `sshd -t` before it replaces
//! the live file, the daemon is restarted only on success, and the previous
//! file is snapshotted for rollback.

use vstd::prelude::*;

use crate::action::{
    args2, args3, files_after, run_checked, remove_quiet, write_file, Plan, PlanV, Step, StepV,
};
use crate::common::{resolve, spec_resolve, spec_with_suffix, with_suffix};
use crate::config::SshConfig;
use crate::platform::{DistroFamily, Platform};
use crate::text::{
    no_nl, lemma_join_front, lemma_lines_no_nl,
    chars_of, decimal, decimal_string, eq_ignore_case, eq_ignore_case_range, has_suffix, is_ws,
    join, join_strings, lines, owned, push_str, skip_ws_from, split_lines, str_eq_ignore_case,
    string_of, trim, trim_bounds, trim_start, word_len, lemma_lead_ws, lemma_word_len, ends_with,
    is_whitespace, find_char, strip_cr,
};
use crate::types::{
    command_change, drift_status, empty_report, Change, ChangeKind, ChangeV, Error, ErrorV,
    Report, ReportV, Status, StatusV,
};

verus! {

/// Live sshd configuration.
pub const SSHD_CONFIG: &'static str = "/etc/ssh/sshd_config";

/// Suffix for the pre-apply snapshot used by `rollback`.
pub const BACKUP_SUFFIX: &'static str = ".vpsguard.bak";

/// Suffix for the staged file validated before it is swapped in.
pub const STAGED_SUFFIX: &'static str = ".vpsguard.new";

/// Modern, conservative ciphers (CIS / Mozilla "modern" guidance).
pub const CIPHERS: &'static str = "chacha20-poly1305@openssh.com,aes256-gcm@openssh.com,aes128-gcm@openssh.com";

/// Modern key exchange algorithms.
pub const KEX_ALGORITHMS: &'static str = "curve25519-sha256,curve25519-sha256@libssh.org,diffie-hellman-group16-sha512";

/// Modern MACs.
pub const MACS: &'static str = "hmac-sha2-512-etm@openssh.com,hmac-sha2-256-etm@openssh.com,umac-128-etm@openssh.com";

/// SSH daemon hardening module.
#[derive(Debug, Default, Clone, Copy)]
pub struct SshModule;

impl SshModule {
    /// Stable id used in config keys and the UI.
    pub fn name(&self) -> (r: &'static str)
        ensures
            r@ == "ssh"@,
    {
        "ssh"
    }

    /// One-line description shown in the plan and dashboard.
    pub fn summary(&self) -> (r: &'static str)
        ensures
            r@ == "Harden sshd: custom port, no root/password login, modern crypto"@,
    {
        "Harden sshd: custom port, no root/password login, modern crypto"
    }

    /// Category for ordering and grouping.
    pub fn category(&self) -> (r: crate::types::Category)
        ensures
            r == crate::types::Category::Security,
    {
        crate::types::Category::Security
    }

    /// SSH changes can lock the operator out; they trigger the apply guard.
    pub fn lockout_risk(&self) -> (r: bool)
        ensures
            r,
    {
        true
    }
}

// ---------------------------------------------------------------------------
// Specification of the managed directives and of a config file's lines
// ---------------------------------------------------------------------------

/// `"yes"` or `"no"`.
pub open spec fn yes_no(b: bool) -> Seq<char> {
    if b {
        "yes"@
    } else {
        "no"@
    }
}

/// The directives vpsguard manages, in the order they should appear.
pub open spec fn spec_desired(cfg: SshConfig) -> Seq<(Seq<char>, Seq<char>)> {
    let base = seq![
        ("Port"@, decimal(cfg.port as nat)),
        ("PermitRootLogin"@, yes_no(cfg.permit_root_login)),
        ("PasswordAuthentication"@, yes_no(cfg.password_auth)),
    ];
    if cfg.modern_ciphers {
        base + seq![
            ("Ciphers"@, CIPHERS@),
            ("KexAlgorithms"@, KEX_ALGORITHMS@),
            ("MACs"@, MACS@),
        ]
    } else {
        base
    }
}

/// `line` is an uncommented directive whose keyword is `key` (compared
/// ignoring ASCII case, as sshd does).
pub open spec fn is_active(line: Seq<char>, key: Seq<char>) -> bool {
    let t = trim_start(line);
    t.len() > 0 && t[0] != '#' && eq_ignore_case(t.take(word_len(t) as int), key)
}

/// Everything after the keyword on a directive line, trimmed.
pub open spec fn spec_directive_value(line: Seq<char>) -> Seq<char> {
    let t = trim(line);
    let p = word_len(t);
    if p < t.len() {
        trim(t.skip(p as int + 1))
    } else {
        Seq::empty()
    }
}

/// The value of the first active `key` directive among `ls` (sshd's "first
/// match wins").
pub open spec fn first_active_value(ls: Seq<Seq<char>>, key: Seq<char>) -> Option<Seq<char>>
    decreases ls.len(),
{
    if ls.len() == 0 {
        None
    } else if is_active(ls[0], key) {
        Some(spec_directive_value(ls[0]))
    } else {
        first_active_value(ls.drop_first(), key)
    }
}

/// The change reported for one directive, if it drifts.
pub open spec fn directive_change(key: Seq<char>, want: Seq<char>, cur: Option<Seq<char>>) -> Option<ChangeV> {
    match cur {
        Some(c) => if eq_ignore_case(c, want) {
            None
        } else {
            Some(
                ChangeV {
                    kind: ChangeKind::Modify,
                    summary: key + ": "@ + c + " -> "@ + want,
                    before: Some(c),
                    after: Some(want),
                },
            )
        },
        None => Some(
            ChangeV {
                kind: ChangeKind::Modify,
                summary: key + ": (unset) -> "@ + want,
                before: Some("(unset)"@),
                after: Some(want),
            },
        ),
    }
}

/// The changes needed to bring a file with lines `ls` in line with `d`.
pub open spec fn spec_diff(ls: Seq<Seq<char>>, d: Seq<(Seq<char>, Seq<char>)>) -> Seq<ChangeV>
    decreases d.len(),
{
    if d.len() == 0 {
        Seq::empty()
    } else {
        let rest = spec_diff(ls, d.drop_last());
        match directive_change(d.last().0, d.last().1, first_active_value(ls, d.last().0)) {
            Some(c) => rest.push(c),
            None => rest,
        }
    }
}

/// `ls` already sets every directive of `d` as asked: the first active line
/// of each key carries the wanted value, compared ignoring ASCII case.
pub open spec fn compliant(ls: Seq<Seq<char>>, d: Seq<(Seq<char>, Seq<char>)>) -> bool {
    forall|i: int|
        0 <= i < d.len() ==> (first_active_value(ls, #[trigger] d[i].0) matches Some(v) && eq_ignore_case(
            v,
            d[i].1,
        ))
}

/// Law: `diff` reports nothing exactly when the file is compliant.
pub proof fn law_diff_empty_iff_compliant(ls: Seq<Seq<char>>, d: Seq<(Seq<char>, Seq<char>)>)
    ensures
        spec_diff(ls, d).len() == 0 <==> compliant(ls, d),
    decreases d.len(),
{
    if d.len() > 0 {
        let dl = d.drop_last();
        law_diff_empty_iff_compliant(ls, dl);
        let n = d.len() - 1;
        assert(d.last() == d[n]);
        if compliant(ls, d) {
            assert forall|i: int| 0 <= i < dl.len() implies (first_active_value(ls, #[trigger] dl[i].0) matches Some(v)
                && eq_ignore_case(v, dl[i].1)) by {
                assert(dl[i] == d[i]);
            }
            assert(first_active_value(ls, d[n].0) matches Some(v) && eq_ignore_case(v, d[n].1));
        }
        if spec_diff(ls, d).len() == 0 {
            assert(spec_diff(ls, dl).len() == 0);
            assert forall|i: int| 0 <= i < d.len() implies (first_active_value(ls, #[trigger] d[i].0) matches Some(v)
                && eq_ignore_case(v, d[i].1)) by {
                if i < n {
                    assert(dl[i] == d[i]);
                }
            }
        }
    }
}

/// The line that sets `key` to `val`.
pub open spec fn target_line(key: Seq<char>, val: Seq<char>) -> Seq<char> {
    key + seq![' '] + val
}

/// A duplicate directive, commented out.
pub open spec fn superseded(line: Seq<char>) -> Seq<char> {
    "# "@ + line + "  # superseded by vpsguard"@
}

/// `ls` with directive `key` set to `val`: the first active occurrence is
/// rewritten in place, later active duplicates are commented out, and the
/// directive is appended when absent.
pub open spec fn render_key(ls: Seq<Seq<char>>, key: Seq<char>, val: Seq<char>) -> Seq<Seq<char>> {
    if exists|i: int| 0 <= i < ls.len() && #[trigger] is_active(ls[i], key) {
        Seq::new(
            ls.len(),
            |i: int|
                if is_active(ls[i], key) {
                    if forall|j: int| 0 <= j < i ==> !#[trigger] is_active(ls[j], key) {
                        target_line(key, val)
                    } else {
                        superseded(ls[i])
                    }
                } else {
                    ls[i]
                },
        )
    } else {
        ls.push(target_line(key, val))
    }
}

/// `ls` with every directive of `d` set, in order.
pub open spec fn render_all(ls: Seq<Seq<char>>, d: Seq<(Seq<char>, Seq<char>)>) -> Seq<Seq<char>>
    decreases d.len(),
{
    if d.len() == 0 {
        ls
    } else {
        render_all(render_key(ls, d[0].0, d[0].1), d.drop_first())
    }
}

/// The rendered file: the lines joined with `\n`, with a final `\n` when the
/// input had one or was empty.
pub open spec fn spec_render(content: Seq<char>, d: Seq<(Seq<char>, Seq<char>)>) -> Seq<char> {
    let out = join(render_all(lines(content), d), seq!['\n']);
    if has_suffix(content, seq!['\n']) || content.len() == 0 {
        out.push('\n')
    } else {
        out
    }
}

// ---------------------------------------------------------------------------
// Pure logic
// ---------------------------------------------------------------------------

/// The directives vpsguard manages, in the order they should appear.
pub fn desired_directives(cfg: &SshConfig) -> (r: Vec<(&'static str, String)>)
    ensures
        r.deep_view() == spec_desired(*cfg),
{
    let mut d: Vec<(&'static str, String)> = Vec::new();
    d.push(("Port", decimal_string(cfg.port as u64)));
    d.push(("PermitRootLogin", owned(if cfg.permit_root_login { "yes" } else { "no" })));
    d.push(("PasswordAuthentication", owned(if cfg.password_auth { "yes" } else { "no" })));
    if cfg.modern_ciphers {
        d.push(("Ciphers", owned(CIPHERS)));
        d.push(("KexAlgorithms", owned(KEX_ALGORITHMS)));
        d.push(("MACs", owned(MACS)));
    }
    assert(d.deep_view() =~= spec_desired(*cfg));
    d
}

/// True if `line` is an uncommented directive whose keyword is `key`.
pub fn is_active_directive(line: &str, key: &str) -> (r: bool)
    ensures
        r == is_active(line@, key@),
{
    let cs = chars_of(line);
    let n = cs.len();
    let a = skip_ws_from(&cs, 0, n);
    assert(cs@.subrange(0, n as int) =~= line@);
    let ghost t = trim_start(line@);
    assert(t =~= cs@.subrange(a as int, n as int));
    if a == n || cs[a] == '#' {
        return false;
    }
    let mut b = a;
    while b < n && !is_whitespace(cs[b])
        invariant
            a <= b <= n == cs@.len(),
            forall|j: int| a <= j < b ==> !is_ws(#[trigger] cs@[j]),
        decreases n - b,
    {
        b = b + 1;
    }
    proof {
        assert forall|j: int| 0 <= j < b - a implies !is_ws(#[trigger] t[j]) by {
            assert(t[j] == cs@[a + j]);
        }
        if b < n {
            assert(t[b - a] == cs@[b as int]);
        }
        lemma_word_len(t, b - a);
        assert(t.take(b - a) =~= cs@.subrange(a as int, b as int));
    }
    let kc = chars_of(key);
    eq_ignore_case_range(&cs, a, b, &kc)
}

/// Everything after the keyword on a directive line, trimmed.
pub fn directive_value(line: &str) -> (r: String)
    ensures
        r@ == spec_directive_value(line@),
{
    let cs = chars_of(line);
    let n = cs.len();
    assert(cs@.subrange(0, n as int) =~= line@);
    let (a, b) = trim_bounds(&cs, 0, n);
    let ghost t = trim(line@);
    assert(t =~= cs@.subrange(a as int, b as int));
    let mut p = a;
    while p < b && !is_whitespace(cs[p])
        invariant
            a <= p <= b <= n == cs@.len(),
            forall|j: int| a <= j < p ==> !is_ws(#[trigger] cs@[j]),
        decreases b - p,
    {
        p = p + 1;
    }
    proof {
        assert forall|j: int| 0 <= j < p - a implies !is_ws(#[trigger] t[j]) by {
            assert(t[j] == cs@[a + j]);
        }
        if p < b {
            assert(t[p - a] == cs@[p as int]);
        }
        lemma_word_len(t, p - a);
    }
    if p < b {
        let (c, d) = trim_bounds(&cs, p + 1, b);
        assert(t.skip(p - a + 1) =~= cs@.subrange(p + 1, b as int));
        string_of(&cs, c, d)
    } else {
        String::new()
    }
}

/// First active (uncommented) value for `key`, per sshd "first match wins".
pub fn active_value(content: &str, key: &str) -> (r: Option<String>)
    ensures
        r.deep_view() == first_active_value(lines(content@), key@),
{
    let ls = split_lines(content);
    active_value_in(&ls, key)
}

fn active_value_in(ls: &Vec<String>, key: &str) -> (r: Option<String>)
    ensures
        r.deep_view() == first_active_value(ls.deep_view(), key@),
{
    let mut i: usize = 0;
    assert(ls.deep_view().skip(0) =~= ls.deep_view());
    while i < ls.len()
        invariant
            i <= ls@.len(),
            first_active_value(ls.deep_view(), key@) == first_active_value(
                ls.deep_view().skip(i as int),
                key@,
            ),
        decreases ls@.len() - i,
    {
        let ghost rest = ls.deep_view().skip(i as int);
        assert(rest[0] == ls[i as int]@);
        assert(rest.drop_first() =~= ls.deep_view().skip(i + 1));
        if is_active_directive(ls[i].as_str(), key) {
            return Some(directive_value(ls[i].as_str()));
        }
        i = i + 1;
    }
    None
}

/// Compute the changes needed to bring `content` in line with `cfg`.
pub fn diff(content: &str, cfg: &SshConfig) -> (r: Vec<Change>)
    ensures
        r.deep_view() == spec_diff(lines(content@), spec_desired(*cfg)),
{
    let ls = split_lines(content);
    let d = desired_directives(cfg);
    let mut out: Vec<Change> = Vec::new();
    let mut k: usize = 0;
    while k < d.len()
        invariant
            k <= d@.len(),
            d.deep_view() == spec_desired(*cfg),
            ls.deep_view() == lines(content@),
            out.deep_view() == spec_diff(ls.deep_view(), d.deep_view().take(k as int)),
        decreases d@.len() - k,
    {
        let key = d[k].0;
        let want = d[k].1.as_str();
        let ghost dk = d.deep_view().take(k + 1);
        proof {
            assert(dk.drop_last() =~= d.deep_view().take(k as int));
            assert(dk.last() == (key@, want@));
        }
        let cur = active_value_in(&ls, key);
        let ghost before = out.deep_view();
        match cur {
            Some(c) => {
                if !str_eq_ignore_case(c.as_str(), want) {
                    let mut s = owned(key);
                    push_str(&mut s, ": ");
                    push_str(&mut s, c.as_str());
                    push_str(&mut s, " -> ");
                    push_str(&mut s, want);
                    let ch = Change::modify(s.as_str(), c.as_str(), want);
                    out.push(ch);
                    proof {
                        reveal_strlit(": ");
                        reveal_strlit(" -> ");
                        assert(out.deep_view() =~= before.push(ch.deep_view()));
                    }
                }
            },
            None => {
                let mut s = owned(key);
                push_str(&mut s, ": (unset) -> ");
                push_str(&mut s, want);
                let ch = Change::modify(s.as_str(), "(unset)", want);
                out.push(ch);
                proof {
                    reveal_strlit(": (unset) -> ");
                    assert(out.deep_view() =~= before.push(ch.deep_view()));
                }
            },
        }
        k = k + 1;
    }
    assert(d.deep_view().take(k as int) =~= d.deep_view());
    out
}

/// Apply `desired` to `content`, returning the new file body.
///
/// The first active occurrence of each key is rewritten in place; further
/// active duplicates are commented out; missing keys are appended. Commented
/// templates and unrelated lines are preserved.
pub fn render(content: &str, desired: &Vec<(&'static str, String)>) -> (r: String)
    ensures
        r@ == spec_render(content@, desired.deep_view()),
{
    let mut ls = split_lines(content);
    let had_trailing_newline = ends_with(content, "\n") || content.is_empty();
    proof {
        reveal_strlit("\n");
        assert("\n"@ =~= seq!['\n']);
    }
    let mut k: usize = 0;
    assert(desired.deep_view().skip(0) =~= desired.deep_view());
    while k < desired.len()
        invariant
            k <= desired@.len(),
            render_all(lines(content@), desired.deep_view()) == render_all(
                ls.deep_view(),
                desired.deep_view().skip(k as int),
            ),
        decreases desired@.len() - k,
    {
        let key = desired[k].0;
        let val = desired[k].1.as_str();
        let mut target = owned(key);
        push_str(&mut target, " ");
        push_str(&mut target, val);
        proof {
            reveal_strlit(" ");
        }
        let ghost old_ls = ls.deep_view();
        let ghost tl = target_line(key@, val@);
        assert(target@ =~= tl);
        let mut placed = false;
        let mut i: usize = 0;
        while i < ls.len()
            invariant
                ls@.len() == old_ls.len(),
                i <= ls@.len(),
                target@ == tl,
                placed == exists|j: int| 0 <= j < i && #[trigger] is_active(old_ls[j], key@),
                forall|j: int|
                    i <= j < old_ls.len() ==> #[trigger] ls.deep_view()[j] == old_ls[j],
                forall|j: int|
                    0 <= j < i ==> #[trigger] ls.deep_view()[j] == (if is_active(old_ls[j], key@) {
                        if forall|m: int| 0 <= m < j ==> !#[trigger] is_active(old_ls[m], key@) {
                            tl
                        } else {
                            superseded(old_ls[j])
                        }
                    } else {
                        old_ls[j]
                    }),
            decreases ls@.len() - i,
        {
            assert(ls.deep_view()[i as int] == old_ls[i as int]);
            let ghost prev = ls.deep_view();
            if is_active_directive(ls[i].as_str(), key) {
                if placed {
                    let mut c = owned("# ");
                    push_str(&mut c, ls[i].as_str());
                    push_str(&mut c, "  # superseded by vpsguard");
                    proof {
                        reveal_strlit("# ");
                        reveal_strlit("  # superseded by vpsguard");
                        assert(c@ =~= superseded(old_ls[i as int]));
                    }
                    ls.set(i, c);
                    assert(ls.deep_view() =~= prev.update(i as int, c@));
                } else {
                    let t2 = target.clone();
                    ls.set(i, t2);
                    assert(ls.deep_view() =~= prev.update(i as int, t2@));
                    placed = true;
                }
            }
            i = i + 1;
        }
        if !placed {
            let ghost before = ls.deep_view();
            ls.push(target);
            proof {
                assert(before =~= old_ls);
                assert(ls.deep_view() =~= old_ls.push(tl));
            }
        } else {
            assert(ls.deep_view() =~= render_key(old_ls, key@, val@));
        }
        proof {
            assert(desired.deep_view().skip(k as int)[0] == (key@, val@));
            assert(desired.deep_view().skip(k as int).drop_first() =~= desired.deep_view().skip(
                k + 1,
            ));
        }
        k = k + 1;
    }
    assert(desired.deep_view().skip(k as int) =~= Seq::<(Seq<char>, Seq<char>)>::empty());
    let mut out = join_strings(&ls, "\n");
    proof {
        reveal_strlit("\n");
        assert("\n"@ =~= seq!['\n']);
        assert(ls.deep_view() == render_all(ls.deep_view(), desired.deep_view().skip(k as int)));
    }
    if had_trailing_newline {
        push_str(&mut out, "\n");
    }
    out
}

} // verus!

verus! {

// ---------------------------------------------------------------------------
// Laws: rendering converges, and rendering twice changes nothing
// ---------------------------------------------------------------------------


/// `s` does not end with a carriage return.
pub open spec fn no_cr_end(s: Seq<char>) -> bool {
    !(s.len() > 0 && s.last() == '\r')
}

/// A line that `lines` gives back unchanged after a `\n` is appended.
pub open spec fn line_ok(s: Seq<char>) -> bool {
    no_nl(s) && no_cr_end(s)
}

/// No line holds a line break.
pub open spec fn nl_free(ls: Seq<Seq<char>>) -> bool {
    forall|i: int| 0 <= i < ls.len() ==> no_nl(#[trigger] ls[i])
}

/// What splitting `ls` joined with `\n` gives back: every line that a `\n`
/// follows (all but the last, and the last too when `terminated`) loses a
/// final carriage return.
pub open spec fn resplit(ls: Seq<Seq<char>>, terminated: bool) -> Seq<Seq<char>> {
    Seq::new(
        ls.len(),
        |i: int|
            if i + 1 < ls.len() || terminated {
                strip_cr(ls[i])
            } else {
                ls[i]
            },
    )
}

/// Whether the rendered file ends with a line break.
pub open spec fn render_terminated(content: Seq<char>) -> bool {
    has_suffix(content, seq!['\n']) || content.len() == 0
}

/// No line of the rendered file that a `\n` follows ends with a carriage
/// return. Such a line is one the render kept as it was, and reading the
/// rendered file back takes that carriage return for part of the line end.
pub open spec fn rendered_lines_keep(content: Seq<char>, d: Seq<(Seq<char>, Seq<char>)>) -> bool {
    let r = render_all(lines(content), d);
    forall|i: int|
        0 <= i < r.len() && (i + 1 < r.len() || render_terminated(content)) ==> no_cr_end(
            #[trigger] r[i],
        )
}

/// A keyword: non-empty, no whitespace, not a comment.
pub open spec fn valid_key(k: Seq<char>) -> bool {
    &&& k.len() > 0
    &&& k[0] != '#'
    &&& forall|i: int| 0 <= i < k.len() ==> !is_ws(#[trigger] k[i])
}

/// A directive list that `render` handles idempotently: valid keywords that
/// differ pairwise (ignoring ASCII case), values without line breaks or a
/// trailing carriage return.
pub open spec fn valid_directives(d: Seq<(Seq<char>, Seq<char>)>) -> bool {
    &&& forall|i: int| 0 <= i < d.len() ==> valid_key(#[trigger] d[i].0) && line_ok(d[i].1)
    &&& forall|i: int, j: int|
        0 <= i < d.len() && 0 <= j < d.len() && i != j ==> !eq_ignore_case(
            #[trigger] d[i].0,
            #[trigger] d[j].0,
        )
}

/// Exactly one line of `ls` is an active `key` directive, and it is `t`.
pub open spec fn settled(ls: Seq<Seq<char>>, key: Seq<char>, t: Seq<char>) -> bool {
    &&& exists|i: int| 0 <= i < ls.len() && #[trigger] is_active(ls[i], key)
    &&& forall|i: int| 0 <= i < ls.len() && #[trigger] is_active(ls[i], key) ==> ls[i] == t
    &&& forall|i: int, j: int|
        0 <= i < ls.len() && 0 <= j < ls.len() && #[trigger] is_active(ls[i], key)
            && #[trigger] is_active(ls[j], key) ==> i == j
}

proof fn lemma_target_shape(k: Seq<char>, v: Seq<char>)
    requires
        valid_key(k),
    ensures
        trim_start(target_line(k, v)) == target_line(k, v),
        word_len(target_line(k, v)) == k.len(),
        target_line(k, v).take(k.len() as int) == k,
{
    let t = target_line(k, v);
    assert(t[0] == k[0]);
    lemma_lead_ws(t, 0);
    assert(t.skip(0) =~= t);
    assert forall|j: int| 0 <= j < k.len() implies !is_ws(#[trigger] t[j]) by {
        assert(t[j] == k[j]);
    }
    assert(t[k.len() as int] == ' ');
    lemma_word_len(t, k.len() as int);
    assert(t.take(k.len() as int) =~= k);
}

proof fn lemma_target_active(k: Seq<char>, v: Seq<char>, other: Seq<char>)
    requires
        valid_key(k),
    ensures
        is_active(target_line(k, v), other) == eq_ignore_case(k, other),
{
    lemma_target_shape(k, v);
}

proof fn lemma_superseded_inactive(l: Seq<char>, k: Seq<char>)
    ensures
        !is_active(superseded(l), k),
{
    reveal_strlit("# ");
    let s = superseded(l);
    assert(s[0] == '#');
    lemma_lead_ws(s, 0);
    assert(s.skip(0) =~= s);
}

proof fn lemma_active_keys_agree(l: Seq<char>, k1: Seq<char>, k2: Seq<char>)
    requires
        is_active(l, k1),
        is_active(l, k2),
    ensures
        eq_ignore_case(k1, k2),
{
    let t = trim_start(l);
    let tok = t.take(word_len(t) as int);
    assert forall|i: int| 0 <= i < k1.len() implies crate::text::lower(#[trigger] k1[i])
        == crate::text::lower(k2[i]) by {
        assert(crate::text::lower(tok[i]) == crate::text::lower(k1[i]));
        assert(crate::text::lower(tok[i]) == crate::text::lower(k2[i]));
    }
}

/// The first index of an active `key` line, at or before `n`.
proof fn lemma_first_active(ls: Seq<Seq<char>>, key: Seq<char>, n: int) -> (i: int)
    requires
        0 <= n < ls.len(),
        is_active(ls[n], key),
    ensures
        0 <= i <= n,
        is_active(ls[i], key),
        forall|j: int| 0 <= j < i ==> !#[trigger] is_active(ls[j], key),
    decreases n,
{
    if exists|j: int| 0 <= j < n && #[trigger] is_active(ls[j], key) {
        let j = choose|j: int| 0 <= j < n && #[trigger] is_active(ls[j], key);
        lemma_first_active(ls, key, j)
    } else {
        n
    }
}

proof fn lemma_render_key_settles(ls: Seq<Seq<char>>, k: Seq<char>, v: Seq<char>)
    requires
        valid_key(k),
    ensures
        settled(render_key(ls, k, v), k, target_line(k, v)),
{
    let t = target_line(k, v);
    let r = render_key(ls, k, v);
    lemma_target_active(k, v, k);
    if exists|i: int| 0 <= i < ls.len() && #[trigger] is_active(ls[i], k) {
        let n = choose|i: int| 0 <= i < ls.len() && #[trigger] is_active(ls[i], k);
        let f = lemma_first_active(ls, k, n);
        assert(r[f] == t);
        assert forall|i: int| 0 <= i < r.len() && #[trigger] is_active(r[i], k) implies r[i] == t
            && i == f by {
            if is_active(ls[i], k) {
                if forall|j: int| 0 <= j < i ==> !#[trigger] is_active(ls[j], k) {
                    if i != f {
                        if i < f {
                        } else {
                            assert(!is_active(ls[f], k));
                        }
                    }
                } else {
                    lemma_superseded_inactive(ls[i], k);
                }
            }
        }
        assert(is_active(r[f], k));
    } else {
        assert(r[ls.len() as int] == t);
        assert(is_active(r[ls.len() as int], k));
        assert forall|i: int| 0 <= i < r.len() && #[trigger] is_active(r[i], k) implies r[i] == t
            && i == ls.len() by {
            if i < ls.len() {
                assert(r[i] == ls[i]);
            }
        }
    }
}

proof fn lemma_render_key_keeps(
    ls: Seq<Seq<char>>,
    k1: Seq<char>,
    t1: Seq<char>,
    k2: Seq<char>,
    v2: Seq<char>,
)
    requires
        settled(ls, k1, t1),
        valid_key(k2),
        !eq_ignore_case(k2, k1),
    ensures
        settled(render_key(ls, k2, v2), k1, t1),
{
    let r = render_key(ls, k2, v2);
    lemma_target_active(k2, v2, k1);
    assert forall|i: int| 0 <= i < ls.len() implies (#[trigger] is_active(r[i], k1) == is_active(
        ls[i],
        k1,
    )) && (is_active(ls[i], k1) ==> r[i] == ls[i]) by {
        if is_active(ls[i], k2) {
            lemma_superseded_inactive(ls[i], k1);
            if is_active(ls[i], k1) {
                lemma_active_keys_agree(ls[i], k2, k1);
            }
        }
    }
    if !(exists|i: int| 0 <= i < ls.len() && #[trigger] is_active(ls[i], k2)) {
        assert(!is_active(r[ls.len() as int], k1));
    }
    let w = choose|i: int| 0 <= i < ls.len() && #[trigger] is_active(ls[i], k1);
    assert(is_active(r[w], k1));
}

proof fn lemma_render_key_identity(ls: Seq<Seq<char>>, k: Seq<char>, v: Seq<char>)
    requires
        settled(ls, k, target_line(k, v)),
    ensures
        render_key(ls, k, v) == ls,
{
    let r = render_key(ls, k, v);
    assert forall|i: int| 0 <= i < ls.len() implies #[trigger] r[i] == ls[i] by {
        if is_active(ls[i], k) {
            assert forall|j: int| 0 <= j < i implies !#[trigger] is_active(ls[j], k) by {}
        }
    }
    assert(r =~= ls);
}

proof fn lemma_render_all_keeps(
    ls: Seq<Seq<char>>,
    d: Seq<(Seq<char>, Seq<char>)>,
    k: Seq<char>,
    t: Seq<char>,
)
    requires
        settled(ls, k, t),
        forall|i: int| 0 <= i < d.len() ==> valid_key(#[trigger] d[i].0),
        forall|i: int| 0 <= i < d.len() ==> !eq_ignore_case(#[trigger] d[i].0, k),
    ensures
        settled(render_all(ls, d), k, t),
    decreases d.len(),
{
    if d.len() > 0 {
        lemma_render_key_keeps(ls, k, t, d[0].0, d[0].1);
        let rest = d.drop_first();
        assert forall|i: int| 0 <= i < rest.len() implies valid_key(#[trigger] rest[i].0)
            && !eq_ignore_case(rest[i].0, k) by {
            assert(rest[i] == d[i + 1]);
        }
        lemma_render_all_keeps(render_key(ls, d[0].0, d[0].1), rest, k, t);
    }
}

proof fn lemma_render_all_settles(ls: Seq<Seq<char>>, d: Seq<(Seq<char>, Seq<char>)>)
    requires
        forall|i: int| 0 <= i < d.len() ==> valid_key(#[trigger] d[i].0),
        forall|i: int, j: int|
            0 <= i < d.len() && 0 <= j < d.len() && i != j ==> !eq_ignore_case(
                #[trigger] d[i].0,
                #[trigger] d[j].0,
            ),
    ensures
        forall|i: int|
            0 <= i < d.len() ==> settled(
                render_all(ls, d),
                #[trigger] d[i].0,
                target_line(d[i].0, d[i].1),
            ),
    decreases d.len(),
{
    if d.len() > 0 {
        let ls1 = render_key(ls, d[0].0, d[0].1);
        let rest = d.drop_first();
        assert forall|i: int| 0 <= i < rest.len() implies valid_key(#[trigger] rest[i].0) by {
            assert(rest[i] == d[i + 1]);
        }
        assert forall|i: int, j: int|
            0 <= i < rest.len() && 0 <= j < rest.len() && i != j implies !eq_ignore_case(
            #[trigger] rest[i].0,
            #[trigger] rest[j].0,
        ) by {
            assert(rest[i] == d[i + 1]);
            assert(rest[j] == d[j + 1]);
        }
        lemma_render_all_settles(ls1, rest);
        lemma_render_key_settles(ls, d[0].0, d[0].1);
        assert forall|i: int| 0 <= i < rest.len() implies !eq_ignore_case(
            #[trigger] rest[i].0,
            d[0].0,
        ) by {
            assert(rest[i] == d[i + 1]);
        }
        lemma_render_all_keeps(ls1, rest, d[0].0, target_line(d[0].0, d[0].1));
        assert forall|i: int| 0 <= i < d.len() implies settled(
            render_all(ls, d),
            #[trigger] d[i].0,
            target_line(d[i].0, d[i].1),
        ) by {
            if i > 0 {
                assert(rest[i - 1] == d[i]);
            }
        }
    }
}

proof fn lemma_render_all_identity(ls: Seq<Seq<char>>, d: Seq<(Seq<char>, Seq<char>)>)
    requires
        forall|i: int|
            0 <= i < d.len() ==> settled(ls, #[trigger] d[i].0, target_line(d[i].0, d[i].1)),
    ensures
        render_all(ls, d) == ls,
    decreases d.len(),
{
    if d.len() > 0 {
        lemma_render_key_identity(ls, d[0].0, d[0].1);
        let rest = d.drop_first();
        assert forall|i: int| 0 <= i < rest.len() implies settled(
            ls,
            #[trigger] rest[i].0,
            target_line(rest[i].0, rest[i].1),
        ) by {
            assert(rest[i] == d[i + 1]);
        }
        lemma_render_all_identity(ls, rest);
    }
}

/// `line` is an active directive for none of the keys of `d`.
pub open spec fn unmanaged(line: Seq<char>, d: Seq<(Seq<char>, Seq<char>)>) -> bool {
    forall|j: int| 0 <= j < d.len() ==> !is_active(line, #[trigger] d[j].0)
}

/// The directive lines `d` asks for.
pub open spec fn is_target_of(line: Seq<char>, d: Seq<(Seq<char>, Seq<char>)>) -> bool {
    exists|j: int| 0 <= j < d.len() && line == target_line(#[trigger] d[j].0, d[j].1)
}

/// Law: rendering keeps every other line where it was. Each line active for
/// none of the keys stays as it is, in place; a line active for a key
/// becomes that key's directive line or is commented out in place; and
/// whatever follows the input lines is an appended directive line.
pub proof fn law_render_keeps_other_lines(ls: Seq<Seq<char>>, d: Seq<(Seq<char>, Seq<char>)>)
    requires
        valid_directives(d),
    ensures
        render_all(ls, d).len() >= ls.len(),
        forall|i: int| 0 <= i < ls.len() && unmanaged(ls[i], d) ==> #[trigger] render_all(ls, d)[i] == ls[i],
        forall|i: int, j: int|
            0 <= i < ls.len() && 0 <= j < d.len() && #[trigger] is_active(ls[i], d[j].0) ==> (
            #[trigger] render_all(ls, d)[i] == target_line(d[j].0, d[j].1) || render_all(ls, d)[i]
                == superseded(ls[i])),
        forall|i: int| ls.len() <= i < render_all(ls, d).len() ==> is_target_of(#[trigger] render_all(ls, d)[i], d),
{
    lemma_render_all_positions(ls, d);
}

proof fn lemma_render_all_positions(ls: Seq<Seq<char>>, d: Seq<(Seq<char>, Seq<char>)>)
    requires
        forall|i: int| 0 <= i < d.len() ==> valid_key(#[trigger] d[i].0),
        forall|i: int, j: int|
            0 <= i < d.len() && 0 <= j < d.len() && i != j ==> !eq_ignore_case(
                #[trigger] d[i].0,
                #[trigger] d[j].0,
            ),
    ensures
        render_all(ls, d).len() >= ls.len(),
        forall|i: int| 0 <= i < ls.len() && unmanaged(ls[i], d) ==> #[trigger] render_all(ls, d)[i] == ls[i],
        forall|i: int, j: int|
            0 <= i < ls.len() && 0 <= j < d.len() && #[trigger] is_active(ls[i], d[j].0) ==> (
            #[trigger] render_all(ls, d)[i] == target_line(d[j].0, d[j].1) || render_all(ls, d)[i]
                == superseded(ls[i])),
        forall|i: int| ls.len() <= i < render_all(ls, d).len() ==> is_target_of(#[trigger] render_all(ls, d)[i], d),
    decreases d.len(),
{
    if d.len() > 0 {
        let k = d[0].0;
        let v = d[0].1;
        let ls1 = render_key(ls, k, v);
        let rest = d.drop_first();
        let r = render_all(ls, d);
        assert(r == render_all(ls1, rest));
        assert forall|i: int| 0 <= i < rest.len() implies valid_key(#[trigger] rest[i].0) by {
            assert(rest[i] == d[i + 1]);
        }
        assert forall|i: int, j: int|
            0 <= i < rest.len() && 0 <= j < rest.len() && i != j implies !eq_ignore_case(
            #[trigger] rest[i].0,
            #[trigger] rest[j].0,
        ) by {
            assert(rest[i] == d[i + 1]);
            assert(rest[j] == d[j + 1]);
        }
        lemma_render_all_positions(ls1, rest);
        // The lines the first key leaves behind are no longer active for any later key.
        assert forall|j: int| 0 <= j < rest.len() implies !is_active(target_line(k, v), #[trigger] rest[j].0) by {
            assert(rest[j] == d[j + 1]);
            lemma_target_active(k, v, rest[j].0);
        }
        assert(unmanaged(target_line(k, v), rest));
        assert forall|l: Seq<char>| unmanaged(#[trigger] superseded(l), rest) by {
            assert forall|j: int| 0 <= j < rest.len() implies !is_active(superseded(l), #[trigger] rest[j].0) by {
                lemma_superseded_inactive(l, rest[j].0);
            }
        }
        let exists_active = exists|i: int| 0 <= i < ls.len() && #[trigger] is_active(ls[i], k);
        assert(ls1.len() >= ls.len());
        assert forall|i: int| 0 <= i < ls.len() && !is_active(ls[i], k) implies #[trigger] ls1[i] == ls[i] by {}
        assert forall|i: int| 0 <= i < ls.len() && is_active(ls[i], k) implies #[trigger] ls1[i] == target_line(k, v)
            || ls1[i] == superseded(ls[i]) by {}
        assert forall|i: int| 0 <= i < ls.len() && unmanaged(ls[i], d) implies #[trigger] r[i] == ls[i] by {
            assert(!is_active(ls[i], d[0].0));
            assert(ls1[i] == ls[i]);
            assert forall|j: int| 0 <= j < rest.len() implies !is_active(ls1[i], #[trigger] rest[j].0) by {
                assert(rest[j] == d[j + 1]);
                assert(!is_active(ls[i], d[j + 1].0));
            }
        }
        assert forall|i: int, j: int|
            0 <= i < ls.len() && 0 <= j < d.len() && #[trigger] is_active(ls[i], d[j].0) implies (
            #[trigger] r[i] == target_line(d[j].0, d[j].1) || r[i] == superseded(ls[i])) by {
            if j == 0 {
                assert(ls1[i] == target_line(k, v) || ls1[i] == superseded(ls[i]));
                if ls1[i] == target_line(k, v) {
                    assert(unmanaged(ls1[i], rest));
                } else {
                    assert(unmanaged(superseded(ls[i]), rest));
                }
            } else {
                if is_active(ls[i], k) {
                    lemma_active_keys_agree(ls[i], k, d[j].0);
                    assert(false);
                }
                assert(ls1[i] == ls[i]);
                assert(rest[j - 1] == d[j]);
                assert(is_active(ls1[i], rest[j - 1].0));
            }
        }
        assert forall|i: int| ls.len() <= i < r.len() implies is_target_of(#[trigger] r[i], d) by {
            if i < ls1.len() {
                assert(!exists_active);
                assert(ls1[i] == target_line(k, v));
                assert(unmanaged(ls1[i], rest));
                assert(r[i] == ls1[i]);
                assert(r[i] == target_line(d[0].0, d[0].1));
            } else {
                assert(is_target_of(r[i], rest));
                let j = choose|j: int| 0 <= j < rest.len() && r[i] == target_line(#[trigger] rest[j].0, rest[j].1);
                assert(rest[j] == d[j + 1]);
                assert(r[i] == target_line(d[j + 1].0, d[j + 1].1));
            }
        }
    }
}

/// Law: rendering the directives into a rendered line list changes nothing.
pub proof fn law_render_lines_idempotent(ls: Seq<Seq<char>>, d: Seq<(Seq<char>, Seq<char>)>)
    requires
        valid_directives(d),
    ensures
        render_all(render_all(ls, d), d) == render_all(ls, d),
{
    lemma_render_all_settles(ls, d);
    lemma_render_all_identity(render_all(ls, d), d);
}

} // verus!

verus! {


proof fn lemma_join_last(ls: Seq<Seq<char>>, sep: Seq<char>)
    requires
        ls.len() > 0,
        ls.last().len() > 0,
    ensures
        join(ls, sep).len() > 0,
        join(ls, sep).last() == ls.last().last(),
{
}

proof fn lemma_find_no_nl(s: Seq<char>, rest: Seq<char>)
    requires
        no_nl(s),
    ensures
        find_char(s + seq!['\n'] + rest, '\n') == s.len(),
        (s + seq!['\n'] + rest).take(s.len() as int) == s,
        (s + seq!['\n'] + rest).skip(s.len() as int + 1) == rest,
{
    let x = s + seq!['\n'] + rest;
    assert forall|j: int| 0 <= j < s.len() implies #[trigger] x[j] != '\n' by {
        assert(x[j] == s[j]);
    }
    crate::text::lemma_find_char(x, '\n', s.len() as int);
    assert(x.take(s.len() as int) =~= s);
    assert(x.skip(s.len() as int + 1) =~= rest);
}

/// Splitting lines joined with `\n`, plus a final `\n`, gives them back,
/// less a final carriage return each.
proof fn lemma_lines_of_terminated(ls: Seq<Seq<char>>)
    requires
        ls.len() > 0,
        nl_free(ls),
    ensures
        lines(join(ls, seq!['\n']).push('\n')) == resplit(ls, true),
{
    crate::text::lemma_lines_of_joined_lines(ls);
    assert(resplit(ls, true) =~= ls.map_values(|l: Seq<char>| strip_cr(l)));
}

/// Splitting lines joined with `\n` gives them back when the last is not
/// empty, all but the last less a final carriage return.
proof fn lemma_lines_of_joined(ls: Seq<Seq<char>>)
    requires
        ls.len() > 0,
        nl_free(ls),
        ls.last().len() > 0,
    ensures
        lines(join(ls, seq!['\n'])) == resplit(ls, false),
    decreases ls.len(),
{
    let nl = seq!['\n'];
    assert(no_nl(ls[0]));
    if ls.len() == 1 {
        let s = ls[0];
        crate::text::lemma_find_char(s, '\n', s.len() as int);
        assert(lines(s) =~= resplit(ls, false));
    } else {
        lemma_join_front(ls, nl);
        let rest = ls.drop_first();
        assert forall|i: int| 0 <= i < rest.len() implies no_nl(#[trigger] rest[i]) by {
            assert(rest[i] == ls[i + 1]);
        }
        lemma_lines_of_joined(rest);
        let tail = join(rest, nl);
        lemma_join_last(rest, nl);
        let s = join(ls, nl);
        assert(s =~= ls[0] + nl + tail);
        lemma_find_no_nl(ls[0], tail);
        assert(lines(s) == seq![strip_cr(ls[0])] + resplit(rest, false));
        assert(lines(s) =~= resplit(ls, false));
    }
}

/// A final carriage return does not change whether a line is an active
/// directive.
proof fn lemma_strip_cr_active(l: Seq<char>, k: Seq<char>)
    ensures
        is_active(strip_cr(l), k) == is_active(l, k),
{
    if l.len() > 0 && l.last() == '\r' {
        let s = l.drop_last();
        assert(l =~= s.push('\r'));
        crate::text::lemma_first_field_push_ws(s, '\r');
    }
}

/// Re-splitting keeps a settled directive settled when its line does not end
/// with a carriage return.
proof fn lemma_settled_resplit(ls: Seq<Seq<char>>, k: Seq<char>, t: Seq<char>, terminated: bool)
    requires
        settled(ls, k, t),
        no_cr_end(t),
    ensures
        settled(resplit(ls, terminated), k, t),
{
    let r = resplit(ls, terminated);
    assert forall|i: int| 0 <= i < ls.len() implies (#[trigger] is_active(r[i], k) == is_active(
        ls[i],
        k,
    )) && (is_active(ls[i], k) ==> r[i] == ls[i]) by {
        lemma_strip_cr_active(ls[i], k);
    }
    let w = choose|i: int| 0 <= i < ls.len() && #[trigger] is_active(ls[i], k);
    assert(is_active(r[w], k));
}

/// A text that is not empty and does not end with `\n` ends in a non-empty line.
proof fn lemma_lines_last(s: Seq<char>)
    requires
        s.len() > 0,
        s.last() != '\n',
    ensures
        lines(s).len() > 0,
        lines(s).last().len() > 0,
    decreases s.len(),
{
    let p = find_char(s, '\n');
    crate::text::lemma_find_char_props(s, '\n');
    if p < s.len() {
        let rest = s.skip(p as int + 1);
        assert(rest.last() == s.last());
        lemma_lines_last(rest);
    }
}

proof fn lemma_render_key_shape(ls: Seq<Seq<char>>, k: Seq<char>, v: Seq<char>)
    requires
        valid_key(k),
        line_ok(v),
        nl_free(ls),
    ensures
        nl_free(render_key(ls, k, v)),
        render_key(ls, k, v).len() > 0,
        ls.len() == 0 || ls.last().len() > 0 ==> render_key(ls, k, v).last().len() > 0,
{
    reveal_strlit("# ");
    reveal_strlit("  # superseded by vpsguard");
    let t = target_line(k, v);
    let r = render_key(ls, k, v);
    assert(line_ok(t)) by {
        assert forall|i: int| 0 <= i < t.len() implies #[trigger] t[i] != '\n' by {
            if i < k.len() {
                assert(t[i] == k[i]);
                assert(!is_ws(k[i]));
            } else if i > k.len() {
                assert(t[i] == v[i - k.len() - 1]);
            }
        }
        if v.len() > 0 {
            assert(t.last() == v.last());
        }
    }
    assert forall|l: Seq<char>| no_nl(l) implies no_nl(#[trigger] superseded(l)) by {
        let s = superseded(l);
        assert forall|i: int| 0 <= i < s.len() implies #[trigger] s[i] != '\n' by {
            if 2 <= i < 2 + l.len() {
                assert(s[i] == l[i - 2]);
            }
        }
    }
    assert forall|i: int| 0 <= i < r.len() implies no_nl(#[trigger] r[i]) by {
        if i < ls.len() {
            assert(no_nl(ls[i]));
        }
    }
}

proof fn lemma_render_all_shape(ls: Seq<Seq<char>>, d: Seq<(Seq<char>, Seq<char>)>)
    requires
        forall|i: int| 0 <= i < d.len() ==> valid_key(#[trigger] d[i].0) && line_ok(d[i].1),
        nl_free(ls),
    ensures
        nl_free(render_all(ls, d)),
        d.len() > 0 ==> render_all(ls, d).len() > 0,
        ls.len() > 0 ==> render_all(ls, d).len() > 0,
        ls.len() == 0 || ls.last().len() > 0 ==> (d.len() > 0 || ls.len() > 0 ==> render_all(
            ls,
            d,
        ).last().len() > 0),
    decreases d.len(),
{
    if d.len() > 0 {
        lemma_render_key_shape(ls, d[0].0, d[0].1);
        let rest = d.drop_first();
        assert forall|i: int| 0 <= i < rest.len() implies valid_key(#[trigger] rest[i].0)
            && line_ok(rest[i].1) by {
            assert(rest[i] == d[i + 1]);
        }
        lemma_render_all_shape(render_key(ls, d[0].0, d[0].1), rest);
    }
}

/// Law: reading the rendered file back. It ends with a line break exactly
/// when the input did or was empty. Its lines are the rendered lines, each
/// that a line break follows less a final carriage return; the one
/// exception is an empty file rendered with no directives, which becomes a
/// lone line break and so reads back as one empty line.
pub proof fn law_render_reads_back(content: Seq<char>, d: Seq<(Seq<char>, Seq<char>)>)
    requires
        valid_directives(d),
    ensures
        d.len() > 0 || content.len() > 0 ==> lines(spec_render(content, d)) == resplit(
            render_all(lines(content), d),
            render_terminated(content),
        ),
        d.len() == 0 && content.len() == 0 ==> spec_render(content, d) == seq!['\n'],
        render_terminated(spec_render(content, d)) == render_terminated(content),
{
    let l0 = lines(content);
    lemma_lines_no_nl(content);
    assert(nl_free(l0));
    let nl = seq!['\n'];
    let t1 = render_terminated(content);
    if !t1 {
        assert(content.skip(content.len() - 1) =~= seq![content.last()]);
        lemma_lines_last(content);
    }
    lemma_render_all_shape(l0, d);
    let l1 = render_all(l0, d);
    let out1 = spec_render(content, d);
    if content.len() > 0 {
        assert(l0.len() > 0);
    }
    if t1 {
        if l1.len() > 0 {
            lemma_lines_of_terminated(l1);
        } else {
            assert(out1 =~= seq!['\n']);
        }
        assert(out1.skip(out1.len() - 1) =~= nl);
        assert(has_suffix(out1, nl));
    } else {
        lemma_lines_of_joined(l1);
        lemma_join_last(l1, nl);
        let lastl = l1.last();
        assert(no_nl(lastl));
        assert(lastl[lastl.len() - 1] != '\n');
        if has_suffix(out1, nl) {
            assert(out1.skip(out1.len() - 1)[0] == out1.last());
        }
        assert(!has_suffix(out1, nl));
        assert(out1.len() > 0);
    }
}

/// Law: `render` is idempotent. Rendering an already rendered file gives it
/// back unchanged, for any directive list with distinct valid keywords and
/// any file of which the render keeps no line ending in a carriage return
/// before a line break (reading such a line back drops its carriage return).
pub proof fn law_render_idempotent(content: Seq<char>, d: Seq<(Seq<char>, Seq<char>)>)
    requires
        valid_directives(d),
        rendered_lines_keep(content, d),
    ensures
        spec_render(spec_render(content, d), d) == spec_render(content, d),
{
    let l1 = render_all(lines(content), d);
    let t1 = render_terminated(content);
    law_render_reads_back(content, d);
    law_render_lines_idempotent(lines(content), d);
    if d.len() == 0 && content.len() == 0 {
        let nl = seq!['\n'];
        crate::text::lemma_find_char(nl, '\n', 0);
        assert(nl.skip(1) =~= Seq::<char>::empty());
        assert(nl.take(0) =~= Seq::<char>::empty());
        assert(find_char(nl, '\n') == 0);
        assert(lines(Seq::<char>::empty()) =~= Seq::<Seq<char>>::empty());
        assert(strip_cr(nl.take(0)) =~= Seq::<char>::empty());
        assert(lines(nl) == seq![strip_cr(nl.take(0))] + lines(nl.skip(1)));
        assert(lines(nl) =~= seq![Seq::<char>::empty()]);
        assert(render_all(lines(nl), d) == lines(nl));
        assert(nl.skip(0) =~= nl);
        assert(spec_render(nl, d) =~= nl);
        return;
    }
    assert(resplit(l1, t1) =~= l1) by {
        assert forall|i: int| 0 <= i < l1.len() implies #[trigger] resplit(l1, t1)[i] == l1[i] by {
            if i + 1 < l1.len() || t1 {
                assert(no_cr_end(l1[i]));
            }
        }
    }
}

} // verus!

verus! {

/// A directive value without whitespace.
pub open spec fn plain_value(v: Seq<char>) -> bool {
    v.len() > 0 && forall|i: int| 0 <= i < v.len() ==> !is_ws(#[trigger] v[i])
}

proof fn lemma_decimal_plain(n: nat)
    ensures
        plain_value(decimal(n)),
        forall|i: int| 0 <= i < decimal(n).len() ==> '0' <= #[trigger] decimal(n)[i] <= '9',
    decreases n,
{
    if n >= 10 {
        lemma_decimal_plain(n / 10);
    }
}

proof fn lemma_plain_line_ok(v: Seq<char>)
    requires
        plain_value(v),
    ensures
        line_ok(v),
{
    assert forall|i: int| 0 <= i < v.len() implies #[trigger] v[i] != '\n' by {
        assert(!is_ws(v[i]));
    }
    assert(!is_ws(v.last()));
}

/// Every value of the managed directive set is plain, and the set is a
/// valid directive list.
pub proof fn lemma_desired_valid(cfg: SshConfig)
    ensures
        valid_directives(spec_desired(cfg)),
        forall|i: int|
            0 <= i < spec_desired(cfg).len() ==> plain_value(#[trigger] spec_desired(cfg)[i].1),
{
    reveal_strlit("Port");
    reveal_strlit("PermitRootLogin");
    reveal_strlit("PasswordAuthentication");
    reveal_strlit("Ciphers");
    reveal_strlit("KexAlgorithms");
    reveal_strlit("MACs");
    reveal_strlit("yes");
    reveal_strlit("no");
    reveal_strlit("chacha20-poly1305@openssh.com,aes256-gcm@openssh.com,aes128-gcm@openssh.com");
    reveal_strlit("curve25519-sha256,curve25519-sha256@libssh.org,diffie-hellman-group16-sha512");
    reveal_strlit("hmac-sha2-512-etm@openssh.com,hmac-sha2-256-etm@openssh.com,umac-128-etm@openssh.com");
    lemma_decimal_plain(cfg.port as nat);
    let d = spec_desired(cfg);
    assert forall|i: int| 0 <= i < d.len() implies plain_value(#[trigger] d[i].1) by {}
    assert forall|i: int| 0 <= i < d.len() implies valid_key(#[trigger] d[i].0) && line_ok(d[i].1) by {
        lemma_plain_line_ok(d[i].1);
    }
    assert forall|i: int, j: int|
        0 <= i < d.len() && 0 <= j < d.len() && i != j implies !eq_ignore_case(
        #[trigger] d[i].0,
        #[trigger] d[j].0,
    ) by {
        if d[i].0.len() == d[j].0.len() {
            assert(crate::text::lower(d[i].0[0]) != crate::text::lower(d[j].0[0]));
        }
    }
}

proof fn lemma_target_value(k: Seq<char>, v: Seq<char>)
    requires
        valid_key(k),
        plain_value(v),
    ensures
        spec_directive_value(target_line(k, v)) == v,
{
    let t = target_line(k, v);
    lemma_target_shape(k, v);
    assert(t.last() == v.last());
    crate::text::lemma_trail_ws(t, 0);
    assert(t.take(t.len() - 0) =~= t);
    assert(trim(t) == t);
    assert(t.skip(k.len() as int + 1) =~= v);
    lemma_lead_ws(v, 0);
    assert(v.skip(0) =~= v);
    crate::text::lemma_trail_ws(v, 0);
    assert(v.take(v.len() - 0) =~= v);
}

proof fn lemma_settled_first_value(ls: Seq<Seq<char>>, k: Seq<char>, t: Seq<char>)
    requires
        settled(ls, k, t),
    ensures
        first_active_value(ls, k) == Some(spec_directive_value(t)),
    decreases ls.len(),
{
    if !is_active(ls[0], k) {
        let rest = ls.drop_first();
        let w = choose|i: int| 0 <= i < ls.len() && #[trigger] is_active(ls[i], k);
        assert(rest[w - 1] == ls[w]);
        assert forall|i: int, j: int|
            0 <= i < rest.len() && 0 <= j < rest.len() && #[trigger] is_active(rest[i], k)
                && #[trigger] is_active(rest[j], k) implies i == j by {
            assert(rest[i] == ls[i + 1]);
            assert(rest[j] == ls[j + 1]);
        }
        assert forall|i: int| 0 <= i < rest.len() && #[trigger] is_active(rest[i], k) implies rest[i]
            == t by {
            assert(rest[i] == ls[i + 1]);
        }
        lemma_settled_first_value(rest, k, t);
    }
}

proof fn lemma_diff_settled(ls: Seq<Seq<char>>, d: Seq<(Seq<char>, Seq<char>)>)
    requires
        forall|i: int|
            0 <= i < d.len() ==> valid_key(#[trigger] d[i].0) && plain_value(d[i].1) && settled(
                ls,
                d[i].0,
                target_line(d[i].0, d[i].1),
            ),
    ensures
        spec_diff(ls, d).len() == 0,
    decreases d.len(),
{
    if d.len() > 0 {
        let n = d.len() - 1;
        assert(d.last() == d[n]);
        lemma_target_value(d[n].0, d[n].1);
        lemma_settled_first_value(ls, d[n].0, target_line(d[n].0, d[n].1));
        let dl = d.drop_last();
        assert forall|i: int| 0 <= i < dl.len() implies valid_key(#[trigger] dl[i].0) && plain_value(
            dl[i].1,
        ) && settled(ls, dl[i].0, target_line(dl[i].0, dl[i].1)) by {
            assert(dl[i] == d[i]);
        }
        lemma_diff_settled(ls, dl);
    }
}

/// Law: after a render, each managed key has exactly one active directive
/// line in the file (keywords compared ignoring ASCII case), and it reads
/// `key value`.
pub proof fn law_render_settles_each_key(content: Seq<char>, d: Seq<(Seq<char>, Seq<char>)>)
    requires
        valid_directives(d),
    ensures
        forall|i: int|
            0 <= i < d.len() ==> settled(
                lines(spec_render(content, d)),
                #[trigger] d[i].0,
                target_line(d[i].0, d[i].1),
            ),
{
    if d.len() > 0 {
        let l1 = render_all(lines(content), d);
        let t1 = render_terminated(content);
        law_render_reads_back(content, d);
        lemma_render_all_settles(lines(content), d);
        let l2 = resplit(l1, t1);
        assert(lines(spec_render(content, d)) == l2);
        assert forall|i: int| 0 <= i < d.len() implies settled(
            l2,
            #[trigger] d[i].0,
            target_line(d[i].0, d[i].1),
        ) by {
            let t = target_line(d[i].0, d[i].1);
            assert(line_ok(d[i].1));
            if d[i].1.len() > 0 {
                assert(t.last() == d[i].1.last());
            }
            lemma_settled_resplit(l1, d[i].0, t, t1);
        }
    }
}

/// Law: after a render, each managed directive reads back as configured:
/// `Port` is the configured port, `PermitRootLogin` and
/// `PasswordAuthentication` are `yes` exactly when the configuration allows
/// them, and with modern ciphers the three algorithm lists are the
/// vpsguard ones. This holds whatever the file held before.
pub proof fn law_render_sets_configured_values(content: Seq<char>, cfg: SshConfig)
    ensures
        ({
            let ls = lines(spec_render(content, spec_desired(cfg)));
            &&& first_active_value(ls, "Port"@) == Some(decimal(cfg.port as nat))
            &&& first_active_value(ls, "PermitRootLogin"@) == Some(
                if cfg.permit_root_login {
                    "yes"@
                } else {
                    "no"@
                },
            )
            &&& first_active_value(ls, "PasswordAuthentication"@) == Some(
                if cfg.password_auth {
                    "yes"@
                } else {
                    "no"@
                },
            )
            &&& cfg.modern_ciphers ==> first_active_value(ls, "Ciphers"@) == Some(CIPHERS@)
                && first_active_value(ls, "KexAlgorithms"@) == Some(KEX_ALGORITHMS@)
                && first_active_value(ls, "MACs"@) == Some(MACS@)
        }),
{
    let d = spec_desired(cfg);
    let ls = lines(spec_render(content, d));
    lemma_desired_valid(cfg);
    law_render_settles_each_key(content, d);
    assert forall|i: int| 0 <= i < d.len() implies first_active_value(ls, #[trigger] d[i].0) == Some(d[i].1) by {
        lemma_target_value(d[i].0, d[i].1);
        lemma_settled_first_value(ls, d[i].0, target_line(d[i].0, d[i].1));
    }
    assert(d[0].0 == "Port"@);
    assert(d[1].0 == "PermitRootLogin"@);
    assert(d[2].0 == "PasswordAuthentication"@);
    if cfg.modern_ciphers {
        assert(d[3].0 == "Ciphers"@);
        assert(d[4].0 == "KexAlgorithms"@);
        assert(d[5].0 == "MACs"@);
    }
}

/// Law: applying converges. Once `render` has written the managed
/// directives, the file shows no drift for them.
pub proof fn law_render_converges(content: Seq<char>, cfg: SshConfig)
    ensures
        spec_diff(lines(spec_render(content, spec_desired(cfg))), spec_desired(cfg)).len() == 0,
{
    let d = spec_desired(cfg);
    lemma_desired_valid(cfg);
    law_render_settles_each_key(content, d);
    lemma_diff_settled(lines(spec_render(content, d)), d);
}

} // verus!

verus! {

// ---------------------------------------------------------------------------
// Module operations
// ---------------------------------------------------------------------------

/// The summaries of a change list.
pub open spec fn summaries(cs: Seq<ChangeV>) -> Seq<Seq<char>> {
    cs.map_values(|c: ChangeV| c.summary)
}

/// The systemd unit of the SSH daemon on `family`.
pub open spec fn ssh_unit(family: DistroFamily) -> Seq<char> {
    if family == DistroFamily::Debian {
        "ssh"@
    } else {
        "sshd"@
    }
}

/// Compliance of the live `sshd_config` (`None` when it does not exist).
pub open spec fn spec_check(cfg: SshConfig, content: Option<Seq<char>>) -> StatusV {
    match content {
        None => StatusV {
            state: crate::types::State::NotApplicable,
            detail: "sshd_config not found (sshd not installed?)"@,
        },
        Some(c) => drift_status(summaries(spec_diff(lines(c), spec_desired(cfg)))),
    }
}

/// The snapshot path.
pub open spec fn backup_path() -> Seq<char> {
    spec_with_suffix(SSHD_CONFIG@, BACKUP_SUFFIX@)
}

/// The staged path.
pub open spec fn staged_path() -> Seq<char> {
    spec_with_suffix(SSHD_CONFIG@, STAGED_SUFFIX@)
}

/// What `apply` does: snapshot the live file, stage the rendered file,
/// validate it with `sshd -t`, swap it in and restart the daemon. Nothing is
/// done when there is no drift or on a dry run.
pub open spec fn spec_apply(
    cfg: SshConfig,
    content: Option<Seq<char>>,
    dry_run: bool,
    family: DistroFamily,
    root: Seq<char>,
) -> Result<PlanV, ErrorV> {
    match content {
        None => Err(ErrorV::Module { module: "ssh"@, message: "sshd_config not found; nothing to harden"@ }),
        Some(c) => {
            let changes = spec_diff(lines(c), spec_desired(cfg));
            if changes.len() == 0 {
                Ok(PlanV { steps: Seq::empty(), report: empty_report("ssh"@, dry_run) })
            } else if dry_run {
                Ok(
                    PlanV {
                        steps: Seq::empty(),
                        report: ReportV {
                            module: "ssh"@,
                            applied: Seq::empty(),
                            skipped: changes,
                            dry_run,
                        },
                    },
                )
            } else {
                let unit = ssh_unit(family);
                Ok(
                    PlanV {
                        steps: seq![
                            StepV::Write { path: backup_path(), body: c },
                            StepV::Write { path: staged_path(), body: spec_render(c, spec_desired(cfg)) },
                            StepV::Validate {
                                command: "sshd"@,
                                args: seq!["-t"@, "-f"@, spec_resolve(root, staged_path())],
                                staged: staged_path(),
                                reason: "candidate sshd_config rejected by `sshd -t`"@,
                            },
                            StepV::Rename { from: staged_path(), to: SSHD_CONFIG@ },
                            StepV::RunChecked { command: "systemctl"@, args: seq!["restart"@, unit] },
                        ],
                        report: ReportV {
                            module: "ssh"@,
                            applied: changes.push(command_change("systemctl restart "@ + unit)),
                            skipped: Seq::empty(),
                            dry_run,
                        },
                    },
                )
            }
        },
    }
}

/// What `rollback` does: restore the snapshot, restart the daemon, drop the
/// snapshot.
pub open spec fn spec_rollback(saved: Option<Seq<char>>, family: DistroFamily) -> Result<Seq<StepV>, ErrorV> {
    match saved {
        None => Err(ErrorV::Module { module: "ssh"@, message: "no snapshot to roll back to"@ }),
        Some(s) => Ok(
            seq![
                StepV::Write { path: SSHD_CONFIG@, body: s },
                StepV::RunChecked { command: "systemctl"@, args: seq!["restart"@, ssh_unit(family)] },
                StepV::RemoveQuiet { path: backup_path() },
            ],
        ),
    }
}

fn summaries_of(cs: &Vec<Change>) -> (r: Vec<String>)
    ensures
        r.deep_view() == summaries(cs.deep_view()),
{
    let mut r: Vec<String> = Vec::new();
    let mut i: usize = 0;
    while i < cs.len()
        invariant
            i <= cs@.len(),
            r.deep_view() == summaries(cs.deep_view().take(i as int)),
        decreases cs@.len() - i,
    {
        let ghost before = r.deep_view();
        r.push(owned(cs[i].summary.as_str()));
        proof {
            assert(r.deep_view() =~= before.push(cs[i as int].summary@));
            assert(summaries(cs.deep_view().take(i + 1)) =~= summaries(cs.deep_view().take(i as int)).push(
                cs.deep_view()[i as int].summary,
            ));
        }
        i = i + 1;
    }
    assert(cs.deep_view().take(i as int) =~= cs.deep_view());
    r
}

impl SshModule {
    /// Inspect `sshd_config` and report compliance. Read-only.
    pub fn check(&self, cfg: &SshConfig, content: &Option<String>) -> (r: Status)
        ensures
            r.deep_view() == spec_check(*cfg, content.deep_view()),
    {
        match content {
            None => Status::not_applicable("sshd_config not found (sshd not installed?)"),
            Some(c) => {
                let changes = diff(c.as_str(), cfg);
                let drift = summaries_of(&changes);
                crate::types::drift_to_status(&drift)
            },
        }
    }

    /// The changes `apply` would make (an absent file reads as empty).
    pub fn plan(&self, cfg: &SshConfig, content: &str) -> (r: Vec<Change>)
        ensures
            r.deep_view() == spec_diff(lines(content@), spec_desired(*cfg)),
    {
        diff(content, cfg)
    }

    /// Decide how to converge the live `sshd_config` to `cfg`.
    pub fn apply(
        &self,
        cfg: &SshConfig,
        content: &Option<String>,
        dry_run: bool,
        platform: &Platform,
        root: &str,
    ) -> (r: Result<Plan, Error>)
        ensures
            match r {
                Ok(p) => spec_apply(*cfg, content.deep_view(), dry_run, platform.family, root@) == Ok::<
                    PlanV,
                    ErrorV,
                >(p.deep_view()),
                Err(e) => spec_apply(*cfg, content.deep_view(), dry_run, platform.family, root@)
                    == Err::<PlanV, ErrorV>(e.deep_view()),
            },
    {
        let c = match content {
            None => {
                return Err(
                    Error::Module {
                        module: owned("ssh"),
                        message: owned("sshd_config not found; nothing to harden"),
                    },
                );
            },
            Some(c) => c,
        };
        let changes = diff(c.as_str(), cfg);
        let mut report = Report::new("ssh", dry_run);
        let none: Vec<Step> = Vec::new();
        assert(none.deep_view() =~= Seq::<StepV>::empty());
        if changes.len() == 0 {
            return Ok(Plan { steps: none, report });
        }
        if dry_run {
            report.skipped = changes;
            return Ok(Plan { steps: none, report });
        }
        let desired = desired_directives(cfg);
        let rendered = render(c.as_str(), &desired);
        let backup = with_suffix(SSHD_CONFIG, BACKUP_SUFFIX);
        let staged = with_suffix(SSHD_CONFIG, STAGED_SUFFIX);
        let staged_abs = resolve(root, staged.as_str());
        let unit = platform.ssh_service();
        let mut steps: Vec<Step> = Vec::new();
        steps.push(write_file(backup.as_str(), c.as_str()));
        steps.push(write_file(staged.as_str(), rendered.as_str()));
        steps.push(
            Step::Validate {
                command: owned("sshd"),
                args: args3("-t", "-f", staged_abs.as_str()),
                staged: owned(staged.as_str()),
                reason: owned("candidate sshd_config rejected by `sshd -t`"),
            },
        );
        steps.push(Step::Rename { from: owned(staged.as_str()), to: owned(SSHD_CONFIG) });
        steps.push(run_checked("systemctl", args2("restart", unit)));
        let mut summary = owned("systemctl restart ");
        push_str(&mut summary, unit);
        let mut applied = changes;
        let ghost before = applied.deep_view();
        applied.push(Change::command(summary.as_str()));
        report.applied = applied;
        let p = Plan { steps, report };
        proof {
            assert(p.report.applied.deep_view() =~= before.push(command_change("systemctl restart "@ + ssh_unit(platform.family))));
            assert(p.steps.deep_view() =~= spec_apply(*cfg, content.deep_view(), dry_run, platform.family, root@)->Ok_0.steps);
        }
        Ok(p)
    }

    /// Decide how to restore the snapshot taken before the last apply.
    pub fn rollback(&self, saved: &Option<String>, platform: &Platform) -> (r: Result<Vec<Step>, Error>)
        ensures
            match r {
                Ok(s) => spec_rollback(saved.deep_view(), platform.family) == Ok::<Seq<StepV>, ErrorV>(s.deep_view()),
                Err(e) => spec_rollback(saved.deep_view(), platform.family) == Err::<Seq<StepV>, ErrorV>(e.deep_view()),
            },
    {
        match saved {
            None => Err(
                Error::Module { module: owned("ssh"), message: owned("no snapshot to roll back to") },
            ),
            Some(s) => {
                let backup = with_suffix(SSHD_CONFIG, BACKUP_SUFFIX);
                let mut steps: Vec<Step> = Vec::new();
                steps.push(write_file(SSHD_CONFIG, s.as_str()));
                steps.push(run_checked("systemctl", args2("restart", platform.ssh_service())));
                steps.push(remove_quiet(backup.as_str()));
                assert(steps.deep_view() =~= spec_rollback(saved.deep_view(), platform.family)->Ok_0);
                Ok(steps)
            },
        }
    }
}

/// Law: rollback undoes apply. When there is drift, apply first snapshots
/// `sshd_config` as it was; rollback from that snapshot writes it back over
/// `sshd_config`, restarts the daemon and drops the snapshot.
pub proof fn law_rollback_restores_snapshot(cfg: SshConfig, content: Seq<char>, family: DistroFamily, root: Seq<char>)
    requires
        spec_diff(lines(content), spec_desired(cfg)).len() > 0,
    ensures
        spec_apply(cfg, Some(content), false, family, root) matches Ok(p) && p.steps.len() > 0
            && p.steps[0] == (StepV::Write { path: backup_path(), body: content }),
        spec_rollback(Some(content), family) == Ok::<Seq<StepV>, ErrorV>(
            seq![
                StepV::Write { path: SSHD_CONFIG@, body: content },
                StepV::RunChecked { command: "systemctl"@, args: seq!["restart"@, ssh_unit(family)] },
                StepV::RemoveQuiet { path: backup_path() },
            ],
        ),
{
}

/// Law: sshd_config is only replaced after `sshd -t` accepted the
/// candidate. A real apply that changes the file stages the rendered text,
/// validates the staged file with `sshd -t`, and only then renames it over
/// sshd_config; no step writes sshd_config directly.
pub proof fn law_apply_validates_before_replacing(
    cfg: SshConfig,
    content: Seq<char>,
    family: DistroFamily,
    root: Seq<char>,
)
    requires
        spec_diff(lines(content), spec_desired(cfg)).len() > 0,
    ensures
        spec_apply(cfg, Some(content), false, family, root) matches Ok(p) && exists|i: int, j: int|
            #![trigger p.steps[i], p.steps[j]]
            0 <= i < j < p.steps.len() && (p.steps[i] matches StepV::Validate { command, staged, .. }
                && command == "sshd"@ && staged == staged_path()) && p.steps[j] == (StepV::Rename {
                from: staged_path(),
                to: SSHD_CONFIG@,
            }) && (forall|k: int| 0 <= k < i ==> #[trigger] p.steps[k] == (StepV::Write {
                path: staged_path(),
                body: spec_render(content, spec_desired(cfg)),
            }) || p.steps[k] == (StepV::Write { path: backup_path(), body: content })),
        spec_apply(cfg, Some(content), false, family, root) matches Ok(p) ==> forall|k: int|
            0 <= k < p.steps.len() ==> !(#[trigger] p.steps[k] matches StepV::Write { path, .. } && path
                == SSHD_CONFIG@),
{
    reveal_strlit(".vpsguard.bak");
    reveal_strlit(".vpsguard.new");
    let p = spec_apply(cfg, Some(content), false, family, root)->Ok_0;
    assert(p.steps[2] matches StepV::Validate { command, staged, .. } && command == "sshd"@ && staged
        == staged_path());
    assert(backup_path().len() != SSHD_CONFIG@.len());
    assert(staged_path().len() != SSHD_CONFIG@.len());
}

/// Law: rollback restores the file. Run an apply that changed sshd_config,
/// then the rollback of the snapshot it left: sshd_config holds what it held
/// before the apply, and the snapshot is gone.
pub proof fn law_apply_then_rollback_restores_file(
    cfg: SshConfig,
    files: Map<Seq<char>, Seq<char>>,
    family: DistroFamily,
    root: Seq<char>,
)
    requires
        files.dom().contains(SSHD_CONFIG@),
        spec_diff(lines(files[SSHD_CONFIG@]), spec_desired(cfg)).len() > 0,
    ensures
        ({
            let content = files[SSHD_CONFIG@];
            let applied = files_after(
                files,
                spec_apply(cfg, Some(content), false, family, root)->Ok_0.steps,
            );
            &&& spec_apply(cfg, Some(content), false, family, root) is Ok
            &&& applied[SSHD_CONFIG@] == spec_render(content, spec_desired(cfg))
            &&& applied.dom().contains(backup_path())
            &&& spec_rollback(Some(applied[backup_path()]), family) is Ok
            &&& files_after(applied, spec_rollback(Some(applied[backup_path()]), family)->Ok_0)[SSHD_CONFIG@]
                == content
            &&& !files_after(
                applied,
                spec_rollback(Some(applied[backup_path()]), family)->Ok_0,
            ).dom().contains(backup_path())
        }),
{
    reveal_strlit(".vpsguard.bak");
    reveal_strlit(".vpsguard.new");
    let s = SSHD_CONFIG@;
    let b = backup_path();
    let st = staged_path();
    assert(b.len() == s.len() + 13);
    let at: int = s.len() as int + 10;
    assert(b[at] != st[at]);
    assert(b != s && st != s && b != st);
    let content = files[s];
    let rendered = spec_render(content, spec_desired(cfg));
    let steps = spec_apply(cfg, Some(content), false, family, root)->Ok_0.steps;
    reveal_with_fuel(files_after, 6);
    let f1 = files.insert(b, content);
    let f2 = f1.insert(st, rendered);
    let f4 = f2.remove(st).insert(s, rendered);
    assert(files_after(files, steps) == f4);
    assert(f4[b] == content);
    let back = spec_rollback(Some(content), family)->Ok_0;
    let g = f4.insert(s, content).remove(b);
    assert(files_after(f4, back) == g);
}

/// Law: a dry run, or an apply with nothing to change, performs no step.
pub proof fn law_apply_dry_run_is_inert(
    cfg: SshConfig,
    content: Seq<char>,
    family: DistroFamily,
    root: Seq<char>,
)
    ensures
        spec_apply(cfg, Some(content), true, family, root) matches Ok(p) && p.steps.len() == 0
            && p.report.applied.len() == 0,
        spec_diff(lines(content), spec_desired(cfg)).len() == 0 ==> (spec_apply(
            cfg,
            Some(content),
            false,
            family,
            root,
        ) matches Ok(p) && p.steps.len() == 0 && p.report.applied.len() == 0),
{
}

} // verus!
