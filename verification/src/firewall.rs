//! nftables firewall: a dedicated `inet vpsguard` table, reprogrammed
//! atomically with `nft -f`.
//!
//! The configured input policy and allow rules are rendered to a script that
//! always permits loopback, established/related traffic and the SSH port (the
//! lockout guard). A hash of the configuration is stored as a rule comment, so
//! `check` can tell whether the live table is current. The script is validated
//! with `nft -c` before it is applied, and the previous table is snapshotted
//! for rollback.

use vstd::prelude::*;

use crate::action::{args2, args3, run, run_checked, remove_quiet, write_file, Plan, PlanV, Step, StepV};
use crate::common::{resolve, spec_resolve};
use crate::config::{FirewallConfig, Policy};
use crate::text::{
    chars_of, contains, decimal, decimal_string, find_chars, find_sub, find_char, join,
    join_strings, lex_order, lower, lower_char, owned, parse_u16, push_char, push_str,
    sort_strings, spec_parse_u16, str_contains, string_of, trim, trim_bounds, lemma_lex_total, occurs_at, str_eq,
};
use crate::types::{
    command_change, empty_report, Category, Change, ChangeV, Error, ErrorV, Report, ReportV, State,
    Status, StatusV, compliant_text,
};

verus! {

/// The nftables table that vpsguard owns.
pub const TABLE: &'static str = "vpsguard";

/// Where the candidate script is staged.
pub const STAGED: &'static str = "/etc/vpsguard/firewall.staged.nft";

/// Where the snapshot of the previous table is kept.
pub const BACKUP: &'static str = "/etc/vpsguard/firewall.backup.nft";

/// Transport protocol of an allow rule.
#[derive(Debug, Clone, Copy, PartialEq, Eq, Structural)]
pub enum Proto {
    Tcp,
    Udp,
}

/// The protocol's name as nftables writes it.
pub open spec fn proto_name(p: Proto) -> Seq<char> {
    match p {
        Proto::Tcp => "tcp"@,
        Proto::Udp => "udp"@,
    }
}

impl Proto {
    pub fn as_str(self) -> (r: &'static str)
        ensures
            r@ == proto_name(self),
    {
        match self {
            Proto::Tcp => "tcp",
            Proto::Udp => "udp",
        }
    }
}

/// A parsed allow rule, e.g. `80/tcp` or `22/tcp from 10.0.0.0/8`.
#[derive(Debug, Clone, PartialEq, Eq)]
pub struct AllowRule {
    pub proto: Proto,
    pub port: u16,
    pub from: Option<String>,
}

/// The mathematical value of an [`AllowRule`].
pub struct AllowRuleV {
    pub proto: Proto,
    pub port: u16,
    pub from: Option<Seq<char>>,
}

impl DeepView for AllowRule {
    type V = AllowRuleV;

    open spec fn deep_view(&self) -> AllowRuleV {
        AllowRuleV { proto: self.proto, port: self.port, from: self.from.deep_view() }
    }
}

/// The nft match of a rule: `[ip|ip6 saddr CIDR ]PROTO dport PORT accept`,
/// `ip6` when the source holds a `:`.
pub open spec fn spec_to_nft(r: AllowRuleV) -> Seq<char> {
    let source = match r.from {
        Some(cidr) => (if contains(cidr, seq![':']) {
            "ip6"@
        } else {
            "ip"@
        }) + " saddr "@ + cidr + " "@,
        None => Seq::empty(),
    };
    source + proto_name(r.proto) + " dport "@ + decimal(r.port as nat) + " accept"@
}

/// `allow PORT/PROTO[ from CIDR]`.
pub open spec fn spec_describe(r: AllowRuleV) -> Seq<char> {
    let base = "allow "@ + decimal(r.port as nat) + "/"@ + proto_name(r.proto);
    match r.from {
        Some(c) => base + " from "@ + c,
        None => base,
    }
}

impl AllowRule {
    pub fn to_nft(&self) -> (r: String)
        ensures
            r@ == spec_to_nft(self.deep_view()),
    {
        let mut s = String::new();
        match &self.from {
            Some(cidr) => {
                let colon = ":";
                proof {
                    reveal_strlit(":");
                    assert(colon@ =~= seq![':']);
                }
                if str_contains(cidr.as_str(), colon) {
                    push_str(&mut s, "ip6");
                } else {
                    push_str(&mut s, "ip");
                }
                push_str(&mut s, " saddr ");
                push_str(&mut s, cidr.as_str());
                push_str(&mut s, " ");
            },
            None => {},
        }
        push_str(&mut s, self.proto.as_str());
        push_str(&mut s, " dport ");
        let port = decimal_string(self.port as u64);
        push_str(&mut s, port.as_str());
        push_str(&mut s, " accept");
        proof {
            let src = match self.from.deep_view() {
                Some(cidr) => (if contains(cidr, seq![':']) {
                    "ip6"@
                } else {
                    "ip"@
                }) + " saddr "@ + cidr + " "@,
                None => Seq::empty(),
            };
            assert(s@ =~= src + proto_name(self.proto) + " dport "@ + decimal(self.port as nat)
                + " accept"@);
        }
        s
    }

    pub fn describe(&self) -> (r: String)
        ensures
            r@ == spec_describe(self.deep_view()),
    {
        let mut s = owned("allow ");
        let port = decimal_string(self.port as u64);
        push_str(&mut s, port.as_str());
        push_str(&mut s, "/");
        push_str(&mut s, self.proto.as_str());
        let ghost base = s@;
        match &self.from {
            Some(c) => {
                push_str(&mut s, " from ");
                push_str(&mut s, c.as_str());
            },
            None => {},
        }
        proof {
            assert(base =~= "allow "@ + decimal(self.port as nat) + "/"@ + proto_name(self.proto));
        }
        s
    }
}

// ---------------------------------------------------------------------------
// Parsing rules
// ---------------------------------------------------------------------------

/// The text between `firewall rule `` and the closing backtick.
pub open spec fn rule_error(raw: Seq<char>, tail: Seq<char>) -> ErrorV {
    ErrorV::Config("firewall rule `"@ + raw + tail)
}

/// `raw` split at its first ` from `: the trimmed spec, and the trimmed
/// source when there is one.
pub open spec fn split_source(raw: Seq<char>) -> (Seq<char>, Option<Seq<char>>) {
    let k = find_sub(raw, " from "@);
    if k < raw.len() {
        (trim(raw.take(k as int)), Some(trim(raw.skip(k + 6 as int))))
    } else {
        (trim(raw), None)
    }
}

/// The protocol named by `p` (already trimmed and lowercased).
pub open spec fn spec_proto(p: Seq<char>) -> Option<Proto> {
    if p == "tcp"@ {
        Some(Proto::Tcp)
    } else if p == "udp"@ {
        Some(Proto::Udp)
    } else {
        None
    }
}

/// `PORT/PROTO[ from CIDR]`, with surrounding whitespace ignored and the
/// protocol matched without regard to ASCII case.
pub open spec fn spec_parse_rule(raw: Seq<char>) -> Result<AllowRuleV, ErrorV> {
    let (spec, from) = split_source(raw);
    let slash = find_char(spec, '/');
    if slash >= spec.len() {
        Err(rule_error(raw, "` must be `port/proto`"@))
    } else {
        let port = spec_parse_u16(trim(spec.take(slash as int)));
        let proto_text = trim(spec.skip(slash + 1 as int)).map_values(|c: char| lower(c));
        match port {
            None => Err(rule_error(raw, "`: bad port"@)),
            Some(port) => match spec_proto(proto_text) {
                None => Err(rule_error(raw, "`: bad proto `"@ + proto_text + "`"@)),
                Some(proto) => Ok(AllowRuleV { proto, port, from }),
            },
        }
    }
}

/// Law: a rule parses exactly when its part before ` from ` holds a `/`, the
/// text before the first `/` trims to a port number that fits in 16 bits,
/// and the text after it trims to `tcp` or `udp` in any ASCII case; the
/// rule then carries that port and the source. Every refusal is a
/// configuration error.
pub proof fn law_parse_rule_ok_iff(raw: Seq<char>)
    ensures
        ({
            let spec = split_source(raw).0;
            let slash = find_char(spec, '/') as int;
            let proto_text = trim(spec.skip(slash + 1)).map_values(|c: char| lower(c));
            &&& (spec_parse_rule(raw) is Ok <==> (spec.contains('/') && spec_parse_u16(
                trim(spec.take(slash)),
            ) is Some && (proto_text == "tcp"@ || proto_text == "udp"@)))
            &&& (spec_parse_rule(raw) matches Ok(r) ==> Some(r.port) == spec_parse_u16(
                trim(spec.take(slash)),
            ) && r.from == split_source(raw).1)
            &&& (spec_parse_rule(raw) matches Err(e) ==> e is Config)
        }),
{
    let spec = split_source(raw).0;
    crate::text::lemma_find_char_props(spec, '/');
    let slash = find_char(spec, '/');
    if slash < spec.len() {
        assert(spec[slash as int] == '/');
    }
    if spec.contains('/') {
        let j = choose|j: int| 0 <= j < spec.len() && spec[j] == '/';
        assert(slash <= j);
    }
}

fn rule_err(raw: &str, tail: &str) -> (e: Error)
    ensures
        e.deep_view() == rule_error(raw@, tail@),
{
    let mut m = owned("firewall rule `");
    push_str(&mut m, raw);
    push_str(&mut m, tail);
    Error::Config(m)
}

/// ASCII-lowercased copy of `cs[lo..hi]`.
fn lowered(cs: &Vec<char>, lo: usize, hi: usize) -> (r: String)
    requires
        lo <= hi <= cs@.len(),
    ensures
        r@ == cs@.subrange(lo as int, hi as int).map_values(|c: char| lower(c)),
{
    let mut r = String::new();
    let mut i = lo;
    while i < hi
        invariant
            lo <= i <= hi <= cs@.len(),
            r@ == cs@.subrange(lo as int, i as int).map_values(|c: char| lower(c)),
        decreases hi - i,
    {
        let ghost before = r@;
        push_char(&mut r, lower_char(cs[i]));
        proof {
            assert(cs@.subrange(lo as int, i + 1).map_values(|c: char| lower(c)) =~= before.push(
                lower(cs@[i as int]),
            ));
        }
        i = i + 1;
    }
    r
}

/// Parses an allow rule.
pub fn parse_rule(raw: &str) -> (r: Result<AllowRule, Error>)
    ensures
        match r {
            Ok(rule) => spec_parse_rule(raw@) == Ok::<AllowRuleV, ErrorV>(rule.deep_view()),
            Err(e) => spec_parse_rule(raw@) == Err::<AllowRuleV, ErrorV>(e.deep_view()),
        },
{
    let cs = chars_of(raw);
    let sep = chars_of(" from ");
    proof {
        reveal_strlit(" from ");
    }
    let k = find_chars(&cs, &sep);
    proof {
        crate::text::lemma_find_sub_bound(cs@, sep@);
    }
    let (spec, from) = if k < cs.len() {
        let (lo, hi) = trim_bounds(&cs, 0, k);
        let (flo, fhi) = trim_bounds(&cs, k + 6, cs.len());
        proof {
            assert(cs@.subrange(0, k as int) =~= raw@.take(k as int));
            assert(cs@.subrange(k + 6, cs@.len() as int) =~= raw@.skip(k + 6));
        }
        (string_of(&cs, lo, hi), Some(string_of(&cs, flo, fhi)))
    } else {
        let (lo, hi) = trim_bounds(&cs, 0, cs.len());
        proof {
            assert(cs@.subrange(0, cs@.len() as int) =~= raw@);
        }
        (string_of(&cs, lo, hi), None)
    };
    assert(spec@ == split_source(raw@).0);
    assert(from.deep_view() == split_source(raw@).1);
    let sc = chars_of(spec.as_str());
    let mut slash: usize = 0;
    while slash < sc.len() && sc[slash] != '/'
        invariant
            sc@ == spec@,
            slash <= sc@.len(),
            forall|j: int| 0 <= j < slash ==> sc@[j] != '/',
        decreases sc@.len() - slash,
    {
        slash = slash + 1;
    }
    proof {
        crate::text::lemma_find_char(spec@, '/', slash as int);
    }
    if slash >= sc.len() {
        proof {
            reveal_strlit("` must be `port/proto`");
        }
        return Err(rule_err(raw, "` must be `port/proto`"));
    }
    let (plo, phi) = trim_bounds(&sc, 0, slash);
    let port_text = string_of(&sc, plo, phi);
    proof {
        assert(sc@.subrange(0, slash as int) =~= spec@.take(slash as int));
    }
    let port = parse_u16(port_text.as_str());
    let (qlo, qhi) = trim_bounds(&sc, slash + 1, sc.len());
    let proto_text = lowered(&sc, qlo, qhi);
    proof {
        assert(sc@.subrange(slash + 1, sc@.len() as int) =~= spec@.skip(slash + 1));
    }
    match port {
        None => {
            Err(rule_err(raw, "`: bad port"))
        },
        Some(port) => {
            if str_eq(proto_text.as_str(), "tcp") {
                Ok(AllowRule { proto: Proto::Tcp, port, from })
            } else if str_eq(proto_text.as_str(), "udp") {
                Ok(AllowRule { proto: Proto::Udp, port, from })
            } else {
                let mut tail = owned("`: bad proto `");
                push_str(&mut tail, proto_text.as_str());
                push_str(&mut tail, "`");
                Err(rule_err(raw, tail.as_str()))
            }
        },
    }
}

} // verus!

verus! {

// ---------------------------------------------------------------------------
// The configuration hash
// ---------------------------------------------------------------------------

/// FNV-1a 64-bit offset basis.
pub const FNV_OFFSET: u64 = 0xcbf2_9ce4_8422_2325;

/// FNV-1a 64-bit prime.
pub const FNV_PRIME: u64 = 0x0000_0100_0000_01b3;

/// FNV-1a over `bytes`.
pub open spec fn fnv1a(bytes: Seq<u8>) -> u64
    decreases bytes.len(),
{
    if bytes.len() == 0 {
        FNV_OFFSET
    } else {
        vstd::wrapping::u64_specs::wrapping_mul(
            fnv1a(bytes.drop_last()) ^ (bytes.last() as u64),
            FNV_PRIME,
        )
    }
}

/// The lowercase hexadecimal digit for `d < 16`.
pub open spec fn hex_digit(d: nat) -> char {
    if d < 10 {
        (('0' as u32) + d) as char
    } else {
        (('a' as u32) + (d - 10)) as char
    }
}

/// The low `n` hexadecimal digits of `v`, most significant first.
pub open spec fn hex_n(v: nat, n: nat) -> Seq<char>
    decreases n,
{
    if n == 0 {
        Seq::empty()
    } else {
        hex_n(v / 16, (n - 1) as nat).push(hex_digit(v % 16))
    }
}

/// `format!("{v:016x}")`.
pub open spec fn hex16(v: u64) -> Seq<char> {
    hex_n(v as nat, 16)
}

/// The canonical text the hash is taken over: the policy, the SSH port and
/// the rules' nft matches in sorted order, so rule order does not matter.
pub open spec fn canonical(policy: Seq<char>, ssh_port: u16, rules: Seq<AllowRuleV>) -> Seq<char> {
    policy + "|"@ + decimal(ssh_port as nat) + "|"@ + join(
        rules.map_values(|r: AllowRuleV| spec_to_nft(r)).sort_by(lex_order()),
        ","@,
    )
}

/// FNV-1a of the canonical text's UTF-8 bytes, as 16 hex digits.
pub open spec fn spec_hash(policy: Seq<char>, ssh_port: u16, rules: Seq<AllowRuleV>) -> Seq<char> {
    hex16(fnv1a(vstd::utf8::encode_utf8(canonical(policy, ssh_port, rules))))
}

fn hex_char(d: u64) -> (r: char)
    requires
        d < 16,
    ensures
        r == hex_digit(d as nat),
{
    if d < 10 {
        let v: u8 = 48 + (d as u8);
        v as char
    } else {
        let v: u8 = 87 + (d as u8);
        v as char
    }
}

fn hex_string(v: u64, n: u32) -> (r: String)
    ensures
        r@ == hex_n(v as nat, n as nat),
    decreases n,
{
    if n == 0 {
        String::new()
    } else {
        let mut s = hex_string(v / 16, n - 1);
        push_char(&mut s, hex_char(v % 16));
        s
    }
}

/// Every rule's nft match, in order.
fn nft_parts(rules: &Vec<AllowRule>) -> (r: Vec<String>)
    ensures
        r.deep_view() == rules.deep_view().map_values(|x: AllowRuleV| spec_to_nft(x)),
{
    let mut parts: Vec<String> = Vec::new();
    let mut i: usize = 0;
    while i < rules.len()
        invariant
            i <= rules@.len(),
            parts.deep_view() == rules.deep_view().take(i as int).map_values(
                |x: AllowRuleV| spec_to_nft(x),
            ),
        decreases rules@.len() - i,
    {
        let t = rules[i].to_nft();
        let ghost before = parts.deep_view();
        parts.push(t);
        proof {
            assert(parts.deep_view() =~= before.push(t@));
            assert(rules.deep_view().take(i + 1).map_values(|x: AllowRuleV| spec_to_nft(x))
                =~= rules.deep_view().take(i as int).map_values(|x: AllowRuleV| spec_to_nft(x)).push(
                spec_to_nft(rules.deep_view()[i as int]),
            ));
        }
        i = i + 1;
    }
    assert(rules.deep_view().take(i as int) =~= rules.deep_view());
    parts
}

/// FNV-1a over a canonical config string; stable across runs.
pub fn hash_config(policy: &str, ssh_port: u16, rules: &Vec<AllowRule>) -> (r: String)
    ensures
        r@ == spec_hash(policy@, ssh_port, rules.deep_view()),
{
    let mut canon = owned(policy);
    push_str(&mut canon, "|");
    let port = decimal_string(ssh_port as u64);
    push_str(&mut canon, port.as_str());
    push_str(&mut canon, "|");
    let parts = nft_parts(rules);
    let sorted = sort_strings(parts);
    let joined = join_strings(&sorted, ",");
    push_str(&mut canon, joined.as_str());
    assert(canon@ =~= canonical(policy@, ssh_port, rules.deep_view()));
    let bytes = canon.as_str().as_bytes();
    let mut h: u64 = FNV_OFFSET;
    let mut i: usize = 0;
    while i < bytes.len()
        invariant
            i <= bytes@.len(),
            h == fnv1a(bytes@.take(i as int)),
        decreases bytes@.len() - i,
    {
        proof {
            assert(bytes@.take(i + 1).drop_last() =~= bytes@.take(i as int));
        }
        h = (h ^ (bytes[i] as u64)).wrapping_mul(FNV_PRIME);
        i = i + 1;
    }
    assert(bytes@.take(i as int) =~= bytes@);
    hex_string(h, 16)
}

/// Law: the hash does not depend on the order of the rules — rules with the
/// same nft matches, counted with multiplicity, hash alike.
pub proof fn law_hash_order_independent(
    policy: Seq<char>,
    ssh_port: u16,
    a: Seq<AllowRuleV>,
    b: Seq<AllowRuleV>,
)
    requires
        a.map_values(|r: AllowRuleV| spec_to_nft(r)).to_multiset() == b.map_values(
            |r: AllowRuleV| spec_to_nft(r),
        ).to_multiset(),
    ensures
        spec_hash(policy, ssh_port, a) == spec_hash(policy, ssh_port, b),
{
    let pa = a.map_values(|r: AllowRuleV| spec_to_nft(r));
    let pb = b.map_values(|r: AllowRuleV| spec_to_nft(r));
    lemma_lex_total();
    pa.lemma_sort_by_ensures(lex_order());
    pb.lemma_sort_by_ensures(lex_order());
    vstd::seq_lib::lemma_sorted_unique(pa.sort_by(lex_order()), pb.sort_by(lex_order()), lex_order());
    assert(canonical(policy, ssh_port, a) =~= canonical(policy, ssh_port, b));
}

/// The nft rule strings of a list of rules, in order.
pub open spec fn nft_strings(rules: Seq<AllowRuleV>) -> Seq<Seq<char>> {
    rules.map_values(|r: AllowRuleV| spec_to_nft(r))
}

/// Lists holding the same rules, in any order, hold the same rule strings.
proof fn lemma_nft_strings_permutation(a: Seq<AllowRuleV>, b: Seq<AllowRuleV>)
    requires
        a.to_multiset() == b.to_multiset(),
    ensures
        nft_strings(a).to_multiset() == nft_strings(b).to_multiset(),
    decreases a.len(),
{
    broadcast use vstd::multiset::group_multiset_axioms;

    vstd::seq_lib::to_multiset_len(a);
    vstd::seq_lib::to_multiset_len(b);
    if a.len() == 0 {
        assert(nft_strings(a) =~= Seq::<Seq<char>>::empty());
        assert(nft_strings(b) =~= Seq::<Seq<char>>::empty());
    } else {
        let x = a.last();
        let a1 = a.drop_last();
        assert(a1.push(x) =~= a);
        vstd::seq_lib::to_multiset_build(a1, x);
        assert(a.to_multiset().count(x) > 0);
        vstd::seq_lib::to_multiset_contains(b, x);
        let i = choose|i: int| 0 <= i < b.len() && b[i] == x;
        let b1 = b.remove(i);
        vstd::seq_lib::to_multiset_remove(b, i);
        assert(a1.to_multiset() =~= b1.to_multiset());
        lemma_nft_strings_permutation(a1, b1);
        let y = spec_to_nft(x);
        let pa = nft_strings(a);
        let pb = nft_strings(b);
        assert(nft_strings(a1).push(y) =~= pa);
        vstd::seq_lib::to_multiset_build(nft_strings(a1), y);
        assert(pb.remove(i) =~= nft_strings(b1));
        vstd::seq_lib::to_multiset_remove(pb, i);
        assert(pb[i] == y);
        vstd::seq_lib::to_multiset_contains(pb, y);
        assert(pb.to_multiset() =~= pb.to_multiset().remove(y).insert(y));
        assert(pa.to_multiset() =~= pb.to_multiset());
    }
}

/// Law: the hash function is 64-bit FNV-1a: it starts from the offset basis
/// `0xcbf29ce484222325`, and each byte is xored in and then multiplied by the
/// prime `0x100000001b3`, modulo 2^64.
pub proof fn law_fnv1a_steps(bytes: Seq<u8>, b: u8)
    ensures
        fnv1a(Seq::<u8>::empty()) == 0xcbf2_9ce4_8422_2325u64,
        fnv1a(bytes.push(b)) as nat == ((fnv1a(bytes) ^ (b as u64)) as nat * 0x100_0000_01b3nat)
            % 0x1_0000_0000_0000_0000nat,
{
    assert(bytes.push(b).drop_last() =~= bytes);
}

/// Law: the hash covers the policy, the SSH port and every allow rule. It is
/// the FNV-1a, as 16 hex digits, of the UTF-8 bytes of `policy|port|rules`,
/// where `rules` are the rules' nft matches, each exactly as often as it
/// occurs in the list, sorted and joined with `,`.
pub proof fn law_hash_covers_rules(policy: Seq<char>, ssh_port: u16, rules: Seq<AllowRuleV>)
    ensures
        exists|s: Seq<Seq<char>>|
            #![trigger join(s, ","@)]
            s.to_multiset() == nft_strings(rules).to_multiset() && vstd::relations::sorted_by(s, lex_order())
                && spec_hash(policy, ssh_port, rules) == hex16(
                fnv1a(
                    vstd::utf8::encode_utf8(policy + "|"@ + decimal(ssh_port as nat) + "|"@ + join(s, ","@)),
                ),
            ),
{
    let p = nft_strings(rules);
    lemma_lex_total();
    p.lemma_sort_by_ensures(lex_order());
    let s = p.sort_by(lex_order());
    assert(canonical(policy, ssh_port, rules) == policy + "|"@ + decimal(ssh_port as nat) + "|"@ + join(s, ","@));
}

/// Law: the hash does not depend on the order of the rules: two lists
/// holding the same rules, in any order, hash alike.
pub proof fn law_hash_permutation_independent(
    policy: Seq<char>,
    ssh_port: u16,
    a: Seq<AllowRuleV>,
    b: Seq<AllowRuleV>,
)
    requires
        a.to_multiset() == b.to_multiset(),
    ensures
        spec_hash(policy, ssh_port, a) == spec_hash(policy, ssh_port, b),
{
    lemma_nft_strings_permutation(a, b);
    law_hash_order_independent(policy, ssh_port, a, b);
}

} // verus!

verus! {

// ---------------------------------------------------------------------------
// The ruleset
// ---------------------------------------------------------------------------

/// A rendered ruleset, its hash and the human-readable change list.
pub struct Ruleset {
    pub script: String,
    pub hash: String,
    pub changes: Vec<Change>,
}

/// The mathematical value of a [`Ruleset`].
pub struct RulesetV {
    pub script: Seq<char>,
    pub hash: Seq<char>,
    pub changes: Seq<ChangeV>,
}

impl DeepView for Ruleset {
    type V = RulesetV;

    open spec fn deep_view(&self) -> RulesetV {
        RulesetV { script: self.script@, hash: self.hash@, changes: self.changes.deep_view() }
    }
}

/// Every rule parsed, or the error of the first that does not parse.
pub open spec fn spec_parse_all(raws: Seq<Seq<char>>) -> Result<Seq<AllowRuleV>, ErrorV>
    decreases raws.len(),
{
    if raws.len() == 0 {
        Ok(Seq::empty())
    } else {
        match spec_parse_all(raws.drop_last()) {
            Err(e) => Err(e),
            Ok(rules) => match spec_parse_rule(raws.last()) {
                Err(e) => Err(e),
                Ok(r) => Ok(rules.push(r)),
            },
        }
    }
}

/// The nft word for the input policy.
pub open spec fn policy_word(p: Policy) -> Seq<char> {
    match p {
        Policy::Deny => "drop"@,
        Policy::Allow => "accept"@,
    }
}

/// The nft rule comment that carries the configuration hash.
pub open spec fn spec_marker(hash: Seq<char>) -> Seq<char> {
    "comment \"vpsguard:"@ + hash + "\""@
}

/// One `add rule` line per allow rule.
pub open spec fn rule_lines(rules: Seq<AllowRuleV>) -> Seq<char>
    decreases rules.len(),
{
    if rules.len() == 0 {
        Seq::empty()
    } else {
        rule_lines(rules.drop_last()) + "add rule inet vpsguard input "@ + spec_to_nft(rules.last())
            + "\n"@
    }
}

/// The nft script: the table is flushed and refilled; loopback,
/// established/related traffic and the SSH port are always accepted.
pub open spec fn spec_script(policy: Seq<char>, ssh_port: u16, rules: Seq<AllowRuleV>, hash: Seq<char>) -> Seq<char> {
    "add table inet vpsguard\n"@ + "flush table inet vpsguard\n"@
        + "add chain inet vpsguard input { type filter hook input priority 0; policy "@ + policy
        + "; }\n"@ + "add rule inet vpsguard input ct state invalid drop\n"@
        + "add rule inet vpsguard input ct state established,related accept\n"@
        + "add rule inet vpsguard input iif \"lo\" accept "@ + spec_marker(hash) + "\n"@
        + "add rule inet vpsguard input tcp dport "@ + decimal(ssh_port as nat) + " accept\n"@
        + rule_lines(rules)
}

/// The change list: the policy, the SSH guard, then each allow rule.
pub open spec fn ruleset_changes(policy: Seq<char>, ssh_port: u16, rules: Seq<AllowRuleV>) -> Seq<ChangeV> {
    seq![
        command_change("input policy "@ + policy),
        command_change("allow "@ + decimal(ssh_port as nat) + "/tcp (ssh lockout guard)"@),
    ] + rules.map_values(|r: AllowRuleV| command_change(spec_describe(r)))
}

/// The ruleset for `fw` with SSH on `ssh_port`.
pub open spec fn spec_ruleset(fw: FirewallConfig, ssh_port: u16) -> Result<RulesetV, ErrorV> {
    match spec_parse_all(fw.allow.deep_view()) {
        Err(e) => Err(e),
        Ok(rules) => {
            let policy = policy_word(fw.default);
            let hash = spec_hash(policy, ssh_port, rules);
            Ok(
                RulesetV {
                    script: spec_script(policy, ssh_port, rules, hash),
                    hash,
                    changes: ruleset_changes(policy, ssh_port, rules),
                },
            )
        },
    }
}

/// Parses every allow rule, stopping at the first that does not parse.
pub fn parse_all(raws: &Vec<String>) -> (r: Result<Vec<AllowRule>, Error>)
    ensures
        match r {
            Ok(rules) => spec_parse_all(raws.deep_view()) == Ok::<Seq<AllowRuleV>, ErrorV>(
                rules.deep_view(),
            ),
            Err(e) => spec_parse_all(raws.deep_view()) == Err::<Seq<AllowRuleV>, ErrorV>(
                e.deep_view(),
            ),
        },
{
    let mut rules: Vec<AllowRule> = Vec::new();
    let mut i: usize = 0;
    assert(raws.deep_view().take(0) =~= Seq::<Seq<char>>::empty());
    assert(rules.deep_view() =~= Seq::<AllowRuleV>::empty());
    while i < raws.len()
        invariant
            i <= raws@.len(),
            spec_parse_all(raws.deep_view().take(i as int)) == Ok::<Seq<AllowRuleV>, ErrorV>(
                rules.deep_view(),
            ),
        decreases raws@.len() - i,
    {
        proof {
            assert(raws.deep_view().take(i + 1).drop_last() =~= raws.deep_view().take(i as int));
        }
        let ghost before = rules.deep_view();
        match parse_rule(raws[i].as_str()) {
            Err(e) => {
                proof {
                    lemma_parse_all_prefix_err(raws.deep_view(), i + 1);
                }
                return Err(e);
            },
            Ok(rule) => {
                rules.push(rule);
                assert(rules.deep_view() =~= before.push(rule.deep_view()));
            },
        }
        i = i + 1;
    }
    assert(raws.deep_view().take(i as int) =~= raws.deep_view());
    Ok(rules)
}

/// Once a prefix fails to parse, so does the whole list, with the same error.
proof fn lemma_parse_all_prefix_err(raws: Seq<Seq<char>>, k: int)
    requires
        0 <= k <= raws.len(),
        spec_parse_all(raws.take(k)) is Err,
    ensures
        spec_parse_all(raws) == spec_parse_all(raws.take(k)),
    decreases raws.len() - k,
{
    if k < raws.len() {
        assert(raws.take(k + 1).drop_last() =~= raws.take(k));
        lemma_parse_all_prefix_err(raws, k + 1);
    } else {
        assert(raws.take(k) =~= raws);
    }
}

fn policy_text(p: Policy) -> (r: &'static str)
    ensures
        r@ == policy_word(p),
{
    match p {
        Policy::Deny => "drop",
        Policy::Allow => "accept",
    }
}

/// nft rule comment carrying the config hash, used by `check`.
pub fn marker(hash: &str) -> (r: String)
    ensures
        r@ == spec_marker(hash@),
{
    let mut m = owned("comment \"vpsguard:");
    push_str(&mut m, hash);
    push_str(&mut m, "\"");
    m
}

/// Build the nft script, hash, and change list from the firewall settings
/// and the SSH port.
pub fn plan_ruleset(fw: &FirewallConfig, ssh_port: u16) -> (r: Result<Ruleset, Error>)
    ensures
        match r {
            Ok(rs) => spec_ruleset(*fw, ssh_port) == Ok::<RulesetV, ErrorV>(rs.deep_view()),
            Err(e) => spec_ruleset(*fw, ssh_port) == Err::<RulesetV, ErrorV>(e.deep_view()),
        },
{
    let rules = match parse_all(&fw.allow) {
        Err(e) => return Err(e),
        Ok(rules) => rules,
    };
    let policy = policy_text(fw.default);
    let hash = hash_config(policy, ssh_port, &rules);
    let port = decimal_string(ssh_port as u64);
    let mut script = owned("add table inet vpsguard\n");
    push_str(&mut script, "flush table inet vpsguard\n");
    push_str(&mut script, "add chain inet vpsguard input { type filter hook input priority 0; policy ");
    push_str(&mut script, policy);
    push_str(&mut script, "; }\n");
    push_str(&mut script, "add rule inet vpsguard input ct state invalid drop\n");
    push_str(&mut script, "add rule inet vpsguard input ct state established,related accept\n");
    push_str(&mut script, "add rule inet vpsguard input iif \"lo\" accept ");
    let mk = marker(hash.as_str());
    push_str(&mut script, mk.as_str());
    push_str(&mut script, "\n");
    push_str(&mut script, "add rule inet vpsguard input tcp dport ");
    push_str(&mut script, port.as_str());
    push_str(&mut script, " accept\n");
    let ghost head = script@;
    let mut changes: Vec<Change> = Vec::new();
    let mut first = owned("input policy ");
    push_str(&mut first, policy);
    changes.push(Change::command(first.as_str()));
    let mut second = owned("allow ");
    push_str(&mut second, port.as_str());
    push_str(&mut second, "/tcp (ssh lockout guard)");
    changes.push(Change::command(second.as_str()));
    let ghost fixed = changes.deep_view();
    let ghost rv = rules.deep_view();
    let mut i: usize = 0;
    assert(rule_lines(rv.take(0)) =~= Seq::<char>::empty());
    assert(rv.take(0).map_values(|x: AllowRuleV| command_change(spec_describe(x))) =~= Seq::<
        ChangeV,
    >::empty());
    assert(script@ =~= head + rule_lines(rv.take(0)));
    assert(changes.deep_view() =~= fixed + rv.take(0).map_values(
        |x: AllowRuleV| command_change(spec_describe(x)),
    ));
    while i < rules.len()
        invariant
            i <= rules@.len(),
            rv == rules.deep_view(),
            script@ == head + rule_lines(rv.take(i as int)),
            changes.deep_view() == fixed + rv.take(i as int).map_values(
                |x: AllowRuleV| command_change(spec_describe(x)),
            ),
        decreases rules@.len() - i,
    {
        push_str(&mut script, "add rule inet vpsguard input ");
        let t = rules[i].to_nft();
        push_str(&mut script, t.as_str());
        push_str(&mut script, "\n");
        let d = rules[i].describe();
        let ghost cbefore = changes.deep_view();
        changes.push(Change::command(d.as_str()));
        proof {
            assert(rv.take(i + 1).drop_last() =~= rv.take(i as int));
            assert(script@ =~= head + rule_lines(rv.take(i + 1)));
            assert(rv.take(i + 1).map_values(|x: AllowRuleV| command_change(spec_describe(x)))
                =~= rv.take(i as int).map_values(|x: AllowRuleV| command_change(spec_describe(x))).push(
                command_change(spec_describe(rv[i as int])),
            ));
            assert(changes.deep_view() =~= cbefore.push(command_change(d@)));
        }
        i = i + 1;
    }
    proof {
        assert(rv.take(i as int) =~= rv);
        assert(fixed =~= seq![
            command_change("input policy "@ + policy@),
            command_change("allow "@ + decimal(ssh_port as nat) + "/tcp (ssh lockout guard)"@),
        ]);
    }
    Ok(Ruleset { script, hash, changes })
}

} // verus!

verus! {

// ---------------------------------------------------------------------------
// The module
// ---------------------------------------------------------------------------

/// nftables firewall module.
#[derive(Debug, Default)]
pub struct FirewallModule;

/// What `nft list table inet vpsguard` reported: the table's text when the
/// command succeeded, nothing when it failed (the table does not exist).
pub fn table_listing(out: &crate::types::Output) -> (r: Option<String>)
    ensures
        r.deep_view() == (if out.code == 0 {
            Some(out.stdout@)
        } else {
            None::<Seq<char>>
        }),
{
    if out.success() {
        Some(owned(out.stdout.as_str()))
    } else {
        None
    }
}

/// The snapshot written before a change: it deletes the vpsguard table and,
/// when there was one, recreates it as it was.
pub open spec fn backup_body(live: Option<Seq<char>>) -> Seq<char> {
    match live {
        Some(rules) => "delete table inet vpsguard\n"@ + rules,
        None => "delete table inet vpsguard\n"@,
    }
}

/// Whether the live table already carries the wanted hash.
pub open spec fn up_to_date(live: Option<Seq<char>>, hash: Seq<char>) -> bool {
    match live {
        Some(rules) => contains(rules, spec_marker(hash)),
        None => false,
    }
}

/// `check`: `listing` is `None` when nftables could not be run, else what
/// [`table_listing`] made of its answer.
pub open spec fn spec_check(fw: FirewallConfig, ssh_port: u16, listing: Option<Option<Seq<char>>>) -> Result<StatusV, ErrorV> {
    if !fw.enabled {
        Ok(StatusV { state: State::NotApplicable, detail: "firewall disabled in config"@ })
    } else {
        match spec_ruleset(fw, ssh_port) {
            Err(e) => Err(e),
            Ok(want) => match listing {
                None => Ok(StatusV { state: State::NotApplicable, detail: "nftables not available"@ }),
                Some(None) => Ok(StatusV { state: State::Drift, detail: "firewall table not present"@ }),
                Some(Some(rules)) => if contains(rules, spec_marker(want.hash)) {
                    Ok(StatusV { state: State::Compliant, detail: compliant_text() })
                } else {
                    Ok(StatusV { state: State::Drift, detail: "firewall rules out of date"@ })
                },
            },
        }
    }
}

/// `apply`: nothing when disabled or already up to date; the planned changes
/// as skipped on a dry run; else snapshot, stage, validate with `nft -c`,
/// then load with `nft -f`.
pub open spec fn spec_apply(
    fw: FirewallConfig,
    ssh_port: u16,
    listing: Option<Option<Seq<char>>>,
    dry_run: bool,
    root: Seq<char>,
) -> Result<PlanV, ErrorV> {
    if !fw.enabled {
        Ok(PlanV { steps: Seq::empty(), report: empty_report("firewall"@, dry_run) })
    } else {
        match spec_ruleset(fw, ssh_port) {
            Err(e) => Err(e),
            Ok(want) => match listing {
                None => Err(
                    ErrorV::Module {
                        module: "firewall"@,
                        message: "nftables not installed; install the `nftables` package"@,
                    },
                ),
                Some(live) => if up_to_date(live, want.hash) {
                    Ok(PlanV { steps: Seq::empty(), report: empty_report("firewall"@, dry_run) })
                } else if dry_run {
                    Ok(
                        PlanV {
                            steps: Seq::empty(),
                            report: ReportV {
                                module: "firewall"@,
                                applied: Seq::empty(),
                                skipped: want.changes,
                                dry_run,
                            },
                        },
                    )
                } else {
                    let staged = spec_resolve(root, STAGED@);
                    Ok(
                        PlanV {
                            steps: seq![
                                StepV::Write { path: BACKUP@, body: backup_body(live) },
                                StepV::Write { path: STAGED@, body: want.script },
                                StepV::Validate {
                                    command: "nft"@,
                                    args: seq!["-c"@, "-f"@, staged],
                                    staged: STAGED@,
                                    reason: "candidate nft ruleset rejected"@,
                                },
                                StepV::RunChecked { command: "nft"@, args: seq!["-f"@, staged] },
                            ],
                            report: ReportV {
                                module: "firewall"@,
                                applied: want.changes.push(command_change("nft -f (vpsguard table)"@)),
                                skipped: Seq::empty(),
                                dry_run,
                            },
                        },
                    )
                },
            },
        }
    }
}

/// `rollback`: load the snapshot (its `delete table` may fail harmlessly when
/// the table is gone), then drop it.
pub open spec fn spec_rollback(saved: Option<Seq<char>>, root: Seq<char>) -> Result<Seq<StepV>, ErrorV> {
    match saved {
        None => Err(ErrorV::Module { module: "firewall"@, message: "no snapshot to roll back to"@ }),
        Some(body) => Ok(
            seq![
                StepV::Write { path: STAGED@, body },
                StepV::Run { command: "nft"@, args: seq!["-f"@, spec_resolve(root, STAGED@)] },
                StepV::RemoveQuiet { path: BACKUP@ },
            ],
        ),
    }
}

impl FirewallModule {
    pub fn name(&self) -> (r: &'static str)
        ensures
            r@ == "firewall"@,
    {
        "firewall"
    }

    pub fn summary(&self) -> (r: &'static str)
        ensures
            r@ == "nftables: default-deny input, allow listed ports, SSH protected"@,
    {
        "nftables: default-deny input, allow listed ports, SSH protected"
    }

    pub fn category(&self) -> (r: Category)
        ensures
            r == Category::Security,
    {
        Category::Security
    }

    /// A bad ruleset can lock the operator out, so apply is guarded.
    pub fn lockout_risk(&self) -> (r: bool)
        ensures
            r,
    {
        true
    }

    /// Compare the live table with the wanted ruleset. Read-only.
    pub fn check(&self, fw: &FirewallConfig, ssh_port: u16, listing: &Option<Option<String>>) -> (r: Result<Status, Error>)
        ensures
            match r {
                Ok(s) => spec_check(*fw, ssh_port, listing.deep_view()) == Ok::<StatusV, ErrorV>(
                    s.deep_view(),
                ),
                Err(e) => spec_check(*fw, ssh_port, listing.deep_view()) == Err::<StatusV, ErrorV>(
                    e.deep_view(),
                ),
            },
    {
        if !fw.enabled {
            return Ok(Status::not_applicable("firewall disabled in config"));
        }
        let want = match plan_ruleset(fw, ssh_port) {
            Err(e) => return Err(e),
            Ok(w) => w,
        };
        match listing {
            None => Ok(Status::not_applicable("nftables not available")),
            Some(None) => Ok(Status::drift("firewall table not present")),
            Some(Some(rules)) => {
                let mk = marker(want.hash.as_str());
                if str_contains(rules.as_str(), mk.as_str()) {
                    Ok(Status::compliant())
                } else {
                    Ok(Status::drift("firewall rules out of date"))
                }
            },
        }
    }

    /// The changes `apply` would make.
    pub fn plan(&self, fw: &FirewallConfig, ssh_port: u16) -> (r: Result<Vec<Change>, Error>)
        ensures
            match r {
                Ok(cs) => spec_ruleset(*fw, ssh_port) matches Ok(want) && want.changes
                    == cs.deep_view(),
                Err(e) => spec_ruleset(*fw, ssh_port) == Err::<RulesetV, ErrorV>(e.deep_view()),
            },
    {
        match plan_ruleset(fw, ssh_port) {
            Err(e) => Err(e),
            Ok(want) => Ok(want.changes),
        }
    }

    /// Decide how to bring the live table to the wanted ruleset.
    pub fn apply(
        &self,
        fw: &FirewallConfig,
        ssh_port: u16,
        listing: &Option<Option<String>>,
        dry_run: bool,
        root: &str,
    ) -> (r: Result<Plan, Error>)
        ensures
            match r {
                Ok(p) => spec_apply(*fw, ssh_port, listing.deep_view(), dry_run, root@) == Ok::<
                    PlanV,
                    ErrorV,
                >(p.deep_view()),
                Err(e) => spec_apply(*fw, ssh_port, listing.deep_view(), dry_run, root@) == Err::<
                    PlanV,
                    ErrorV,
                >(e.deep_view()),
            },
    {
        let mut report = Report::new("firewall", dry_run);
        let none: Vec<Step> = Vec::new();
        assert(none.deep_view() =~= Seq::<StepV>::empty());
        if !fw.enabled {
            return Ok(Plan { steps: none, report });
        }
        let want = match plan_ruleset(fw, ssh_port) {
            Err(e) => return Err(e),
            Ok(w) => w,
        };
        let live = match listing {
            None => {
                return Err(
                    Error::Module {
                        module: owned("firewall"),
                        message: owned("nftables not installed; install the `nftables` package"),
                    },
                );
            },
            Some(live) => live,
        };
        let current = match live {
            Some(rules) => {
                let mk = marker(want.hash.as_str());
                str_contains(rules.as_str(), mk.as_str())
            },
            None => false,
        };
        if current {
            return Ok(Plan { steps: none, report });
        }
        if dry_run {
            report.skipped = want.changes;
            return Ok(Plan { steps: none, report });
        }
        let mut backup = owned("delete table inet vpsguard\n");
        match live {
            Some(rules) => push_str(&mut backup, rules.as_str()),
            None => {},
        }
        let staged = resolve(root, STAGED);
        let mut steps: Vec<Step> = Vec::new();
        steps.push(write_file(BACKUP, backup.as_str()));
        steps.push(write_file(STAGED, want.script.as_str()));
        steps.push(
            Step::Validate {
                command: owned("nft"),
                args: args3("-c", "-f", staged.as_str()),
                staged: owned(STAGED),
                reason: owned("candidate nft ruleset rejected"),
            },
        );
        steps.push(run_checked("nft", args2("-f", staged.as_str())));
        let mut applied = want.changes;
        let ghost before = applied.deep_view();
        applied.push(Change::command("nft -f (vpsguard table)"));
        report.applied = applied;
        let p = Plan { steps, report };
        proof {
            assert(backup@ =~= backup_body(live.deep_view()));
            assert(p.report.applied.deep_view() =~= before.push(command_change("nft -f (vpsguard table)"@)));
            assert(p.steps.deep_view() =~= spec_apply(*fw, ssh_port, listing.deep_view(), dry_run, root@)->Ok_0.steps);
        }
        Ok(p)
    }

    /// Decide how to restore the snapshot taken by the last apply.
    pub fn rollback(&self, saved: &Option<String>, root: &str) -> (r: Result<Vec<Step>, Error>)
        ensures
            match r {
                Ok(s) => spec_rollback(saved.deep_view(), root@) == Ok::<Seq<StepV>, ErrorV>(s.deep_view()),
                Err(e) => spec_rollback(saved.deep_view(), root@) == Err::<Seq<StepV>, ErrorV>(e.deep_view()),
            },
    {
        match saved {
            None => Err(
                Error::Module { module: owned("firewall"), message: owned("no snapshot to roll back to") },
            ),
            Some(body) => {
                let staged = resolve(root, STAGED);
                let mut steps: Vec<Step> = Vec::new();
                steps.push(write_file(STAGED, body.as_str()));
                steps.push(run("nft", args2("-f", staged.as_str())));
                steps.push(remove_quiet(BACKUP));
                assert(steps.deep_view() =~= spec_rollback(saved.deep_view(), root@)->Ok_0);
                Ok(steps)
            },
        }
    }
}

/// Law: `check` reports compliance exactly when `apply` has nothing to do —
/// for an enabled firewall whose rules parse and a table that can be listed.
pub proof fn law_check_agrees_with_apply(
    fw: FirewallConfig,
    ssh_port: u16,
    live: Option<Seq<char>>,
    dry_run: bool,
    root: Seq<char>,
)
    requires
        fw.enabled,
        spec_ruleset(fw, ssh_port) is Ok,
    ensures
        (spec_check(fw, ssh_port, Some(live)) matches Ok(s) && s.state == State::Compliant) <==> (
        spec_apply(fw, ssh_port, Some(live), dry_run, root) matches Ok(p) && p.steps.len() == 0
            && p.report.skipped.len() == 0 && p.report.applied.len() == 0),
{
    let want = spec_ruleset(fw, ssh_port)->Ok_0;
    assert(want.changes.len() >= 2);
}


/// The rule that keeps SSH reachable.
pub open spec fn ssh_guard_rule(ssh_port: u16) -> Seq<char> {
    "add rule inet vpsguard input tcp dport "@ + decimal(ssh_port as nat) + " accept\n"@
}

/// An occurrence stays one when text is added on either side.
proof fn lemma_occurs_concat(a: Seq<char>, b: Seq<char>, p: Seq<char>, i: int)
    ensures
        occurs_at(a, p, i) ==> occurs_at(a + b, p, i),
        occurs_at(b, p, i) ==> occurs_at(a + b, p, i + a.len()),
{
    if occurs_at(a, p, i) {
        assert((a + b).subrange(i, i + p.len()) =~= a.subrange(i, i + p.len()));
    }
    if occurs_at(b, p, i) {
        assert((a + b).subrange(i + a.len(), i + a.len() + p.len()) =~= b.subrange(i, i + p.len()));
    }
}

/// The nft line that accepts `r`.
pub open spec fn allow_line(r: AllowRuleV) -> Seq<char> {
    "add rule inet vpsguard input "@ + spec_to_nft(r) + "\n"@
}

proof fn lemma_rule_lines_hold(rules: Seq<AllowRuleV>, i: int)
    requires
        0 <= i < rules.len(),
    ensures
        contains(rule_lines(rules), allow_line(rules[i])),
    decreases rules.len(),
{
    let d = rules.drop_last();
    let last = "add rule inet vpsguard input "@ + spec_to_nft(rules.last()) + "\n"@;
    assert(rule_lines(rules) =~= rule_lines(d) + last);
    if i == rules.len() - 1 {
        assert(last.subrange(0, last.len() as int) =~= last);
        assert(occurs_at(last, allow_line(rules[i]), 0));
        lemma_occurs_concat(rule_lines(d), last, allow_line(rules[i]), 0);
    } else {
        assert(d[i] == rules[i]);
        lemma_rule_lines_hold(d, i);
        let k = choose|k: int| occurs_at(rule_lines(d), allow_line(rules[i]), k);
        lemma_occurs_concat(rule_lines(d), last, allow_line(rules[i]), k);
    }
}

/// Law: the programmed table accepts every allow rule. When the allow list
/// parses, the nft script holds an accepting line for each of its rules, and
/// the script is tagged with the hash of those rules.
pub proof fn law_ruleset_accepts_every_rule(fw: FirewallConfig, ssh_port: u16)
    ensures
        spec_ruleset(fw, ssh_port) matches Ok(rs) ==> {
            let rules = spec_parse_all(fw.allow.deep_view())->Ok_0;
            &&& rs.hash == spec_hash(policy_word(fw.default), ssh_port, rules)
            &&& contains(rs.script, spec_marker(rs.hash))
            &&& forall|i: int| 0 <= i < rules.len() ==> contains(rs.script, #[trigger] allow_line(rules[i]))
        },
{
    if spec_ruleset(fw, ssh_port) is Ok {
        let rs = spec_ruleset(fw, ssh_port)->Ok_0;
        let rules = spec_parse_all(fw.allow.deep_view())->Ok_0;
        let policy = policy_word(fw.default);
        let hash = spec_hash(policy, ssh_port, rules);
        let pre = "add table inet vpsguard\n"@ + "flush table inet vpsguard\n"@
            + "add chain inet vpsguard input { type filter hook input priority 0; policy "@ + policy
            + "; }\n"@ + "add rule inet vpsguard input ct state invalid drop\n"@
            + "add rule inet vpsguard input ct state established,related accept\n"@
            + "add rule inet vpsguard input iif \"lo\" accept "@;
        let m = spec_marker(hash);
        let rest = "\n"@ + "add rule inet vpsguard input tcp dport "@ + decimal(ssh_port as nat) + " accept\n"@;
        let head = pre + m + rest;
        assert(rs.script =~= head + rule_lines(rules));
        assert((pre + m).subrange(pre.len() as int, (pre.len() + m.len()) as int) =~= m);
        assert(occurs_at(pre + m, m, pre.len() as int));
        lemma_occurs_concat(pre + m, rest + rule_lines(rules), m, pre.len() as int);
        assert(pre + m + (rest + rule_lines(rules)) =~= rs.script);
        assert forall|i: int| 0 <= i < rules.len() implies contains(rs.script, #[trigger] allow_line(rules[i])) by {
            lemma_rule_lines_hold(rules, i);
            let k = choose|k: int| occurs_at(rule_lines(rules), allow_line(rules[i]), k);
            lemma_occurs_concat(head, rule_lines(rules), allow_line(rules[i]), k);
        }
    }
}

/// Law: SSH is always permitted. Whatever the default policy and the allow
/// list, every ruleset the firewall programs accepts TCP to the SSH port,
/// and its change list says so.
pub proof fn law_ssh_always_permitted(fw: FirewallConfig, ssh_port: u16)
    requires
        spec_ruleset(fw, ssh_port) is Ok,
    ensures
        spec_ruleset(fw, ssh_port) matches Ok(rs) && contains(rs.script, ssh_guard_rule(ssh_port))
            && rs.changes.contains(command_change("allow "@ + decimal(ssh_port as nat) + "/tcp (ssh lockout guard)"@)),
{
    let rs = spec_ruleset(fw, ssh_port)->Ok_0;
    let rules = spec_parse_all(fw.allow.deep_view())->Ok_0;
    let policy = policy_word(fw.default);
    let hash = spec_hash(policy, ssh_port, rules);
    let head = "add table inet vpsguard\n"@ + "flush table inet vpsguard\n"@
        + "add chain inet vpsguard input { type filter hook input priority 0; policy "@ + policy
        + "; }\n"@ + "add rule inet vpsguard input ct state invalid drop\n"@
        + "add rule inet vpsguard input ct state established,related accept\n"@
        + "add rule inet vpsguard input iif \"lo\" accept "@ + spec_marker(hash) + "\n"@;
    let g = ssh_guard_rule(ssh_port);
    assert(rs.script =~= head + g + rule_lines(rules));
    assert(rs.script.subrange(head.len() as int, (head.len() + g.len()) as int) =~= g);
    assert(occurs_at(rs.script, g, head.len() as int));
    assert(rs.changes[1] == command_change("allow "@ + decimal(ssh_port as nat) + "/tcp (ssh lockout guard)"@));
}

/// Law: rollback undoes apply. When the live table is out of date, apply
/// first snapshots it as a script that deletes the vpsguard table and, if
/// there was one, recreates it as listed; rollback from that snapshot stages
/// exactly that script, replays it with `nft -f` and drops the snapshot.
pub proof fn law_rollback_replays_snapshot(fw: FirewallConfig, ssh_port: u16, live: Option<Seq<char>>, root: Seq<char>)
    requires
        fw.enabled,
        spec_ruleset(fw, ssh_port) matches Ok(want) && !up_to_date(live, want.hash),
    ensures
        spec_apply(fw, ssh_port, Some(live), false, root) matches Ok(p) && p.steps.len() > 0
            && p.steps[0] == (StepV::Write { path: BACKUP@, body: backup_body(live) }),
        spec_rollback(Some(backup_body(live)), root) == Ok::<Seq<StepV>, ErrorV>(
            seq![
                StepV::Write { path: STAGED@, body: backup_body(live) },
                StepV::Run { command: "nft"@, args: seq!["-f"@, spec_resolve(root, STAGED@)] },
                StepV::RemoveQuiet { path: BACKUP@ },
            ],
        ),
{
}

/// Law: a dry run changes nothing: no step, nothing applied.
pub proof fn law_dry_run_is_inert(fw: FirewallConfig, ssh_port: u16, listing: Option<Option<Seq<char>>>, root: Seq<char>)
    ensures
        spec_apply(fw, ssh_port, listing, true, root) matches Ok(p) ==> p.steps.len() == 0
            && p.report.applied.len() == 0,
{
}

} // verus!
