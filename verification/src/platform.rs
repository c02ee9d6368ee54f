//! Linux distribution classification for cross-distro behaviour.
//!
//! Parses the contents of `/etc/os-release` and classifies the host into a
//! family so modules can pick the right service names and package manager.

use vstd::prelude::*;

use crate::text::{
    chars_of, has_prefix, is_ws, lines, occurs_at, split_lines, starts_with, string_of,
    trim, trim_bounds, trim_matches, trim_matches_bounds, matches_at, is_whitespace, str_eq,
};

verus! {

/// Broad distribution family.
#[derive(Debug, Clone, Copy, PartialEq, Eq, Structural)]
pub enum DistroFamily {
    Debian,
    Rhel,
    Arch,
    Suse,
    Unknown,
}

impl Default for DistroFamily {
    fn default() -> (r: Self)
        ensures
            r == DistroFamily::Unknown,
    {
        DistroFamily::Unknown
    }
}

/// Detected host platform.
#[derive(Debug, Clone)]
pub struct Platform {
    pub family: DistroFamily,
    pub id: String,
}

impl Default for Platform {
    fn default() -> (r: Self)
        ensures
            r.family == DistroFamily::Unknown,
            r.id@ == Seq::<char>::empty(),
    {
        Platform { family: DistroFamily::Unknown, id: String::new() }
    }
}

/// `s` occurs in `text` as a whole whitespace-separated token.
pub open spec fn has_token(text: Seq<char>, s: Seq<char>) -> bool {
    exists|i: int|
        #![trigger occurs_at(text, s, i)]
        occurs_at(text, s, i) && (i == 0 || is_ws(text[i - 1])) && (i + s.len() == text.len()
            || is_ws(text[i + s.len()]))
}

/// The family named by the `ID` and `ID_LIKE` values.
pub open spec fn spec_classify(id: Seq<char>, id_like: Seq<char>) -> DistroFamily {
    let joined = id + seq![' '] + id_like;
    if has_token(joined, "debian"@) || has_token(joined, "ubuntu"@) {
        DistroFamily::Debian
    } else if has_token(joined, "rhel"@) || has_token(joined, "fedora"@) || has_token(
        joined,
        "centos"@,
    ) || id == "rocky"@ || id == "almalinux"@ {
        DistroFamily::Rhel
    } else if has_token(joined, "arch"@) {
        DistroFamily::Arch
    } else if has_token(joined, "suse"@) || has_token(joined, "opensuse"@) {
        DistroFamily::Suse
    } else {
        DistroFamily::Unknown
    }
}

/// The value of the last line of `ls` that starts with `prefix`, after it.
pub open spec fn last_value(ls: Seq<Seq<char>>, prefix: Seq<char>) -> Option<Seq<char>>
    decreases ls.len(),
{
    if ls.len() == 0 {
        None
    } else if has_prefix(ls.last(), prefix) {
        Some(ls.last().skip(prefix.len() as int))
    } else {
        last_value(ls.drop_last(), prefix)
    }
}

/// An os-release value with surrounding whitespace and quotes removed.
pub open spec fn spec_unquote(v: Seq<char>) -> Seq<char> {
    trim_matches(trim_matches(trim(v), '"'), '\'')
}

/// The unquoted value of the last `key` line of an os-release file, or "".
pub open spec fn os_release_value(content: Seq<char>, key: Seq<char>) -> Seq<char> {
    match last_value(lines(content), key) {
        Some(v) => spec_unquote(v),
        None => Seq::empty(),
    }
}

/// `"ID="`
pub open spec fn id_key() -> Seq<char> {
    "ID="@
}

/// `"ID_LIKE="`
pub open spec fn id_like_key() -> Seq<char> {
    "ID_LIKE="@
}

/// Whether `word` occurs in `text` as a whole token.
pub fn token_in(text: &Vec<char>, word: &str) -> (r: bool)
    requires
        word@.len() > 0,
    ensures
        r == has_token(text@, word@),
{
    let w = chars_of(word);
    if w.len() > text.len() {
        assert forall|i: int| !occurs_at(text@, word@, i) by {}
        return false;
    }
    let n = text.len();
    let last = n - w.len();
    let mut i: usize = 0;
    loop
        invariant
            n == text@.len(),
            w@ == word@,
            last == text@.len() - w@.len(),
            i <= last,
            forall|k: int|
                #![trigger occurs_at(text@, word@, k)]
                0 <= k < i ==> !(occurs_at(text@, word@, k) && (k == 0 || is_ws(text@[k - 1])) && (
                k + word@.len() == text@.len() || is_ws(text@[k + word@.len()]))),
        decreases last - i,
    {
        let before_ok = i == 0 || is_whitespace(text[i - 1]);
        let after_ok = i + w.len() == text.len() || is_whitespace(text[i + w.len()]);
        if before_ok && after_ok && matches_at(text, i, &w) {
            return true;
        }
        if i == last {
            assert forall|k: int| !(occurs_at(text@, word@, k) && (k == 0 || is_ws(text@[k - 1]))
                && (k + word@.len() == text@.len() || is_ws(text@[k + word@.len()]))) by {
                if 0 <= k && k <= i {
                }
            }
            return false;
        }
        i = i + 1;
    }
}

/// Classify from the `ID` and `ID_LIKE` values.
pub fn classify(id: &str, id_like: &str) -> (r: DistroFamily)
    ensures
        r == spec_classify(id@, id_like@),
{
    let mut joined = chars_of(id);
    joined.push(' ');
    let rest = chars_of(id_like);
    let mut k: usize = 0;
    while k < rest.len()
        invariant
            k <= rest@.len(),
            joined@ == id@ + seq![' '] + id_like@.take(k as int),
            rest@ == id_like@,
        decreases rest@.len() - k,
    {
        joined.push(rest[k]);
        k = k + 1;
    }
    assert(id_like@.take(k as int) =~= id_like@);
    proof {
        reveal_strlit("debian");
        reveal_strlit("ubuntu");
        reveal_strlit("rhel");
        reveal_strlit("fedora");
        reveal_strlit("centos");
        reveal_strlit("arch");
        reveal_strlit("suse");
        reveal_strlit("opensuse");
    }
    if token_in(&joined, "debian") || token_in(&joined, "ubuntu") {
        DistroFamily::Debian
    } else if token_in(&joined, "rhel") || token_in(&joined, "fedora") || token_in(
        &joined,
        "centos",
    ) || str_eq(id, "rocky") || str_eq(id, "almalinux") {
        DistroFamily::Rhel
    } else if token_in(&joined, "arch") {
        DistroFamily::Arch
    } else if token_in(&joined, "suse") || token_in(&joined, "opensuse") {
        DistroFamily::Suse
    } else {
        DistroFamily::Unknown
    }
}

/// Strip surrounding whitespace, then double quotes, then single quotes.
pub fn unquote(v: &str) -> (r: String)
    ensures
        r@ == spec_unquote(v@),
{
    let cs = chars_of(v);
    let (a, b) = trim_bounds(&cs, 0, cs.len());
    let (c, d) = trim_matches_bounds(&cs, a, b, '"');
    let (e, f) = trim_matches_bounds(&cs, c, d, '\'');
    assert(cs@.subrange(0, cs@.len() as int) =~= v@);
    string_of(&cs, e, f)
}

impl Platform {
    /// Build a platform for a known family (used by tests and defaults).
    pub fn of(family: DistroFamily) -> (r: Self)
        ensures
            r.family == family,
            r.id@ == Seq::<char>::empty(),
    {
        Platform { family, id: String::new() }
    }

    /// Parse the contents of an os-release file: the last `ID=` and `ID_LIKE=`
    /// lines give the id and the family.
    pub fn from_os_release(content: &str) -> (r: Self)
        ensures
            r.id@ == os_release_value(content@, id_key()),
            r.family == spec_classify(
                os_release_value(content@, id_key()),
                os_release_value(content@, id_like_key()),
            ),
    {
        let ls = split_lines(content);
        let mut id = String::new();
        let mut id_like = String::new();
        let id_k = "ID=";
        let like_k = "ID_LIKE=";
        proof {
            reveal_strlit("ID=");
            reveal_strlit("ID_LIKE=");
            assert(id_key() =~= seq!['I', 'D', '=']);
            assert(id_like_key() =~= seq!['I', 'D', '_', 'L', 'I', 'K', 'E', '=']);
        }
        let mut i: usize = 0;
        while i < ls.len()
            invariant
                i <= ls@.len(),
                ls.deep_view() == lines(content@),
                id_k@ == id_key(),
                like_k@ == id_like_key(),
                id_key() == seq!['I', 'D', '='],
                id_like_key() == seq!['I', 'D', '_', 'L', 'I', 'K', 'E', '='],
                id@ == match last_value(ls.deep_view().take(i as int), id_key()) {
                    Some(v) => spec_unquote(v),
                    None => Seq::empty(),
                },
                id_like@ == match last_value(ls.deep_view().take(i as int), id_like_key()) {
                    Some(v) => spec_unquote(v),
                    None => Seq::empty(),
                },
            decreases ls@.len() - i,
        {
            let line = ls[i].as_str();
            let ghost pre = ls.deep_view().take(i as int);
            let ghost cur = ls.deep_view().take(i + 1);
            proof {
                assert(cur.drop_last() =~= pre);
                assert(cur.last() == line@);
            }
            if starts_with(line, id_k) {
                let cs = chars_of(line);
                let rest = string_of(&cs, 3, cs.len());
                assert(rest@ =~= line@.skip(3));
                id = unquote(rest.as_str());
                proof {
                    // An `ID=` line never starts with `ID_LIKE=`.
                    if has_prefix(line@, id_like_key()) {
                        assert(line@.take(3)[2] == '=');
                        assert(line@.take(8)[2] == '_');
                    }
                }
            } else if starts_with(line, like_k) {
                let cs = chars_of(line);
                let rest = string_of(&cs, 8, cs.len());
                assert(rest@ =~= line@.skip(8));
                id_like = unquote(rest.as_str());
            }
            i = i + 1;
        }
        assert(ls.deep_view().take(i as int) =~= ls.deep_view());
        let family = classify(id.as_str(), id_like.as_str());
        Platform { family, id }
    }

    /// systemd unit name for the SSH daemon.
    pub fn ssh_service(&self) -> (r: &'static str)
        ensures
            r@ == (if self.family == DistroFamily::Debian {
                "ssh"@
            } else {
                "sshd"@
            }),
    {
        match self.family {
            DistroFamily::Debian => "ssh",
            _ => "sshd",
        }
    }

    /// System package manager command, if known.
    pub fn package_manager(&self) -> (r: Option<&'static str>)
        ensures
            r matches Some(m) ==> m@ == spec_package_manager(self.family),
            r is None <==> self.family == DistroFamily::Unknown,
    {
        match self.family {
            DistroFamily::Debian => Some("apt-get"),
            DistroFamily::Rhel => Some("dnf"),
            DistroFamily::Arch => Some("pacman"),
            DistroFamily::Suse => Some("zypper"),
            DistroFamily::Unknown => None,
        }
    }
}

/// The package manager command of a known family.
pub open spec fn spec_package_manager(f: DistroFamily) -> Seq<char> {
    match f {
        DistroFamily::Debian => "apt-get"@,
        DistroFamily::Rhel => "dnf"@,
        DistroFamily::Arch => "pacman"@,
        DistroFamily::Suse => "zypper"@,
        DistroFamily::Unknown => Seq::empty(),
    }
}

} // verus!
