//! Agentless remote execution over SSH: the shell commands that carry
//! command runs and file operations, and what their results mean.
//!
//! Commands go over an exec channel and file IO uses small shell commands
//! (cat / base64 / mv / rm / test), so no agent or SFTP subsystem is needed
//! on the target. Every interpolated value is single-quoted by [`quote`].

use vstd::prelude::*;

use base64::Engine;

use crate::platform::Platform;
use crate::text::{chars_of, find_char, owned, push_char, push_str};
use crate::types::{Error, ErrorV, Output};

verus! {

// ---------------------------------------------------------------------------
// Quoting
// ---------------------------------------------------------------------------

/// `s` with every `'` replaced by `'\''`.
pub open spec fn escape_quotes(s: Seq<char>) -> Seq<char>
    decreases s.len(),
{
    if s.len() == 0 {
        Seq::empty()
    } else {
        (if s[0] == '\'' {
            seq!['\'', '\\', '\'', '\'']
        } else {
            seq![s[0]]
        }) + escape_quotes(s.drop_first())
    }
}

/// POSIX single-quoting: `'`, the escaped text, `'`.
pub open spec fn spec_quote(s: Seq<char>) -> Seq<char> {
    seq!['\''] + escape_quotes(s) + seq!['\'']
}

/// POSIX single-quote a string for safe shell interpolation.
pub fn quote(s: &str) -> (r: String)
    ensures
        r@ == spec_quote(s@),
{
    let cs = chars_of(s);
    let mut r = String::new();
    push_char(&mut r, '\'');
    let mut i: usize = 0;
    assert(s@.skip(0) =~= s@);
    assert(spec_quote(s@).drop_last() =~= r@ + escape_quotes(s@));
    while i < cs.len()
        invariant
            cs@ == s@,
            i <= cs@.len(),
            r@ + escape_quotes(s@.skip(i as int)) == spec_quote(s@).drop_last(),
        decreases cs@.len() - i,
    {
        let ghost rest = s@.skip(i as int);
        proof {
            assert(rest.drop_first() =~= s@.skip(i + 1));
            assert(rest[0] == cs@[i as int]);
        }
        if cs[i] == '\'' {
            push_char(&mut r, '\'');
            push_char(&mut r, '\\');
            push_char(&mut r, '\'');
            push_char(&mut r, '\'');
        } else {
            push_char(&mut r, cs[i]);
        }
        proof {
            let piece = if rest[0] == '\'' {
                seq!['\'', '\\', '\'', '\'']
            } else {
                seq![rest[0]]
            };
            assert(escape_quotes(rest) == piece + escape_quotes(s@.skip(i + 1)));
        }
        i = i + 1;
    }
    proof {
        assert(s@.skip(i as int).len() == 0);
        assert(escape_quotes(s@.skip(i as int)) =~= Seq::<char>::empty());
        assert(spec_quote(s@) =~= spec_quote(s@).drop_last().push('\''));
    }
    push_char(&mut r, '\'');
    r
}

/// What a POSIX shell makes of a word built only from single-quoted
/// segments and backslash escapes; `None` for anything else.
pub open spec fn sh_unquote(t: Seq<char>) -> Option<Seq<char>>
    decreases t.len(),
{
    if t.len() == 0 {
        Some(Seq::empty())
    } else if t[0] == '\'' {
        let body = t.drop_first();
        let k = find_char(body, '\'');
        if k >= body.len() {
            None
        } else {
            match sh_unquote(body.skip(k as int + 1)) {
                Some(rest) => Some(body.take(k as int) + rest),
                None => None,
            }
        }
    } else if t[0] == '\\' && t.len() >= 2 {
        match sh_unquote(t.skip(2)) {
            Some(rest) => Some(seq![t[1]] + rest),
            None => None,
        }
    } else {
        None
    }
}

proof fn lemma_escape_concat(a: Seq<char>, b: Seq<char>)
    ensures
        escape_quotes(a + b) == escape_quotes(a) + escape_quotes(b),
    decreases a.len(),
{
    if a.len() == 0 {
        assert(a + b =~= b);
    } else {
        assert((a + b).drop_first() =~= a.drop_first() + b);
        lemma_escape_concat(a.drop_first(), b);
        assert((a + b)[0] == a[0]);
    }
}

proof fn lemma_escape_plain(a: Seq<char>)
    requires
        forall|j: int| 0 <= j < a.len() ==> #[trigger] a[j] != '\'',
    ensures
        escape_quotes(a) == a,
    decreases a.len(),
{
    if a.len() > 0 {
        assert forall|j: int| 0 <= j < a.drop_first().len() implies #[trigger] a.drop_first()[j] != '\'' by {
            assert(a.drop_first()[j] == a[j + 1]);
        }
        lemma_escape_plain(a.drop_first());
        assert(a =~= seq![a[0]] + a.drop_first());
    }
}

/// Unquoting a quoted word followed by more words gives back the quoted text
/// followed by the rest.
proof fn lemma_unquote_quoted(s: Seq<char>, rest: Seq<char>)
    requires
        sh_unquote(rest) is Some,
    ensures
        sh_unquote(spec_quote(s) + rest) == Some(s + sh_unquote(rest)->Some_0),
    decreases s.len(),
{
    crate::text::lemma_find_char_props(s, '\'');
    let k = find_char(s, '\'');
    let r = sh_unquote(rest)->Some_0;
    if k >= s.len() {
        lemma_escape_plain(s);
        let t = spec_quote(s) + rest;
        let body = t.drop_first();
        assert(body =~= s + seq!['\''] + rest);
        assert forall|j: int| 0 <= j < s.len() implies #[trigger] body[j] != '\'' by {
            assert(body[j] == s[j]);
        }
        crate::text::lemma_find_char(body, '\'', s.len() as int);
        assert(body.take(s.len() as int) =~= s);
        assert(body.skip(s.len() as int + 1) =~= rest);
    } else {
        let a = s.take(k as int);
        let b = s.skip(k as int + 1);
        let q = seq!['\''];
        let esc = seq!['\'', '\\', '\'', '\''];
        assert(escape_quotes(s) == a + esc + escape_quotes(b)) by {
            assert(s =~= a + (q + b));
            assert forall|j: int| 0 <= j < a.len() implies #[trigger] a[j] != '\'' by {}
            lemma_escape_plain(a);
            lemma_escape_concat(a, q + b);
            lemma_escape_concat(q, b);
            assert(q.drop_first() =~= Seq::<char>::empty());
            assert(escape_quotes(Seq::<char>::empty()) =~= Seq::<char>::empty());
            assert(escape_quotes(q) =~= esc);
            assert(a + (esc + escape_quotes(b)) =~= a + esc + escape_quotes(b));
        }
        lemma_unquote_quoted(b, rest);
        let tail = spec_quote(b) + rest;
        let t = spec_quote(s) + rest;
        let body = t.drop_first();
        assert(body =~= a + q + seq!['\\', '\''] + tail);
        assert forall|j: int| 0 <= j < a.len() implies #[trigger] body[j] != '\'' by {
            assert(body[j] == a[j]);
        }
        crate::text::lemma_find_char(body, '\'', a.len() as int);
        assert(body.take(a.len() as int) =~= a);
        let after = body.skip(a.len() as int + 1);
        assert(after =~= seq!['\\', '\''] + tail);
        assert(after.skip(2) =~= tail);
        assert(sh_unquote(after) == Some(seq!['\''] + (b + r)));
        assert(s =~= a + q + b);
        assert(a + (seq!['\''] + (b + r)) =~= s + r);
    }
}

/// Law: a quoted value reads back, through the shell, as exactly itself.
pub proof fn law_quote_round_trip(s: Seq<char>)
    ensures
        sh_unquote(spec_quote(s)) == Some(s),
{
    lemma_unquote_quoted(s, Seq::empty());
    assert(spec_quote(s) + Seq::<char>::empty() =~= spec_quote(s));
    assert(s + Seq::<char>::empty() =~= s);
}

} // verus!

verus! {

// ---------------------------------------------------------------------------
// Outside calls
// ---------------------------------------------------------------------------

/// The digit for a six-bit value in the standard base64 alphabet:
/// `A`-`Z`, `a`-`z`, `0`-`9`, `+`, `/`.
pub open spec fn base64_digit(v: int) -> char {
    if v < 26 {
        (65 + v) as char
    } else if v < 52 {
        (97 + (v - 26)) as char
    } else if v < 62 {
        (48 + (v - 52)) as char
    } else if v == 62 {
        '+'
    } else {
        '/'
    }
}

/// Standard base64 with `=` padding (RFC 4648): each group of three bytes
/// becomes four digits, and a last group of one or two bytes becomes two or
/// three digits padded with `=` to four.
pub open spec fn base64_standard(b: Seq<u8>) -> Seq<char>
    decreases b.len(),
{
    if b.len() == 0 {
        Seq::empty()
    } else if b.len() == 1 {
        seq![base64_digit(b[0] as int / 4), base64_digit((b[0] as int % 4) * 16), '=', '=']
    } else if b.len() == 2 {
        seq![
            base64_digit(b[0] as int / 4),
            base64_digit((b[0] as int % 4) * 16 + b[1] as int / 16),
            base64_digit((b[1] as int % 16) * 4),
            '=',
        ]
    } else {
        seq![
            base64_digit(b[0] as int / 4),
            base64_digit((b[0] as int % 4) * 16 + b[1] as int / 16),
            base64_digit((b[1] as int % 16) * 4 + b[2] as int / 64),
            base64_digit(b[2] as int % 64),
        ] + base64_standard(b.skip(3))
    }
}

/// Calls `base64::engine::general_purpose::STANDARD.encode(bytes)`: the
/// contract claims that the text is the standard padded base64 encoding of
/// the bytes. `requires` keeps out inputs whose encoded length overflows
/// `usize`, on which the crate panics.
#[verifier::external_body]
fn encode_base64(bytes: &[u8]) -> (r: String)
    requires
        4 * ((bytes@.len() + 2) / 3) <= usize::MAX,
    ensures
        r@ == base64_standard(bytes@),
{
    base64::engine::general_purpose::STANDARD.encode(bytes)
}

/// The directory part of a path as `std::path::Path::parent` gives it, on
/// the Unix targets this crate is built for.
pub uninterp spec fn path_parent(path: Seq<char>) -> Option<Seq<char>>;

/// Calls `std::path::Path::parent` on `path`. The contract claims only that
/// the result is the named parent.
#[verifier::external_body]
fn parent_dir(path: &str) -> (r: Option<String>)
    ensures
        r.deep_view() == path_parent(path@),
{
    std::path::Path::new(path).parent().map(|d| d.to_string_lossy().into_owned())
}

/// The text `String::from_utf8_lossy` makes of `bytes`: the UTF-8 decoding,
/// with each invalid sequence replaced by U+FFFD.
pub uninterp spec fn utf8_lossy(bytes: Seq<u8>) -> Seq<char>;

/// Calls `String::from_utf8_lossy`. The contract claims that the text is
/// the named decoding of the bytes and, as the documentation says, that
/// valid UTF-8 is decoded as it is. How invalid sequences are replaced is
/// left to the name.
#[verifier::external_body]
fn decode_lossy(bytes: &[u8]) -> (r: String)
    ensures
        r@ == utf8_lossy(bytes@),
        vstd::utf8::valid_utf8(bytes@) ==> r@ == vstd::utf8::decode_utf8(bytes@),
{
    String::from_utf8_lossy(bytes).into_owned()
}

// ---------------------------------------------------------------------------
// Commands
// ---------------------------------------------------------------------------

/// Each argument as ` 'arg'`.
pub open spec fn quoted_args(args: Seq<Seq<char>>) -> Seq<char>
    decreases args.len(),
{
    if args.len() == 0 {
        Seq::empty()
    } else {
        quoted_args(args.drop_last()) + seq![' '] + spec_quote(args.last())
    }
}

/// The remote command line for a run: the program, then each argument
/// single-quoted.
pub fn remote_command(command: &str, args: &Vec<String>) -> (r: String)
    ensures
        r@ == command@ + quoted_args(args.deep_view()),
{
    let mut cmd = owned(command);
    let mut i: usize = 0;
    assert(args.deep_view().take(0) =~= Seq::<Seq<char>>::empty());
    while i < args.len()
        invariant
            i <= args@.len(),
            cmd@ == command@ + quoted_args(args.deep_view().take(i as int)),
        decreases args@.len() - i,
    {
        push_char(&mut cmd, ' ');
        let q = quote(args[i].as_str());
        push_str(&mut cmd, q.as_str());
        proof {
            assert(args.deep_view().take(i + 1).drop_last() =~= args.deep_view().take(i as int));
        }
        i = i + 1;
    }
    assert(args.deep_view().take(i as int) =~= args.deep_view());
    cmd
}

/// `PREFIX 'PATH'`.
fn prefixed(prefix: &str, path: &str) -> (r: String)
    ensures
        r@ == prefix@ + spec_quote(path@),
{
    let mut c = owned(prefix);
    let q = quote(path);
    push_str(&mut c, q.as_str());
    c
}

/// `cat -- 'PATH'`.
pub fn read_command(path: &str) -> (r: String)
    ensures
        r@ == "cat -- "@ + spec_quote(path@),
{
    prefixed("cat -- ", path)
}

/// `rm -f -- 'PATH'`.
pub fn remove_command(path: &str) -> (r: String)
    ensures
        r@ == "rm -f -- "@ + spec_quote(path@),
{
    prefixed("rm -f -- ", path)
}

/// `test -e 'PATH'`.
pub fn exists_command(path: &str) -> (r: String)
    ensures
        r@ == "test -e "@ + spec_quote(path@),
{
    prefixed("test -e ", path)
}

/// `mv -- 'FROM' 'TO'`.
pub fn rename_command(from: &str, to: &str) -> (r: String)
    ensures
        r@ == "mv -- "@ + spec_quote(from@) + " "@ + spec_quote(to@),
{
    let mut c = prefixed("mv -- ", from);
    push_str(&mut c, " ");
    let q = quote(to);
    push_str(&mut c, q.as_str());
    c
}

/// The write command for a file whose directory is `parent`: create the
/// directory, then decode the body from base64 into the file.
pub open spec fn spec_write_command_in(parent: Option<Seq<char>>, path: Seq<char>, body_bytes: Seq<u8>) -> Seq<char> {
    let mkdir = match parent {
        Some(d) => "mkdir -p "@ + spec_quote(d) + " && "@,
        None => Seq::empty(),
    };
    mkdir + "printf %s "@ + spec_quote(base64_standard(body_bytes)) + " | base64 -d > "@ + spec_quote(path)
}

/// The write command for `path`, in its own parent directory.
pub open spec fn spec_write_command(path: Seq<char>, body_bytes: Seq<u8>) -> Seq<char> {
    spec_write_command_in(path_parent(path), path, body_bytes)
}

/// `[mkdir -p 'PARENT' && ]printf %s 'BASE64' | base64 -d > 'PATH'`, for
/// the directory `parent` of `path`.
pub fn write_command_in(parent: &Option<String>, path: &str, body: &str) -> (r: String)
    requires
        4 * ((vstd::utf8::encode_utf8(body@).len() + 2) / 3) <= usize::MAX,
    ensures
        r@ == spec_write_command_in(parent.deep_view(), path@, vstd::utf8::encode_utf8(body@)),
{
    let b64 = encode_base64(body.as_bytes());
    let mut cmd = match parent {
        Some(d) => {
            let mut m = prefixed("mkdir -p ", d.as_str());
            push_str(&mut m, " && ");
            m
        },
        None => String::new(),
    };
    push_str(&mut cmd, "printf %s ");
    let q = quote(b64.as_str());
    push_str(&mut cmd, q.as_str());
    push_str(&mut cmd, " | base64 -d > ");
    let p = quote(path);
    push_str(&mut cmd, p.as_str());
    cmd
}

/// `[mkdir -p 'DIR' && ]printf %s 'BASE64' | base64 -d > 'PATH'`, where DIR
/// is the parent of `path`.
pub fn write_command(path: &str, body: &str) -> (r: String)
    requires
        4 * ((vstd::utf8::encode_utf8(body@).len() + 2) / 3) <= usize::MAX,
    ensures
        r@ == spec_write_command(path@, vstd::utf8::encode_utf8(body@)),
{
    let parent = parent_dir(path);
    write_command_in(&parent, path, body)
}

// ---------------------------------------------------------------------------
// Results
// ---------------------------------------------------------------------------

/// A read: the text when `cat` succeeded, nothing otherwise.
pub fn read_result(out: &Output) -> (r: Option<String>)
    ensures
        r.deep_view() == (if out.code == 0 {
            Some(out.stdout@)
        } else {
            None::<Seq<char>>
        }),
{
    if out.success() {
        Some(owned(out.stdout.as_str()))
    } else {
        None
    }
}

/// A command that must succeed: nothing on exit 0, else the command's error.
pub fn check(out: &Output, cmd: &str) -> (r: Result<(), Error>)
    ensures
        out.code == 0 ==> r is Ok,
        out.code != 0 ==> (r matches Err(e) && e.deep_view() == (ErrorV::Command {
            command: cmd@,
            code: out.code,
            stderr: out.stderr@,
        })),
{
    if out.success() {
        Ok(())
    } else {
        Err(Error::Command { command: owned(cmd), code: out.code, stderr: owned(out.stderr.as_str()) })
    }
}

/// What `cat /etc/os-release` printed, or nothing when it could not run.
pub open spec fn os_release_text(out: Option<Output>) -> Seq<char> {
    match out {
        Some(o) => o.stdout@,
        None => Seq::empty(),
    }
}

/// The remote platform from what `cat /etc/os-release` printed, if it ran.
pub fn platform_of(out: &Option<Output>) -> (r: Platform)
    ensures
        r.id@ == crate::platform::os_release_value(os_release_text(*out), crate::platform::id_key()),
        r.family == crate::platform::spec_classify(
            crate::platform::os_release_value(os_release_text(*out), crate::platform::id_key()),
            crate::platform::os_release_value(os_release_text(*out), crate::platform::id_like_key()),
        ),
{
    let text = match out {
        Some(o) => owned(o.stdout.as_str()),
        None => String::new(),
    };
    Platform::from_os_release(text.as_str())
}

// ---------------------------------------------------------------------------
// Collecting a command's output
// ---------------------------------------------------------------------------

/// One message on an exec channel.
#[derive(Debug, Clone)]
pub enum ExecEvent {
    /// Standard output bytes.
    Data(Vec<u8>),
    /// Extended data; stream 1 is standard error.
    ExtendedData { data: Vec<u8>, ext: u32 },
    /// The command's exit status.
    ExitStatus(u32),
    /// Anything else (end of file, close, ...).
    Other,
}

/// What a channel has delivered so far: exit code (-1 until one arrives),
/// standard output and standard error bytes.
#[derive(Debug, Clone)]
pub struct ExecCollector {
    pub code: i32,
    pub stdout: Vec<u8>,
    pub stderr: Vec<u8>,
}

/// The collector after one more event.
pub open spec fn collect_step(code: i32, stdout: Seq<u8>, stderr: Seq<u8>, ev: ExecEvent) -> (i32, Seq<u8>, Seq<u8>) {
    match ev {
        ExecEvent::Data(d) => (code, stdout + d@, stderr),
        ExecEvent::ExtendedData { data, ext } => if ext == 1 {
            (code, stdout, stderr + data@)
        } else {
            (code, stdout, stderr)
        },
        ExecEvent::ExitStatus(s) => (s as i32, stdout, stderr),
        ExecEvent::Other => (code, stdout, stderr),
    }
}

impl ExecCollector {
    /// Nothing received yet.
    pub fn new() -> (r: Self)
        ensures
            r.code == -1,
            r.stdout@.len() == 0,
            r.stderr@.len() == 0,
    {
        ExecCollector { code: -1, stdout: Vec::new(), stderr: Vec::new() }
    }

    /// Take one channel message into account.
    pub fn observe(&mut self, ev: ExecEvent)
        ensures
            (final(self).code, final(self).stdout@, final(self).stderr@) == collect_step(
                old(self).code,
                old(self).stdout@,
                old(self).stderr@,
                ev,
            ),
    {
        match ev {
            ExecEvent::Data(d) => {
                let mut d = d;
                self.stdout.append(&mut d);
            },
            ExecEvent::ExtendedData { data, ext } => {
                if ext == 1 {
                    let mut d = data;
                    self.stderr.append(&mut d);
                }
            },
            ExecEvent::ExitStatus(s) => {
                self.code = s as i32;
            },
            ExecEvent::Other => {},
        }
    }

    /// The command's output, the bytes decoded as lossy UTF-8.
    pub fn finish(self) -> (r: Output)
        ensures
            r.code == self.code,
            r.stdout@ == utf8_lossy(self.stdout@),
            r.stderr@ == utf8_lossy(self.stderr@),
            vstd::utf8::valid_utf8(self.stdout@) ==> r.stdout@ == vstd::utf8::decode_utf8(self.stdout@),
            vstd::utf8::valid_utf8(self.stderr@) ==> r.stderr@ == vstd::utf8::decode_utf8(self.stderr@),
    {
        let stdout = decode_lossy(self.stdout.as_slice());
        let stderr = decode_lossy(self.stderr.as_slice());
        Output { code: self.code, stdout, stderr }
    }
}

/// How to authenticate to a host.
#[derive(Debug, Clone)]
pub enum Auth {
    Password(String),
}

} // verus!
