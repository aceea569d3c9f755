//! The decisions around the yt-dlp sidecar process: which version it runs, which
//! line announces where it listens, how the cookies file travels to it, and what its
//! failures say.
//!
//! Spawning the process, talking HTTP to it and reading the cookies file happen
//! outside the library; what they hand over is plain text and bytes.

use vstd::prelude::*;
use vstd::string::*;
use crate::utils::text::{chars_of, decimal, decimal_string, parse_u64_chars, parse_unsigned, same_text};
use base64::Engine;

verus! {

/// The pieces of `s` between dots, as `str::split('.')` yields them: one more piece
/// than there are dots, empty pieces included.
pub open spec fn split_dots(s: Seq<char>) -> Seq<Seq<char>>
    decreases s.len(),
{
    if s.len() == 0 {
        seq![Seq::<char>::empty()]
    } else if s.last() == '.' {
        split_dots(s.drop_last()).push(Seq::<char>::empty())
    } else {
        let parts = split_dots(s.drop_last());
        parts.update(parts.len() - 1, parts.last().push(s.last()))
    }
}

/// The numbers of a version whose every dot-separated piece reads as a `u64`, or
/// `None` when one piece does not.
pub open spec fn numeric_version(v: Seq<char>) -> Option<Seq<nat>> {
    let parts = split_dots(v);
    if forall|i: int| 0 <= i < parts.len() ==> #[trigger] parse_unsigned(parts[i], u64::MAX as nat) is Some {
        Some(parts.map_values(|p: Seq<char>| parse_unsigned(p, u64::MAX as nat)->0))
    } else {
        None
    }
}

/// Whether two version texts name the same release: compared piece by piece as
/// numbers when both are numeric, so zero padding does not matter, and as text
/// otherwise.
pub open spec fn same_release(a: Seq<char>, b: Seq<char>) -> bool {
    match (numeric_version(a), numeric_version(b)) {
        (Some(x), Some(y)) => x == y,
        _ => a == b,
    }
}

/// Law: naming the same release is an equivalence: every version names its own
/// release, the relation is symmetric, and it is transitive.
pub proof fn same_release_is_an_equivalence(a: Seq<char>, b: Seq<char>, c: Seq<char>)
    ensures
        same_release(a, a),
        same_release(a, b) == same_release(b, a),
        same_release(a, b) && same_release(b, c) ==> same_release(a, c),
{
}

/// The numbers of `v`'s dot-separated pieces, when each reads as a `u64`.
fn numeric_pieces(v: &str) -> (r: Option<Vec<u64>>)
    ensures
        match r {
            Some(vals) => numeric_version(v@) == Some(vals@.map_values(|x: u64| x as nat)),
            None => numeric_version(v@) is None,
        },
{
    let ghost text = v@;
    let n = v.unicode_len();
    let mut vals: Vec<u64> = Vec::new();
    let mut cur: Vec<char> = Vec::new();
    let mut all_ok: bool = true;
    let mut pos: usize = 0;
    proof {
        assert(text.take(0) =~= Seq::<char>::empty());
    }
    for c in it: v.chars()
        invariant
            text == v@,
            n == text.len(),
            it.seq() == text,
            pos == it.index(),
            pos <= text.len(),
            split_dots(text.take(pos as int)).len() == vals@.len() + 1,
            cur@ == split_dots(text.take(pos as int)).last(),
            all_ok == (forall|i: int| 0 <= i < vals@.len() ==>
                #[trigger] parse_unsigned(split_dots(text.take(pos as int))[i], u64::MAX as nat) is Some),
            all_ok ==> forall|i: int| 0 <= i < vals@.len() ==>
                parse_unsigned(split_dots(text.take(pos as int))[i], u64::MAX as nat)
                    == Some(#[trigger] vals@[i] as nat),
    {
        let ghost prefix = text.take(pos as int);
        let ghost before = split_dots(prefix);
        proof {
            assert(text.take(pos + 1).drop_last() =~= prefix);
            assert(text.take(pos + 1).last() == c);
        }
        let ghost cur_before = cur@;
        let ghost all_ok_before = all_ok;
        if c == '.' {
            let parsed = parse_u64_chars(&cur);
            match parsed {
                Some(n) => {
                    vals.push(if all_ok { n } else { 0 });
                },
                None => {
                    vals.push(0);
                    all_ok = false;
                },
            }
            cur = Vec::new();
            proof {
                let after = split_dots(text.take(pos + 1));
                assert(after == before.push(Seq::<char>::empty()));
                assert(after[vals@.len() - 1] == cur_before);
                assert forall|i: int| 0 <= i < vals@.len() - 1 implies #[trigger] after[i] == before[i] by {}
                if all_ok {
                    assert forall|i: int| 0 <= i < vals@.len() implies
                        parse_unsigned(after[i], u64::MAX as nat) == Some(#[trigger] vals@[i] as nat) by {
                        if i < vals@.len() - 1 {
                            assert(after[i] == before[i]);
                        }
                    }
                } else {
                    if all_ok_before {
                        assert(parse_unsigned(after[vals@.len() - 1], u64::MAX as nat) is None);
                    } else {
                        let k = choose|k: int| 0 <= k < vals@.len() - 1 &&
                            !(parse_unsigned(before[k], u64::MAX as nat) is Some);
                        assert(after[k] == before[k]);
                    }
                }
            }
        } else {
            cur.push(c);
            proof {
                let after = split_dots(text.take(pos + 1));
                assert(after == before.update(before.len() - 1, before.last().push(c)));
                assert(cur@ =~= after.last());
                assert forall|i: int| 0 <= i < vals@.len() implies #[trigger] after[i] == before[i] by {}
                if !all_ok {
                    let k = choose|k: int| 0 <= k < vals@.len() &&
                        !(parse_unsigned(before[k], u64::MAX as nat) is Some);
                    assert(after[k] == before[k]);
                }
            }
        }
        pos = pos + 1;
    }
    proof {
        assert(text.take(pos as int) =~= text);
    }
    let last = parse_u64_chars(&cur);
    let ghost parts = split_dots(text);
    match last {
        Some(n) => {
            if all_ok {
                vals.push(n);
                proof {
                    assert forall|i: int| 0 <= i < parts.len() implies
                        #[trigger] parse_unsigned(parts[i], u64::MAX as nat) is Some by {
                        if i < parts.len() - 1 {
                            assert(parse_unsigned(parts[i], u64::MAX as nat) == Some(vals@[i] as nat));
                        }
                    }
                    assert(parts.map_values(|p: Seq<char>| parse_unsigned(p, u64::MAX as nat)->0)
                        =~= vals@.map_values(|x: u64| x as nat));
                }
                Some(vals)
            } else {
                None
            }
        },
        None => {
            proof {
                assert(parse_unsigned(parts[parts.len() - 1], u64::MAX as nat) is None);
            }
            None
        },
    }
}

/// Whether two version strings name the same yt-dlp release. yt-dlp's own
/// `__version__` keeps the zero padding of its release tag (`2026.07.04`) where the
/// package index reports it normalized (`2026.7.4`), so numeric pieces compare as
/// numbers; a version with a non-numeric piece compares as text.
pub fn same_version(a: &str, b: &str) -> (r: bool)
    ensures
        r == same_release(a@, b@),
{
    match (numeric_pieces(a), numeric_pieces(b)) {
        (Some(x), Some(y)) => {
            if x.len() != y.len() {
                proof {
                    assert(x@.map_values(|v: u64| v as nat).len() != y@.map_values(|v: u64| v as nat).len());
                }
                return false;
            }
            let mut i: usize = 0;
            while i < x.len()
                invariant
                    numeric_version(a@) == Some(x@.map_values(|v: u64| v as nat)),
                    numeric_version(b@) == Some(y@.map_values(|v: u64| v as nat)),
                    x.len() == y.len(),
                    i <= x.len(),
                    forall|j: int| 0 <= j < i ==> x@[j] == y@[j],
                decreases x.len() - i,
            {
                if x[i] != y[i] {
                    proof {
                        assert(x@.map_values(|v: u64| v as nat)[i as int] != y@.map_values(|v: u64| v as nat)[i as int]);
                    }
                    return false;
                }
                i = i + 1;
            }
            proof {
                assert(x@.map_values(|v: u64| v as nat) =~= y@.map_values(|v: u64| v as nat));
            }
            true
        },
        _ => same_text(a, b),
    }
}

/// A character with the Unicode `White_Space` property, which is what
/// `char::is_whitespace` tests.
pub open spec fn unicode_space(c: char) -> bool {
    ||| '\u{9}' <= c <= '\u{d}'
    ||| c == ' '
    ||| c == '\u{85}'
    ||| c == '\u{a0}'
    ||| c == '\u{1680}'
    ||| '\u{2000}' <= c <= '\u{200a}'
    ||| c == '\u{2028}'
    ||| c == '\u{2029}'
    ||| c == '\u{202f}'
    ||| c == '\u{205f}'
    ||| c == '\u{3000}'
}

/// `s` without its leading whitespace.
pub open spec fn trim_start(s: Seq<char>) -> Seq<char>
    decreases s.len(),
{
    if s.len() > 0 && unicode_space(s[0]) { trim_start(s.drop_first()) } else { s }
}

/// `s` without its trailing whitespace.
pub open spec fn trim_end(s: Seq<char>) -> Seq<char>
    decreases s.len(),
{
    if s.len() > 0 && unicode_space(s.last()) { trim_end(s.drop_last()) } else { s }
}

/// `s` without whitespace at either end, as `str::trim` leaves it.
pub open spec fn trimmed(s: Seq<char>) -> Seq<char> {
    trim_end(trim_start(s))
}

/// The tag that the sidecar's first line starts with.
pub open spec fn announcement_tag() -> Seq<char> {
    seq!['P', 'O', 'R', 'T', '=']
}

/// The number the sidecar announces on its first line: the trimmed line must start
/// with the announcement tag, and the rest must read as a `u16`.
pub open spec fn announced_number(line: Seq<char>) -> Option<nat> {
    let t = trimmed(line);
    if t.len() >= 5 && t.take(5) == announcement_tag() {
        parse_unsigned(t.skip(5), u16::MAX as nat)
    } else {
        None
    }
}

/// Whether `c` is whitespace.
pub fn is_space(c: char) -> (r: bool)
    ensures
        r == unicode_space(c),
{
    ('\u{9}' <= c && c <= '\u{d}') || c == ' ' || c == '\u{85}' || c == '\u{a0}' || c == '\u{1680}'
        || ('\u{2000}' <= c && c <= '\u{200a}') || c == '\u{2028}' || c == '\u{2029}'
        || c == '\u{202f}' || c == '\u{205f}' || c == '\u{3000}'
}

proof fn lemma_trim_start_skip(s: Seq<char>, k: int)
    requires
        0 <= k <= s.len(),
        forall|i: int| 0 <= i < k ==> unicode_space(#[trigger] s[i]),
    ensures
        trim_start(s) == trim_start(s.skip(k)),
    decreases k,
{
    if k > 0 {
        assert(s.drop_first().skip(k - 1) =~= s.skip(k));
        lemma_trim_start_skip(s.drop_first(), k - 1);
    } else {
        assert(s.skip(0) =~= s);
    }
}

proof fn lemma_trim_end_take(s: Seq<char>, k: int)
    requires
        0 <= k <= s.len(),
        forall|i: int| k <= i < s.len() ==> unicode_space(#[trigger] s[i]),
    ensures
        trim_end(s) == trim_end(s.take(k)),
    decreases s.len() - k,
{
    if k < s.len() {
        assert(s.drop_last().take(k) =~= s.take(k));
        lemma_trim_end_take(s.drop_last(), k);
    } else {
        assert(s.take(k) =~= s);
    }
}

/// The bounds of `cs` without the whitespace at either end.
fn trim_bounds(cs: &Vec<char>) -> (r: (usize, usize))
    ensures
        r.0 <= r.1 <= cs@.len(),
        cs@.subrange(r.0 as int, r.1 as int) == trimmed(cs@),
{
    let mut start: usize = 0;
    while start < cs.len() && is_space(cs[start])
        invariant
            start <= cs.len(),
            forall|i: int| 0 <= i < start ==> unicode_space(#[trigger] cs@[i]),
        decreases cs.len() - start,
    {
        start = start + 1;
    }
    let ghost front = cs@.skip(start as int);
    proof {
        lemma_trim_start_skip(cs@, start as int);
        assert(trim_start(front) == front);
    }
    let mut end: usize = cs.len();
    while end > start && is_space(cs[end - 1])
        invariant
            start <= end <= cs.len(),
            forall|i: int| end <= i < cs.len() ==> unicode_space(#[trigger] cs@[i]),
        decreases end,
    {
        end = end - 1;
    }
    let ghost t = cs@.subrange(start as int, end as int);
    proof {
        lemma_trim_end_take(front, end - start);
        assert(front.take(end - start) =~= t);
        if t.len() > 0 {
            assert(!unicode_space(t.last()));
        }
    }
    (start, end)
}

/// `s` without the whitespace at either end.
pub fn trim_text(s: &str) -> (r: String)
    ensures
        r@ == trimmed(s@),
{
    let cs = chars_of(s);
    let (start, end) = trim_bounds(&cs);
    s.substring_char(start, end).to_owned()
}

/// The number announced by the sidecar's first line, whitespace around it allowed;
/// `None` for any other line.
pub fn parse_announcement(line: &str) -> (r: Option<u16>)
    ensures
        match r {
            Some(n) => announced_number(line@) == Some(n as nat),
            None => announced_number(line@) is None,
        },
{
    let cs = chars_of(line);
    let (start, end) = trim_bounds(&cs);
    let ghost t = cs@.subrange(start as int, end as int);
    if end - start < 5 || cs[start] != 'P' || cs[start + 1] != 'O' || cs[start + 2] != 'R'
        || cs[start + 3] != 'T' || cs[start + 4] != '=' {
        proof {
            if t.len() >= 5 && t.take(5) == announcement_tag() {
                assert(t.take(5)[0] == 'P' && t.take(5)[1] == 'O' && t.take(5)[2] == 'R');
                assert(t.take(5)[3] == 'T' && t.take(5)[4] == '=');
            }
        }
        return None;
    }
    proof {
        assert(t.take(5) =~= announcement_tag());
    }
    let mut body: Vec<char> = Vec::new();
    let mut i: usize = start + 5;
    while i < end
        invariant
            start + 5 <= i <= end <= cs.len(),
            body@ == cs@.subrange(start + 5, i as int),
        decreases end - i,
    {
        body.push(cs[i]);
        proof {
            assert(body@ =~= cs@.subrange(start + 5, i + 1));
        }
        i = i + 1;
    }
    proof {
        assert(body@ =~= t.skip(5));
    }
    match parse_u64_chars(&body) {
        Some(v) => {
            if v <= 65535 {
                Some(v as u16)
            } else {
                None
            }
        },
        None => None,
    }
}

/// The character of the standard base64 alphabet for the six-bit value `v`.
pub open spec fn base64_digit(v: int) -> char {
    if v < 26 {
        ('A' as int + v) as char
    } else if v < 52 {
        ('a' as int + (v - 26)) as char
    } else if v < 62 {
        ('0' as int + (v - 52)) as char
    } else if v == 62 {
        '+'
    } else {
        '/'
    }
}

/// RFC 4648 base64 of `b` with the standard alphabet: each group of three bytes as
/// four characters, and a last group of one or two bytes padded with `=`.
pub open spec fn base64_standard(b: Seq<u8>) -> Seq<char>
    decreases b.len(),
{
    if b.len() == 0 {
        Seq::empty()
    } else if b.len() == 1 {
        let n = b[0] as int;
        seq![base64_digit(n / 4), base64_digit((n % 4) * 16), '=', '=']
    } else if b.len() == 2 {
        let n = b[0] as int * 256 + b[1] as int;
        seq![base64_digit(n / 1024), base64_digit((n / 16) % 64), base64_digit((n % 16) * 4), '=']
    } else {
        let n = b[0] as int * 65536 + b[1] as int * 256 + b[2] as int;
        seq![base64_digit(n / 262144), base64_digit((n / 4096) % 64), base64_digit((n / 64) % 64),
            base64_digit(n % 64)] + base64_standard(b.skip(3))
    }
}

/// Law: the padded encoding of `n` bytes is `4 * ceil(n / 3)` characters long.
pub proof fn base64_length(b: Seq<u8>)
    ensures
        base64_standard(b).len() == 4 * ((b.len() + 2) / 3),
    decreases b.len(),
{
    if b.len() >= 3 {
        base64_length(b.skip(3));
    }
}

/// `Engine::encode` of the `base64` crate on its `BASE64_STANDARD` engine: standard
/// alphabet, padded. The contract claims the result is exactly the padded standard
/// encoding of the bytes; the crate panics only when the encoded length would overflow
/// `usize`, which the `requires` rules out.
#[verifier::external_body]
fn base64_encode(bytes: &[u8]) -> (r: String)
    requires
        bytes@.len() <= usize::MAX / 2,
    ensures
        r@ == base64_standard(bytes@),
{
    base64::prelude::BASE64_STANDARD.encode(bytes)
}

/// What the sidecar is handed of a cookies file: its contents base64-encoded, or
/// nothing when no cookies file is configured.
pub fn encode_cookies(contents: Option<&[u8]>) -> (r: Option<String>)
    requires
        contents matches Some(b) ==> b@.len() <= usize::MAX / 2,
    ensures
        match contents {
            Some(b) => r matches Some(e) && e@ == base64_standard(b@),
            None => r is None,
        },
{
    match contents {
        Some(bytes) => Some(base64_encode(bytes)),
        None => None,
    }
}

/// The arguments the sidecar's interpreter is started with: `-` to read the program
/// from stdin, then the shared secret, the JavaScript runtime argument and the cap on
/// simultaneous extractions.
pub open spec fn sidecar_argv(secret: Seq<char>, bun: Seq<char>, concurrency: u32) -> Seq<Seq<char>> {
    seq!["-"@, "--secret"@, secret, "--bun"@, bun, "--max-concurrency"@, decimal(concurrency as nat)]
}

/// The arguments to start the sidecar's interpreter with.
pub fn sidecar_args(secret: &str, bun: &str, concurrency: u32) -> (r: Vec<String>)
    ensures
        r@.map_values(|a: String| a@) == sidecar_argv(secret@, bun@, concurrency),
{
    let mut args: Vec<String> = Vec::new();
    args.push("-".to_owned());
    args.push("--secret".to_owned());
    args.push(secret.to_owned());
    args.push("--bun".to_owned());
    args.push(bun.to_owned());
    args.push("--max-concurrency".to_owned());
    args.push(decimal_string(concurrency as u64));
    proof {
        assert(args@.map_values(|a: String| a@) =~= sidecar_argv(secret@, bun@, concurrency));
    }
    args
}

/// The base URL of a sidecar listening on loopback at `listen_port`.
pub open spec fn sidecar_base_url(listen_port: u16) -> Seq<char> {
    "http://127.0.0.1:"@ + decimal(listen_port as nat)
}

/// The base URL of a sidecar listening on loopback at `listen_port`.
pub fn sidecar_base(listen_port: u16) -> (r: String)
    ensures
        r@ == sidecar_base_url(listen_port),
{
    let mut s = "http://127.0.0.1:".to_owned();
    let n = decimal_string(listen_port as u64);
    s.append(n.as_str());
    s
}

/// Whole seconds the sidecar has to announce where it listens and pass its health
/// check, both together.
pub const STARTUP_TIMEOUT_SECS: u16 = 30;

/// Whole seconds one extraction may take.
pub const EXTRACT_TIMEOUT_SECS: u16 = 60;

/// Whole seconds an old sidecar gets to finish its requests after a newer one took
/// over, before it is killed.
pub const DRAIN_TIMEOUT_SECS: u16 = 300;

/// What `{:?}` prints of a text: the text in double quotes, with quotes, backslashes
/// and characters that do not print escaped. Named here, not stated.
pub uninterp spec fn debug_quoted(s: Seq<char>) -> Seq<char>;

/// `<str as Debug>::fmt` through `format!("{:?}")`. The contract claims only that the
/// result is the named quoting of `s`; what that quoting is stays unstated.
#[verifier::external_body]
fn debug_text(s: &str) -> (r: String)
    ensures
        r@ == debug_quoted(s@),
{
    format!("{:?}", s)
}

/// Why a sidecar process did not come up. An outside error is held as its message.
#[derive(Debug)]
pub enum SpawnError {
    /// The interpreter could not be run.
    Launch(String),
    /// The program could not be written to the child's stdin.
    WriteScript(String),
    /// The child's stdout could not be read while waiting for its first line.
    ReadPort(String),
    /// The child closed stdout before announcing where it listens.
    NoPort,
    /// The first line was not an announcement.
    BadPortLine { line: String },
    /// The loopback HTTP client could not be built.
    Client(String),
    /// The child was not ready within this many whole seconds.
    Timeout(u16),
}

/// The message of a spawn failure.
pub open spec fn spawn_message(e: SpawnError) -> Seq<char> {
    match e {
        SpawnError::Launch(m) => "failed to launch the sidecar interpreter: "@ + m@,
        SpawnError::WriteScript(m) => "failed to send the sidecar program over stdin: "@ + m@,
        SpawnError::ReadPort(m) => "failed to read the sidecar's port line: "@ + m@,
        SpawnError::NoPort => "sidecar exited before announcing its port"@,
        SpawnError::BadPortLine { line } =>
            "expected a `PORT=<n>` line from the sidecar, got "@ + debug_quoted(line@),
        SpawnError::Client(m) => "failed to build the sidecar http client: "@ + m@,
        SpawnError::Timeout(secs) => "sidecar did not become ready within "@ + decimal(secs as nat),
    }
}

/// `prefix` followed by `text`.
fn joined(prefix: &str, text: &str) -> (r: String)
    ensures
        r@ == prefix@ + text@,
{
    let mut s = prefix.to_owned();
    s.append(text);
    s
}

impl SpawnError {
    /// The failure's message.
    pub fn message(&self) -> (r: String)
        ensures
            r@ == spawn_message(*self),
    {
        match self {
            SpawnError::Launch(m) => joined("failed to launch the sidecar interpreter: ", m.as_str()),
            SpawnError::WriteScript(m) =>
                joined("failed to send the sidecar program over stdin: ", m.as_str()),
            SpawnError::ReadPort(m) => joined("failed to read the sidecar's port line: ", m.as_str()),
            SpawnError::NoPort => "sidecar exited before announcing its port".to_owned(),
            SpawnError::BadPortLine { line } => {
                let q = debug_text(line.as_str());
                joined("expected a `PORT=<n>` line from the sidecar, got ", q.as_str())
            },
            SpawnError::Client(m) => joined("failed to build the sidecar http client: ", m.as_str()),
            SpawnError::Timeout(secs) => {
                let n = decimal_string(*secs as u64);
                joined("sidecar did not become ready within ", n.as_str())
            },
        }
    }
}

/// Why a call to the sidecar failed. An outside error is held as its message.
#[derive(Debug)]
pub enum SidecarError {
    /// No sidecar was started.
    NotStarted,
    /// The HTTP exchange failed.
    Http(String),
    /// A sidecar process did not come up; `stderr` is what it wrote there, if anything.
    Spawn { source: SpawnError, stderr: Option<String> },
    /// Upgrading yt-dlp failed.
    Update(String),
    /// The health answer named no yt-dlp version.
    MissingHealthVersion,
    /// An endpoint answered with a status other than success.
    Endpoint { endpoint: &'static str, status: u16, error: String, kind: Option<String> },
    /// The cookies file at `path` could not be read.
    Cookies { path: String, source: String },
}

/// `text` behind `prefix`, or nothing when there is no text.
pub open spec fn opt_suffix(prefix: Seq<char>, text: Option<String>) -> Seq<char> {
    match text {
        Some(t) => prefix + t@,
        None => Seq::empty(),
    }
}

/// The message of a sidecar failure.
pub open spec fn sidecar_message(e: SidecarError) -> Seq<char> {
    match e {
        SidecarError::NotStarted => "sidecar not started"@,
        SidecarError::Http(m) => "http error: "@ + m@,
        SidecarError::Spawn { source, stderr } =>
            "sidecar spawn failed: "@ + spawn_message(source) + opt_suffix("; sidecar stderr: "@, stderr),
        SidecarError::Update(m) => "yt-dlp update failed: "@ + m@,
        SidecarError::MissingHealthVersion =>
            "sidecar /health response did not include a yt-dlp version"@,
        SidecarError::Endpoint { endpoint, status, error, kind } =>
            "sidecar "@ + endpoint@ + " failed ("@ + decimal(status as nat) + opt_suffix(", "@, kind)
                + "): "@ + error@,
        SidecarError::Cookies { path, source } =>
            "failed to read cookies file "@ + path@ + ": "@ + source@,
    }
}

/// `text` behind `prefix` appended to `s`, when there is a text.
fn append_opt(s: &mut String, prefix: &str, text: &Option<String>)
    ensures
        final(s)@ == old(s)@ + opt_suffix(prefix@, *text),
{
    match text {
        Some(t) => {
            s.append(prefix);
            s.append(t.as_str());
        },
        None => {
            proof { assert(old(s)@ + Seq::<char>::empty() =~= old(s)@); }
        },
    }
}

impl SidecarError {
    /// The failure's message.
    pub fn message(&self) -> (r: String)
        ensures
            r@ == sidecar_message(*self),
    {
        match self {
            SidecarError::NotStarted => "sidecar not started".to_owned(),
            SidecarError::Http(m) => joined("http error: ", m.as_str()),
            SidecarError::Spawn { source, stderr } => {
                let inner = source.message();
                let mut s = joined("sidecar spawn failed: ", inner.as_str());
                append_opt(&mut s, "; sidecar stderr: ", stderr);
                proof {
                    reveal_strlit("sidecar spawn failed: ");
                    assert(s@ =~= sidecar_message(*self));
                }
                s
            },
            SidecarError::Update(m) => joined("yt-dlp update failed: ", m.as_str()),
            SidecarError::MissingHealthVersion =>
                "sidecar /health response did not include a yt-dlp version".to_owned(),
            SidecarError::Endpoint { endpoint, status, error, kind } => {
                let mut s = joined("sidecar ", endpoint);
                s.append(" failed (");
                let n = decimal_string(*status as u64);
                s.append(n.as_str());
                append_opt(&mut s, ", ", kind);
                s.append("): ");
                s.append(error.as_str());
                proof {
                    assert(s@ =~= sidecar_message(*self));
                }
                s
            },
            SidecarError::Cookies { path, source } => {
                let mut s = joined("failed to read cookies file ", path.as_str());
                s.append(": ");
                s.append(source.as_str());
                proof {
                    assert(s@ =~= sidecar_message(*self));
                }
                s
            },
        }
    }

    /// A spawn failure for `source`, with what the dying child wrote to stderr folded
    /// in: trimmed, and only when something is left of it.
    pub fn spawn(source: SpawnError, stderr: &str) -> (r: SidecarError)
        ensures
            r matches SidecarError::Spawn { source: s, stderr: e } && s == source && match e {
                Some(t) => trimmed(stderr@).len() > 0 && t@ == trimmed(stderr@),
                None => trimmed(stderr@).len() == 0,
            },
    {
        let t = trim_text(stderr);
        if t.as_str().unicode_len() == 0 {
            SidecarError::Spawn { source, stderr: None }
        } else {
            SidecarError::Spawn { source, stderr: Some(t) }
        }
    }
}

/// The failure that an answer of `endpoint` with a status other than success stands
/// for: the status, the body's `error` text ("unknown error" where the body gave none)
/// and its `type`.
pub fn error_from_response(
    endpoint: &'static str,
    status: u16,
    error: Option<String>,
    kind: Option<String>,
) -> (r: SidecarError)
    ensures
        r matches SidecarError::Endpoint { endpoint: e, status: st, error: m, kind: k }
            && e == endpoint && st == status && k == kind && m@ == match error {
                Some(t) => t@,
                None => "unknown error"@,
            },
{
    let error = match error {
        Some(t) => t,
        None => "unknown error".to_owned(),
    };
    SidecarError::Endpoint { endpoint, status, error, kind }
}

/// The yt-dlp version a health answer reports, or the failure of an answer that names
/// none.
pub fn reported_version(yt_dlp: Option<String>) -> (r: Result<String, SidecarError>)
    ensures
        match yt_dlp {
            Some(v) => r == Ok::<String, SidecarError>(v),
            None => r matches Err(SidecarError::MissingHealthVersion),
        },
{
    match yt_dlp {
        Some(v) => Ok(v),
        None => Err(SidecarError::MissingHealthVersion),
    }
}

/// Where the sidecar listens, from its first stdout line; `None` when stdout closed
/// before any line.
pub fn port_from_first_line(line: Option<String>) -> (r: Result<u16, SpawnError>)
    ensures
        match line {
            None => r matches Err(SpawnError::NoPort),
            Some(l) => match announced_number(l@) {
                Some(n) => r matches Ok(p) && p as nat == n,
                None => r matches Err(SpawnError::BadPortLine { line: b }) && b == l,
            },
        },
{
    match line {
        None => Err(SpawnError::NoPort),
        Some(l) => match parse_announcement(l.as_str()) {
            Some(p) => Ok(p),
            None => Err(SpawnError::BadPortLine { line: l }),
        },
    }
}

} // verus!
