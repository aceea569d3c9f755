//! The decisions behind fetching a track's media as sequential byte-range chunks.
//!
//! googlevideo throttles any single request larger than ~10 MB, so the media is fetched
//! as closed ranges of at most [`HTTP_CHUNK`] bytes, and their concatenation is the
//! stream. The fetch itself happens elsewhere; what is decided here is which range to
//! ask for next, what a response's status means, and when the stream has ended.

use vstd::prelude::*;
use vstd::string::*;
use crate::utils::text::{all_digits, decimal, decimal_string, parse_u64_chars, parse_unsigned};

verus! {

/// Maximum bytes per range request; yt-dlp's own `http_chunk_size`.
pub const HTTP_CHUNK: u64 = 10485760;

/// Why a range fetch failed. Each case needs a different remedy.
#[derive(Debug, PartialEq, Eq)]
pub enum FetchError {
    /// The server refused in a way only a fresh URL can fix (an expired or rebound
    /// signature), with the HTTP status it answered.
    Rejected(u16),
    /// A transport error, a server error, or a range that delivered no bytes: worth
    /// another attempt at the same URL.
    Transport(String),
    /// A `416` at an offset inside the declared length: the URL and the length describe
    /// different representations, so nothing can be resumed in place.
    Truncated { at: u64, total: u64, declared: Option<u64> },
}

/// The kind of a fetch failure, which is all that recovery decides on.
pub enum FetchErrorKind {
    Rejected,
    Transport,
    Truncated,
}

impl FetchError {
    pub open spec fn kind(&self) -> FetchErrorKind {
        match self {
            FetchError::Rejected(_) => FetchErrorKind::Rejected,
            FetchError::Transport(_) => FetchErrorKind::Transport,
            FetchError::Truncated { .. } => FetchErrorKind::Truncated,
        }
    }
}

/// The exclusive end of the chunk that begins at `start`: `chunk` bytes on, but never
/// past the declared length.
pub open spec fn spec_chunk_end(start: u64, chunk: u64, total: Option<u64>) -> u64 {
    match total {
        Some(t) => if start + chunk <= t { (start + chunk) as u64 } else { t },
        None => (start + chunk) as u64,
    }
}

/// The exclusive end of the chunk that begins at `start`.
pub fn chunk_end(start: u64, chunk: u64, total: Option<u64>) -> (end: u64)
    requires
        start + chunk <= u64::MAX,
    ensures
        end == spec_chunk_end(start, chunk, total),
{
    match total {
        Some(t) => if start + chunk <= t { start + chunk } else { t },
        None => start + chunk,
    }
}

/// What a range request's HTTP status says.
#[derive(Debug, Clone, Copy, PartialEq, Eq)]
pub enum RangeStatus {
    /// `416`: the start is at or past the end of the representation.
    PastEnd,
    /// A success carrying (part of) the range.
    Body,
    /// `401`, `403` or `410`: the signed URL is dead.
    Rejected,
    /// Anything else: worth another attempt.
    Failed,
}

/// What a range request's HTTP status says: `416` is past the end, any 2xx a body,
/// `401`/`403`/`410` a rejection, and the rest a failure.
pub open spec fn spec_range_status(status: u16) -> RangeStatus {
    if status == 416 {
        RangeStatus::PastEnd
    } else if 200 <= status <= 299 {
        RangeStatus::Body
    } else if status == 401 || status == 403 || status == 410 {
        RangeStatus::Rejected
    } else {
        RangeStatus::Failed
    }
}

/// Classify a range request's HTTP status.
pub fn range_status(status: u16) -> (r: RangeStatus)
    ensures
        r == spec_range_status(status),
{
    if status == 416 {
        RangeStatus::PastEnd
    } else if 200 <= status && status <= 299 {
        RangeStatus::Body
    } else if status == 401 || status == 403 || status == 410 {
        RangeStatus::Rejected
    } else {
        RangeStatus::Failed
    }
}

/// What to do next in the lazy part of a chunked stream.
#[derive(Debug, Clone, Copy, PartialEq, Eq)]
pub enum ChunkStep {
    /// The stream is complete.
    End,
    /// The previous range delivered nothing: an error, never a refetch of it.
    Stalled,
    /// Fetch the range from the current position to this exclusive end.
    Fetch(u64),
}

/// The next step once `pos` bytes have arrived, the previous range having been asked
/// for at `last_fetch`: the end once the declared length is reached, a stall when the
/// previous range moved nothing, the end when no bytes are left to ask for, and
/// otherwise the next chunk.
pub open spec fn spec_next_chunk(pos: u64, last_fetch: Option<u64>, total: Option<u64>, chunk: u64) -> ChunkStep {
    if total matches Some(t) && pos >= t {
        ChunkStep::End
    } else if last_fetch == Some(pos) {
        ChunkStep::Stalled
    } else if spec_chunk_end(pos, chunk, total) <= pos {
        ChunkStep::End
    } else {
        ChunkStep::Fetch(spec_chunk_end(pos, chunk, total))
    }
}

/// Law: a chunked stream always moves forward and never asks past the declared length:
/// each range starts where the bytes so far end, holds at most `chunk` bytes, and
/// stays within the declared length; a stream with nothing left to ask for has ended.
pub proof fn chunks_tile_the_stream(pos: u64, last_fetch: Option<u64>, total: Option<u64>, chunk: u64)
    requires
        pos + chunk <= u64::MAX,
    ensures
        spec_next_chunk(pos, last_fetch, total, chunk) matches ChunkStep::Fetch(end)
            ==> pos < end <= pos + chunk && (total matches Some(t) ==> end <= t),
        total matches Some(t) && pos >= t ==> spec_next_chunk(pos, last_fetch, total, chunk) == ChunkStep::End,
        chunk > 0 && last_fetch != Some(pos) && !(total matches Some(t) && pos >= t)
            ==> spec_next_chunk(pos, last_fetch, total, chunk) is Fetch,
{
}

/// Decide the next step of a chunked stream.
pub fn next_chunk(pos: u64, last_fetch: Option<u64>, total: Option<u64>, chunk: u64) -> (r: ChunkStep)
    requires
        pos + chunk <= u64::MAX,
    ensures
        r == spec_next_chunk(pos, last_fetch, total, chunk),
{
    if let Some(t) = total {
        if pos >= t {
            return ChunkStep::End;
        }
    }
    if last_fetch == Some(pos) {
        return ChunkStep::Stalled;
    }
    let end = chunk_end(pos, chunk, total);
    if end <= pos {
        ChunkStep::End
    } else {
        ChunkStep::Fetch(end)
    }
}

/// The answer to a `416` on the first range of a stream opened at `offset`: an error
/// when there is nothing at all behind the URL (`offset` 0) or when `offset` lies
/// inside the declared length, and otherwise a clean, empty stream.
pub open spec fn spec_first_past_end(offset: u64, total: Option<u64>, declared: Option<u64>) -> Option<FetchErrorKind> {
    if offset == 0 {
        Some(FetchErrorKind::Transport)
    } else if total matches Some(t) && offset < t {
        Some(FetchErrorKind::Truncated)
    } else {
        None
    }
}

/// Decide what a `416` on the first range of a stream opened at `offset` means.
pub fn first_past_end(offset: u64, total: Option<u64>, declared: Option<u64>) -> (r: Result<(), FetchError>)
    ensures
        match r {
            Ok(()) => spec_first_past_end(offset, total, declared) is None,
            Err(e) => spec_first_past_end(offset, total, declared) == Some(e.kind()),
        },
        r matches Err(FetchError::Truncated { at, total: t, declared: d }) ==> at == offset
            && total == Some(t) && d == declared,
{
    if offset == 0 {
        return Err(FetchError::Transport("empty media: range from 0 unsatisfiable".to_owned()));
    }
    match total {
        Some(t) => if offset < t {
            Err(FetchError::Truncated { at: offset, total: t, declared })
        } else {
            Ok(())
        },
        None => Ok(()),
    }
}

/// The answer to a `416` on a later range, at `pos`: inside the declared length a
/// contradiction; with no declared length, or at its end, the end of the stream.
pub fn later_past_end(pos: u64, total: Option<u64>, declared: Option<u64>) -> (r: Option<FetchError>)
    ensures
        match r {
            Some(e) => total matches Some(t) && pos < t
                && e == (FetchError::Truncated { at: pos, total: t, declared }),
            None => !(total matches Some(t) && pos < t),
        },
{
    match total {
        Some(t) => if pos < t {
            Some(FetchError::Truncated { at: pos, total: t, declared })
        } else {
            None
        },
        None => None,
    }
}

/// A space or a tab, the only whitespace a visible-ASCII header value can hold.
pub open spec fn is_header_space(c: char) -> bool {
    c == ' ' || c == '\t'
}

/// A character a header value reads as text can hold: visible ASCII, space or tab.
pub open spec fn is_header_char(c: char) -> bool {
    (' ' <= c && c <= '~') || c == '\t'
}

/// `s` without leading and trailing spaces and tabs.
pub open spec fn trim_spaces(s: Seq<char>) -> Seq<char>
    decreases s.len(),
{
    if s.len() > 0 && is_header_space(s[0]) {
        trim_spaces(s.drop_first())
    } else if s.len() > 0 && is_header_space(s.last()) {
        trim_spaces(s.drop_last())
    } else {
        s
    }
}

/// The text after the last `/` of `s`, if it has one.
pub open spec fn after_last_slash(s: Seq<char>) -> Option<Seq<char>>
    decreases s.len(),
{
    if s.len() == 0 {
        None
    } else if s.last() == '/' {
        Some(Seq::empty())
    } else {
        match after_last_slash(s.drop_last()) {
            Some(rest) => Some(rest.push(s.last())),
            None => None,
        }
    }
}

/// The total length a `416` reports in `Content-Range: bytes */N`: the number after
/// the last `/`, trimmed. Missing or unparseable gives none.
pub open spec fn spec_unsatisfied_length(header: Option<Seq<char>>) -> Option<nat> {
    match header {
        Some(h) => match after_last_slash(h) {
            Some(rest) => parse_unsigned(trim_spaces(rest), u64::MAX as nat),
            None => None,
        },
        None => None,
    }
}

/// Read the total length out of a `416`'s `Content-Range` value, if it carried one
/// that reads as text.
pub fn unsatisfied_length(header: Option<&str>) -> (r: Option<u64>)
    requires
        header matches Some(h) ==> forall|i: int| 0 <= i < h@.len() ==> is_header_char(#[trigger] h@[i]),
    ensures
        match r {
            Some(n) => spec_unsatisfied_length(opt_str_view(header)) == Some(n as nat),
            None => spec_unsatisfied_length(opt_str_view(header)) is None,
        },
{
    let h = match header {
        Some(h) => h,
        None => return None,
    };
    let n = h.unicode_len();
    let mut chars: Vec<char> = Vec::new();
    let mut pos: usize = 0;
    for c in it: h.chars()
        invariant
            n == h@.len(),
            it.seq() == h@,
            pos == it.index(),
            pos <= n,
            chars@ == h@.take(pos as int),
    {
        chars.push(c);
        proof {
            assert(h@.take(pos + 1) =~= h@.take(pos as int).push(c));
        }
        pos = pos + 1;
    }
    proof {
        assert(h@.take(n as int) =~= h@);
    }
    // find the last '/'
    let mut i = chars.len();
    while i > 0 && chars[i - 1] != '/'
        invariant
            i <= chars.len(),
            after_last_slash(chars@) == extend_tail(after_last_slash(chars@.take(i as int)), chars@.skip(i as int)),
            forall|k: int| i <= k < chars.len() ==> chars@[k] != '/',
        decreases i,
    {
        proof {
            let t = chars@.take(i as int);
            assert(t.drop_last() =~= chars@.take(i - 1));
            assert(chars@.skip(i - 1) =~= seq![t.last()] + chars@.skip(i as int));
            match after_last_slash(t.drop_last()) {
                Some(rest) => {
                    assert(rest.push(t.last()) + chars@.skip(i as int) =~= rest + chars@.skip(i - 1));
                },
                None => {},
            }
        }
        i = i - 1;
    }
    if i == 0 {
        proof {
            assert(chars@.take(0) =~= Seq::<char>::empty());
        }
        return None;
    }
    proof {
        let t = chars@.take(i as int);
        assert(t.last() == '/');
        assert(after_last_slash(t) == Some(Seq::<char>::empty()));
        assert(Seq::<char>::empty() + chars@.skip(i as int) =~= chars@.skip(i as int));
    }
    // trim spaces and tabs on both sides of chars[i..]
    let mut lo = i;
    let mut hi = chars.len();
    assert(chars@.subrange(lo as int, hi as int) =~= chars@.skip(i as int));
    while lo < hi && (chars[lo] == ' ' || chars[lo] == '\t')
        invariant
            i <= lo <= hi <= chars.len(),
            hi == chars.len(),
            trim_spaces(chars@.skip(i as int)) == trim_spaces(chars@.subrange(lo as int, hi as int)),
        decreases hi - lo,
    {
        proof {
            assert(chars@.subrange(lo as int, hi as int).drop_first() =~= chars@.subrange(lo + 1, hi as int));
        }
        lo = lo + 1;
    }
    while lo < hi && (chars[hi - 1] == ' ' || chars[hi - 1] == '\t')
        invariant
            i <= lo <= hi <= chars.len(),
            lo < hi ==> !is_header_space(chars@[lo as int]),
            trim_spaces(chars@.skip(i as int)) == trim_spaces(chars@.subrange(lo as int, hi as int)),
        decreases hi - lo,
    {
        proof {
            let s = chars@.subrange(lo as int, hi as int);
            assert(s.drop_last() =~= chars@.subrange(lo as int, hi - 1));
        }
        hi = hi - 1;
    }
    let mut body: Vec<char> = Vec::new();
    let mut k = lo;
    while k < hi
        invariant
            lo <= k <= hi <= chars.len(),
            body@ == chars@.subrange(lo as int, k as int),
        decreases hi - k,
    {
        body.push(chars[k]);
        proof {
            assert(chars@.subrange(lo as int, k + 1) =~= chars@.subrange(lo as int, k as int).push(chars@[k as int]));
        }
        k = k + 1;
    }
    proof {
        assert(trim_spaces(chars@.subrange(lo as int, hi as int)) == chars@.subrange(lo as int, hi as int));
    }
    parse_u64_chars(&body)
}

/// `o` with `tail` appended to what it holds.
pub open spec fn extend_tail(o: Option<Seq<char>>, tail: Seq<char>) -> Option<Seq<char>> {
    match o {
        Some(s) => Some(s + tail),
        None => None,
    }
}

/// The view of an optional text.
pub open spec fn opt_str_view(s: Option<&str>) -> Option<Seq<char>> {
    match s {
        Some(s) => Some(s@),
        None => None,
    }
}

/// Whether the pace gate lets the fetcher fetch the next piece once it has `produced`
/// bytes and playback has consumed `consumed`: `Some(false)` once the track is
/// cancelled, `Some(true)` when playback is within the window -- which stays closed,
/// at no read-ahead at all, until something has read -- and `None` to wait.
pub open spec fn spec_pace_room(produced: u64, consumed: u64, started: bool, window: u64, cancelled: bool) -> Option<bool> {
    if cancelled {
        Some(false)
    } else if (if produced >= consumed { produced - consumed } else { 0 }) <= (if started { window as int } else { 0 }) {
        Some(true)
    } else {
        None
    }
}

/// Decide whether the fetcher may go on.
pub fn pace_room(produced: u64, consumed: u64, started: bool, window: u64, cancelled: bool) -> (r: Option<bool>)
    ensures
        r == spec_pace_room(produced, consumed, started, window, cancelled),
{
    let window = if started { window } else { 0 };
    if cancelled {
        Some(false)
    } else if produced.saturating_sub(consumed) <= window {
        Some(true)
    } else {
        None
    }
}

/// The value of the `Range` header asking for the bytes from `start` up to the
/// exclusive `end`: `bytes=start-last`, both ends inclusive.
pub open spec fn range_value(start: u64, end: u64) -> Seq<char> {
    "bytes="@ + decimal(start as nat) + "-"@ + decimal((end - 1) as nat)
}

/// The `Range` header value for the closed range from `start` up to `end`, exclusive.
pub fn range_header(start: u64, end: u64) -> (r: String)
    requires
        start < end,
    ensures
        r@ == range_value(start, end),
{
    let mut s = "bytes=".to_owned();
    let a = decimal_string(start);
    s.append(a.as_str());
    s.append("-");
    let b = decimal_string(end - 1);
    s.append(b.as_str());
    s
}

/// The reason phrase `StatusCode`'s `Display` prints after the code: the canonical
/// reason, or a placeholder for a code that has none. Named here, not stated.
pub uninterp spec fn status_reason(status: u16) -> Seq<char>;

/// `Display` of reqwest's `StatusCode` for `status`, which `StatusCode::from_u16`
/// accepts for three-digit codes only. The contract claims what the source of that
/// `Display` shows: the code in decimal, a space, and the named reason phrase.
#[verifier::external_body]
pub(crate) fn status_display(status: u16) -> (r: String)
    requires
        100 <= status <= 999,
    ensures
        r@ == decimal(status as nat) + " "@ + status_reason(status),
{
    reqwest::StatusCode::from_u16(status).map(|code| code.to_string()).unwrap_or_default()
}

/// `Some(n)` or `None`, as `{:?}` prints an optional number.
pub open spec fn debug_opt_u64(o: Option<u64>) -> Seq<char> {
    match o {
        Some(n) => "Some("@ + decimal(n as nat) + ")"@,
        None => "None"@,
    }
}

/// The message of a fetch failure.
pub open spec fn fetch_message(e: FetchError) -> Seq<char> {
    match e {
        FetchError::Rejected(status) =>
            "range request rejected with status "@ + decimal(status as nat) + " "@ + status_reason(status),
        FetchError::Transport(m) => "range fetch failed: "@ + m@,
        FetchError::Truncated { at, total, declared } =>
            "range from "@ + decimal(at as nat) + " refused but the format declares "@
                + decimal(total as nat) + " bytes (server: "@ + debug_opt_u64(declared) + ")"@,
    }
}

impl FetchError {
    /// The failure's message. A rejection holds an HTTP status, which has three digits.
    pub fn message(&self) -> (r: String)
        requires
            *self matches FetchError::Rejected(status) ==> 100 <= status <= 999,
        ensures
            r@ == fetch_message(*self),
    {
        match self {
            FetchError::Rejected(status) => {
                let mut s = "range request rejected with status ".to_owned();
                let d = status_display(*status);
                s.append(d.as_str());
                proof { assert(s@ =~= fetch_message(*self)); }
                s
            },
            FetchError::Transport(m) => {
                let mut s = "range fetch failed: ".to_owned();
                s.append(m.as_str());
                s
            },
            FetchError::Truncated { at, total, declared } => {
                let mut s = "range from ".to_owned();
                let a = decimal_string(*at);
                s.append(a.as_str());
                s.append(" refused but the format declares ");
                let t = decimal_string(*total);
                s.append(t.as_str());
                s.append(" bytes (server: ");
                match declared {
                    Some(n) => {
                        s.append("Some(");
                        let d = decimal_string(*n);
                        s.append(d.as_str());
                        s.append(")");
                    },
                    None => {
                        s.append("None");
                    },
                }
                s.append(")");
                proof { assert(s@ =~= fetch_message(*self)); }
                s
            },
        }
    }
}

/// The failure of a range at `pos` that delivered no bytes.
pub fn stalled(pos: u64) -> (r: FetchError)
    ensures
        r matches FetchError::Transport(m)
            && m@ == "range from "@ + decimal(pos as nat) + " delivered no bytes"@,
{
    let mut s = "range from ".to_owned();
    let d = decimal_string(pos);
    s.append(d.as_str());
    s.append(" delivered no bytes");
    FetchError::Transport(s)
}

/// The failure of a range request the server answered with `status`, neither a
/// success, a `416` nor a rejection: worth another attempt.
pub fn status_failure(status: u16) -> (r: FetchError)
    requires
        100 <= status <= 999,
    ensures
        r matches FetchError::Transport(m)
            && m@ == "range request failed with status "@ + decimal(status as nat) + " "@
                + status_reason(status),
{
    let mut s = "range request failed with status ".to_owned();
    let d = status_display(status);
    s.append(d.as_str());
    FetchError::Transport(s)
}

} // verus!
