//! The recovery policy of the direct-HTTP byte producer.
//!
//! The chunked fetch reports *why* a range failed; what to do about it is decided here.
//! Recovery always resumes from what is already durable, and its budget is reset by
//! progress, so a long track rides out any number of isolated blips while one stuck at
//! an offset gives up promptly.

use vstd::prelude::*;
use vstd::string::*;
use reqwest::header::HeaderMap;
use super::chunked::{debug_opt_u64, FetchError, FetchErrorKind};
use super::headers::header_entries;
use super::source::{direct_format, direct_url, format_headers, FormatInfo};
use crate::utils::text::decimal_string;

verus! {

/// Attempts against the same URL before a stuck fetch is declared dead.
pub const MAX_RETRIES: u32 = 5;

/// Re-extracts before a stuck fetch is declared dead.
pub const MAX_REFRESHES: u32 = 2;

/// What to do about a failed fetch.
#[derive(Debug, Clone, Copy, PartialEq, Eq)]
pub enum Recovery {
    /// Reopen at the durable offset, same URL, after a backoff.
    Retry,
    /// Re-extract for a fresh signed URL, then reopen at the durable offset.
    Refresh,
    /// Out of budget, or unrecoverable: the track ends here.
    Fail,
}

/// The recovery budget for one download.
#[derive(Debug, Clone, Copy, PartialEq, Eq)]
pub struct Attempts {
    /// Offset the current streak of failures started at; anything past it is progress.
    pub stuck_at: u64,
    pub retries: u32,
    pub refreshes: u32,
}

/// The budget after a failure at `offset`, before the failure is charged: a fresh one
/// when `offset` is past where the streak started.
pub open spec fn rebased(a: Attempts, offset: u64) -> Attempts {
    if offset > a.stuck_at {
        Attempts { stuck_at: offset, retries: 0, refreshes: 0 }
    } else {
        a
    }
}

/// The decision about a failure of kind `kind` at `offset`, and the budget it leaves:
/// truncation fails at once; a rejection refreshes while refreshes remain and then
/// fails; anything else retries while retries remain and then fails.
pub open spec fn spec_next(a: Attempts, offset: u64, kind: FetchErrorKind) -> (Attempts, Recovery) {
    let b = rebased(a, offset);
    match kind {
        FetchErrorKind::Truncated => (b, Recovery::Fail),
        FetchErrorKind::Rejected => if b.refreshes < MAX_REFRESHES {
            (Attempts { refreshes: (b.refreshes + 1) as u32, ..b }, Recovery::Refresh)
        } else {
            (b, Recovery::Fail)
        },
        FetchErrorKind::Transport => if b.retries < MAX_RETRIES {
            (Attempts { retries: (b.retries + 1) as u32, ..b }, Recovery::Retry)
        } else {
            (b, Recovery::Fail)
        },
    }
}

impl Attempts {
    /// A fresh budget for a download that starts at `offset`.
    pub fn new(offset: u64) -> (a: Attempts)
        ensures
            a == (Attempts { stuck_at: offset, retries: 0, refreshes: 0 }),
    {
        Attempts { stuck_at: offset, retries: 0, refreshes: 0 }
    }

    /// Decide what to do about `err`, having got as far as `offset`.
    pub fn next(&mut self, offset: u64, err: &FetchError) -> (r: Recovery)
        ensures
            (*final(self), r) == spec_next(*old(self), offset, err.kind()),
    {
        if offset > self.stuck_at {
            *self = Attempts::new(offset);
        }
        match err {
            FetchError::Truncated { .. } => Recovery::Fail,
            FetchError::Rejected(_) => {
                if self.refreshes < MAX_REFRESHES {
                    self.refreshes = self.refreshes + 1;
                    Recovery::Refresh
                } else {
                    Recovery::Fail
                }
            },
            FetchError::Transport(_) => {
                if self.retries < MAX_RETRIES {
                    self.retries = self.retries + 1;
                    Recovery::Retry
                } else {
                    Recovery::Fail
                }
            },
        }
    }
}

/// A budget no decision has overdrawn.
pub open spec fn within_budget(a: Attempts) -> bool {
    a.retries <= MAX_RETRIES && a.refreshes <= MAX_REFRESHES
}

/// The budget is never overdrawn: every budget that `Attempts::new` starts and that
/// decisions then charge stays within `MAX_RETRIES` retries and `MAX_REFRESHES`
/// refreshes.
pub proof fn attempts_stay_within_budget(a: Attempts, offset: u64, kind: FetchErrorKind)
    requires
        within_budget(a),
    ensures
        within_budget(spec_next(a, offset, kind).0),
{
}

/// Progress resets the budget: a failure past the offset where the current streak
/// started is decided exactly as the first failure of a new download there would be.
pub proof fn progress_resets_the_budget(a: Attempts, offset: u64, kind: FetchErrorKind)
    requires
        offset > a.stuck_at,
    ensures
        spec_next(a, offset, kind) == spec_next(Attempts { stuck_at: offset, retries: 0, refreshes: 0 }, offset, kind),
{
}

/// Each kind of failure draws only on its own remedy: truncation spends nothing and
/// always fails, a rejection never spends a retry, and a transport failure never spends
/// a refresh.
pub proof fn remedies_draw_on_their_own_budget(a: Attempts, offset: u64, kind: FetchErrorKind)
    ensures
        ({
            let (b, r) = spec_next(a, offset, kind);
            let base = rebased(a, offset);
            &&& kind is Truncated ==> r == Recovery::Fail && b == base
            &&& kind is Rejected ==> b.retries == base.retries && r != Recovery::Retry
            &&& kind is Transport ==> b.refreshes == base.refreshes && r != Recovery::Refresh
        }),
{
}

/// The decisions about a run of failures at `offset`, none of them past where the
/// streak started, starting from budget `a`.
pub open spec fn decide_all(a: Attempts, offset: u64, kinds: Seq<FetchErrorKind>) -> Seq<Recovery>
    decreases kinds.len(),
{
    if kinds.len() == 0 {
        Seq::empty()
    } else {
        let (b, r) = spec_next(a, offset, kinds[0]);
        seq![r] + decide_all(b, offset, kinds.drop_first())
    }
}

/// How many decisions in `rs` are not `Fail`.
pub open spec fn recoveries(rs: Seq<Recovery>) -> nat
    decreases rs.len(),
{
    if rs.len() == 0 {
        0
    } else {
        (if rs[0] == Recovery::Fail { 0nat } else { 1nat }) + recoveries(rs.drop_first())
    }
}

/// A fetch stuck at one offset gives up: however many failures arrive there, at most
/// the remaining retries plus the remaining refreshes of them are recovered from.
pub proof fn a_stuck_fetch_gives_up(a: Attempts, offset: u64, kinds: Seq<FetchErrorKind>)
    requires
        within_budget(a),
        offset <= a.stuck_at,
    ensures
        recoveries(decide_all(a, offset, kinds)) <= (MAX_RETRIES - a.retries) + (MAX_REFRESHES - a.refreshes),
    decreases kinds.len(),
{
    if kinds.len() > 0 {
        let (b, r) = spec_next(a, offset, kinds[0]);
        a_stuck_fetch_gives_up(b, offset, kinds.drop_first());
        let rs = decide_all(a, offset, kinds);
        assert(rs.drop_first() =~= decide_all(b, offset, kinds.drop_first()));
    }
}

/// Whether a re-extracted format is byte-identical to the one already fetched, judged
/// by declared length: only two equal, known lengths match.
pub open spec fn spec_same_format(before: Option<u64>, after: Option<u64>) -> bool {
    before is Some && after is Some && before == after
}

/// Whether a re-extracted format may be resumed in place: an unverifiable length counts
/// as a mismatch, since appending a different encoding corrupts the track silently.
pub fn same_format(before: Option<u64>, after: Option<u64>) -> (r: bool)
    ensures
        r == spec_same_format(before, after),
{
    match (before, after) {
        (Some(b), Some(a)) => b == a,
        _ => false,
    }
}

/// Why a re-extracted format cannot take over an interrupted direct fetch.
pub open spec fn refresh_refusal(before: Option<u64>, fmt: FormatInfo) -> Option<Seq<char>> {
    if !direct_format(fmt) {
        Some("format is no longer a direct http download"@)
    } else if !spec_same_format(before, fmt.filesize) {
        Some("re-extract changed the format ("@ + debug_opt_u64(before) + " -> "@
            + debug_opt_u64(fmt.filesize) + " bytes); cannot resume in place"@)
    } else {
        None
    }
}

/// `Some(n)` or `None` appended to `s`, as `{:?}` prints an optional number.
fn push_debug_opt(s: &mut String, o: Option<u64>)
    ensures
        final(s)@ == old(s)@ + debug_opt_u64(o),
{
    match o {
        Some(n) => {
            s.append("Some(");
            let d = decimal_string(n);
            s.append(d.as_str());
            s.append(")");
        },
        None => {
            s.append("None");
        },
    }
}

/// The signed URL and headers a fetch whose format declared `before` bytes resumes
/// with, from the freshly re-extracted format `fmt`; or why it cannot: the format must
/// still be a direct download of the same declared length.
pub fn refresh_target(before: Option<u64>, fmt: &FormatInfo) -> (r: Result<(String, HeaderMap), String>)
    requires
        fmt.http_headers matches Some(ps) ==> ps.len() < 16384,
    ensures
        match r {
            Ok(p) => refresh_refusal(before, *fmt) is None && p.0@ == fmt.url@
                && header_entries(p.1) == format_headers(*fmt),
            Err(m) => refresh_refusal(before, *fmt) == Some(m@),
        },
{
    let target = match direct_url(fmt) {
        Some(t) => t,
        None => return Err("format is no longer a direct http download".to_owned()),
    };
    if !same_format(before, fmt.filesize) {
        let mut m = "re-extract changed the format (".to_owned();
        push_debug_opt(&mut m, before);
        m.append(" -> ");
        push_debug_opt(&mut m, fmt.filesize);
        m.append(" bytes); cannot resume in place");
        return Err(m);
    }
    Ok(target)
}

} // verus!
