//! The decisions behind walking an HLS media playlist into a track's tail file.
//!
//! Segments are appended raw and in order, each preceded by its `#EXT-X-MAP`
//! initialization section when the playlist names one. A growing playlist is re-polled
//! at its own target duration, never faster than [`MIN_POLL_NANOS`], until
//! `#EXT-X-ENDLIST` or [`STALE_AFTER_NANOS`] without a new segment. Nothing here
//! recovers: any failure ends the track.
//!
//! The playlists are parsed by the `hls_m3u8` crate; this module decides what to fetch
//! from what it reports, which rendition of a master playlist to follow, which headers
//! travel to which host, and when the walk is over.

use vstd::prelude::*;
use vstd::string::*;
use vstd::multiset::Multiset;
use crate::models::url::youtube_url::opt_view;
use crate::ytdl::chunked::{opt_str_view, status_display, status_reason};
use crate::utils::url::{join_url, joined_url, UrlParseError};
use crate::utils::text::{chars_of, contains_substring, decimal, decimal_string, has_substring, same_text};
use reqwest::header::HeaderMap;
use crate::ytdl::headers::{clone_headers, header_entries, remove_header};
use hls_m3u8::{MasterPlaylist, MediaPlaylist, tags::VariantStream, types::MediaType};

verus! {

/// How far ahead of consumption the walker may run: roughly two minutes of opus.
pub const READ_AHEAD: u64 = 2097152;

/// Ceiling on one request, and on the gap between two body chunks of one response.
pub const REQUEST_TIMEOUT_NANOS: u128 = 10_000_000_000;

/// How long a playlist may add nothing before the stream is declared over.
pub const STALE_AFTER_NANOS: u128 = 60_000_000_000;

/// Floor under the re-poll interval, since a playlist may declare a target duration of
/// zero.
pub const MIN_POLL_NANOS: u128 = 1_000_000_000;

/// Slack, in seconds, allowed between an `#EXTINF` and the playlist's own
/// `#EXT-X-TARGETDURATION` before the parser rejects the playlist.
pub const ALLOWABLE_EXCESS_SECS: u64 = 10;

/// Why an HLS walk could not start, or could not continue.
#[derive(Debug)]
pub enum HlsError {
    /// A URL that could not be parsed or resolved.
    Url(UrlParseError),
    /// A playlist that could not be fetched.
    Fetch(String),
    /// A playlist that the parser refused, or a master naming nothing playable.
    Playlist(String),
    /// Segments encrypted with the named method; decryption is not implemented.
    Encrypted(String),
}

/// An [`HlsError`] as values.
pub enum HlsErrorView {
    Url(UrlParseError),
    Fetch(Seq<char>),
    Playlist(Seq<char>),
    Encrypted(Seq<char>),
}

impl View for HlsError {
    type V = HlsErrorView;

    open spec fn view(&self) -> HlsErrorView {
        match self {
            HlsError::Url(e) => HlsErrorView::Url(*e),
            HlsError::Fetch(m) => HlsErrorView::Fetch(m@),
            HlsError::Playlist(m) => HlsErrorView::Playlist(m@),
            HlsError::Encrypted(m) => HlsErrorView::Encrypted(m@),
        }
    }
}

impl HlsError {
    /// Whether this is a property of the stream itself, which no re-extract can change:
    /// an encrypted or unwalkable playlist.
    pub fn is_stream_property(&self) -> (r: bool)
        ensures
            r == (self is Encrypted || self is Playlist),
    {
        match self {
            HlsError::Encrypted(_) | HlsError::Playlist(_) => true,
            _ => false,
        }
    }
}

/// A byte range as the parser resolved it: the `start` and `end` of `start..end`, the
/// start absent for the first range of a resource.
pub type ByteSpan = (Option<usize>, usize);

/// One media segment as the parser reports it: its absolute sequence number, its URI,
/// the encryption method of each `#EXT-X-KEY` that applies to it (`None` for
/// `METHOD=NONE`; in no particular order, since the parser keeps them in a hash set), its `#EXT-X-MAP` initialization section (URI and byte range) and its
/// own byte range.
pub struct SegmentInfo(
    pub usize,
    pub String,
    pub Vec<Option<String>>,
    pub Option<(String, Option<ByteSpan>)>,
    pub Option<ByteSpan>,
);

/// An `#EXT-X-MAP` tag as values.
pub struct MapView {
    pub uri: Seq<char>,
    pub range: Option<ByteSpan>,
}

/// A [`SegmentInfo`] as values.
pub struct SegmentView {
    pub number: usize,
    pub uri: Seq<char>,
    /// The key methods in force, without an order.
    pub keys: Multiset<Option<Seq<char>>>,
    pub map: Option<MapView>,
    pub range: Option<ByteSpan>,
}

pub open spec fn map_view(m: Option<(String, Option<ByteSpan>)>) -> Option<MapView> {
    match m {
        Some(m) => Some(MapView { uri: m.0@, range: m.1 }),
        None => None,
    }
}

impl View for SegmentInfo {
    type V = SegmentView;

    open spec fn view(&self) -> SegmentView {
        SegmentView {
            number: self.0,
            uri: self.1@,
            keys: self.2@.map_values(|k: Option<String>| opt_view(k)).to_multiset(),
            map: map_view(self.3),
            range: self.4,
        }
    }
}

/// A media playlist as the parser reports it: its segments, its
/// `#EXT-X-MEDIA-SEQUENCE` (the number of the first segment listed), its
/// `#EXT-X-TARGETDURATION` in nanoseconds, and whether it carries `#EXT-X-ENDLIST`.
pub struct MediaInfo(pub Vec<SegmentInfo>, pub usize, pub u128, pub bool);

/// A [`MediaInfo`] as values.
pub struct MediaView {
    pub segments: Seq<SegmentView>,
    pub media_sequence: usize,
    pub target_nanos: u128,
    pub ended: bool,
}

impl View for MediaInfo {
    type V = MediaView;

    open spec fn view(&self) -> MediaView {
        MediaView {
            segments: self.0@.map_values(|s: SegmentInfo| s@),
            media_sequence: self.1,
            target_nanos: self.2,
            ended: self.3,
        }
    }
}

/// A character of a plain numeric value: a decimal digit, a dot, or the `@` that parts
/// a byte range's length from its offset.
pub open spec fn value_char(c: char) -> bool {
    ('0' <= c && c <= '9') || c == '.' || c == '@'
}

/// Where the run of value characters that starts at `j` ends.
pub open spec fn run_end(t: Seq<char>, j: int) -> int
    decreases t.len() - j,
{
    if j < 0 || j >= t.len() || !value_char(t[j]) {
        j
    } else {
        run_end(t, j + 1)
    }
}

/// The most characters a plain value may have: 18 where `usize` has 64 bits, else 9.
/// Each number in such a value, and the sum of two of them, fits a `usize`.
pub open spec fn value_limit() -> int {
    if usize::BITS == 64 { 18 } else { 9 }
}

/// Whether a plain value starts at `j`: a run of at most [`value_limit`] value
/// characters, ended by a comma, a quote, a line break or the end of the text.
pub open spec fn plain_value_at(t: Seq<char>, j: int) -> bool {
    let k = run_end(t, j);
    &&& k - j <= value_limit()
    &&& (k == t.len() || t[k] == ',' || t[k] == '"' || t[k] == '\n' || t[k] == '\r')
}

/// Whether `m` occurs in `t` at `i`.
pub open spec fn marker_at(t: Seq<char>, i: int, m: Seq<char>) -> bool {
    0 <= i && i + m.len() <= t.len() && t.subrange(i, i + m.len()) == m
}

/// Where a value begins that follows a separator ending before `j`: past an opening
/// quote, if one stands there.
pub open spec fn value_start(t: Seq<char>, j: int) -> int {
    if 0 <= j < t.len() && t[j] == '"' { j + 1 } else { j }
}

/// Whether the key `m` that occurs at `i` is followed at once by `:` or `=` and a plain
/// value.
pub open spec fn keyed_value_at(t: Seq<char>, i: int, m: Seq<char>) -> bool {
    let e = i + m.len();
    &&& e < t.len()
    &&& (t[e] == ':' || t[e] == '=')
    &&& plain_value_at(t, value_start(t, e + 1))
}

/// The keys whose values `hls_m3u8` turns into a `Duration` or adds to another number:
/// `#EXTINF`; `#EXT-X-TARGETDURATION` and the `DURATION` and `PLANNED-DURATION`
/// attributes of `#EXT-X-DATERANGE`; `#EXT-X-BYTERANGE` and the `BYTERANGE` attribute of
/// `#EXT-X-MAP`; `#EXT-X-MEDIA-SEQUENCE`.
pub open spec fn numeric_keys() -> Seq<Seq<char>> {
    seq![
        seq!['E', 'X', 'T', 'I', 'N', 'F'],
        seq!['D', 'U', 'R', 'A', 'T', 'I', 'O', 'N'],
        seq!['B', 'Y', 'T', 'E', 'R', 'A', 'N', 'G', 'E'],
        seq!['S', 'E', 'Q', 'U', 'E', 'N', 'C', 'E'],
    ]
}

/// Whether every numeric value in `t` is one `hls_m3u8` can take without panicking:
/// wherever one of the numeric keys occurs (in a tag, an attribute, or any other text),
/// it is followed at once by `:` or `=` and a plain value.
/// The parser panics on a negative, infinite or out-of-range `#EXTINF` or
/// `#EXT-X-DATERANGE` duration, and (with overflow checks) on a target duration whose
/// sum with the allowed excess overflows, on a byte range whose offset and length
/// overflow a `usize`, and on a media sequence that overflows when it numbers the
/// segments. A text this rules out may be one the parser would read: this holds to the
/// plain form of these values only.
pub open spec fn numbers_fit(t: Seq<char>) -> bool {
    forall|i: int, k: int|
        0 <= i < t.len() && 0 <= k < numeric_keys().len() && #[trigger] marker_at(t, i, numeric_keys()[k])
            ==> keyed_value_at(t, i, numeric_keys()[k])
}

/// The refusal of a text whose numeric values do not all fit.
pub open spec fn unfit_message() -> Seq<char> {
    "hls playlist holds a numeric value that is not plain or too long"@
}

proof fn lemma_run_reaches(t: Seq<char>, i: int, k: int)
    requires
        0 <= i <= k <= t.len(),
        forall|q: int| i <= q < k ==> ('0' <= #[trigger] t[q] && t[q] <= '9') || t[q] == '.' || t[q] == '@',
        k == t.len() || t[k] == ',' || t[k] == '"' || t[k] == '\n' || t[k] == '\r',
    ensures
        run_end(t, i) == k,
    decreases k - i,
{
    if i < k {
        lemma_run_reaches(t, i + 1, k);
    }
}

/// Law: every plain number that 64-bit arithmetic holds with room to spare passes. Where
/// `usize` has 64 bits, a run of up to 18 digits, dots and `@` (a duration such as
/// `9.009`, a byte range such as `1000000@25000000`, a media sequence) that ends at a
/// comma, a quote, a line break or the end of the text is a plain value, and so is the
/// value of a key followed at once by `:` or `=` and such a run.
pub proof fn short_plain_numbers_fit(t: Seq<char>, i: int, m: Seq<char>, j: int, k: int)
    requires
        usize::BITS == 64,
        0 <= j <= k <= t.len(),
        k - j <= 18,
        forall|q: int| j <= q < k ==> ('0' <= #[trigger] t[q] && t[q] <= '9') || t[q] == '.' || t[q] == '@',
        k == t.len() || t[k] == ',' || t[k] == '"' || t[k] == '\n' || t[k] == '\r',
    ensures
        plain_value_at(t, j),
        marker_at(t, i, m) && j == i + m.len() + 1 && (t[i + m.len()] == ':' || t[i + m.len()] == '=')
            && (j < t.len() ==> t[j] != '"') ==> keyed_value_at(t, i, m),
{
    lemma_run_reaches(t, j, k);
}

fn matches_at(cs: &Vec<char>, i: usize, m: &Vec<char>) -> (r: bool)
    ensures
        r == marker_at(cs@, i as int, m@),
{
    if i > cs.len() || m.len() > cs.len() - i {
        return false;
    }
    let mut k: usize = 0;
    while k < m.len()
        invariant
            k <= m.len(),
            i + m.len() <= cs.len(),
            forall|q: int| 0 <= q < k ==> cs@[i + q] == #[trigger] m@[q],
        decreases m.len() - k,
    {
        if cs[i + k] != m[k] {
            proof {
                assert(cs@.subrange(i as int, i + m.len())[k as int] == cs@[i + k]);
            }
            return false;
        }
        k = k + 1;
    }
    proof {
        assert(cs@.subrange(i as int, i + m.len()) =~= m@);
    }
    true
}

fn value_char_exec(c: char) -> (r: bool)
    ensures
        r == value_char(c),
{
    ('0' <= c && c <= '9') || c == '.' || c == '@'
}

fn plain_value_exec(cs: &Vec<char>, j: usize) -> (r: bool)
    requires
        j <= cs.len(),
    ensures
        r == plain_value_at(cs@, j as int),
{
    let limit: usize = if usize::BITS == 64 { 18 } else { 9 };
    let mut k: usize = j;
    while k < cs.len() && value_char_exec(cs[k])
        invariant
            j <= k <= cs.len(),
            run_end(cs@, j as int) == run_end(cs@, k as int),
        decreases cs.len() - k,
    {
        k = k + 1;
    }
    k - j <= limit && (k == cs.len() || cs[k] == ',' || cs[k] == '"' || cs[k] == '\n' || cs[k] == '\r')
}

fn keyed_value_exec(cs: &Vec<char>, i: usize, m: &Vec<char>) -> (r: bool)
    requires
        i + m.len() <= cs.len(),
    ensures
        r == keyed_value_at(cs@, i as int, m@),
{
    let e = i + m.len();
    if e >= cs.len() || (cs[e] != ':' && cs[e] != '=') {
        return false;
    }
    let j = if e + 1 < cs.len() && cs[e + 1] == '"' { e + 2 } else { e + 1 };
    plain_value_exec(cs, j)
}

/// Whether every numeric value in `text` is one the playlist parser can take.
pub fn numbers_fit_in(text: &str) -> (r: bool)
    ensures
        r == numbers_fit(text@),
{
    let cs = chars_of(text);
    let keys: Vec<Vec<char>> = vec![
        vec!['E', 'X', 'T', 'I', 'N', 'F'],
        vec!['D', 'U', 'R', 'A', 'T', 'I', 'O', 'N'],
        vec!['B', 'Y', 'T', 'E', 'R', 'A', 'N', 'G', 'E'],
        vec!['S', 'E', 'Q', 'U', 'E', 'N', 'C', 'E'],
    ];
    let ghost nk = numeric_keys();
    proof {
        assert(keys@.len() == nk.len());
        assert(keys@[0]@ =~= nk[0]);
        assert(keys@[1]@ =~= nk[1]);
        assert(keys@[2]@ =~= nk[2]);
        assert(keys@[3]@ =~= nk[3]);
    }
    let mut i: usize = 0;
    while i < cs.len()
        invariant
            i <= cs.len(),
            cs@ == text@,
            nk == numeric_keys(),
            keys@.len() == nk.len(),
            forall|k: int| 0 <= k < nk.len() ==> (#[trigger] keys@[k])@ == nk[k],
            forall|ii: int, k: int|
                0 <= ii < i && 0 <= k < nk.len() && #[trigger] marker_at(cs@, ii, nk[k])
                    ==> keyed_value_at(cs@, ii, nk[k]),
        decreases cs.len() - i,
    {
        let mut k: usize = 0;
        while k < keys.len()
            invariant
                i < cs.len(),
                cs@ == text@,
                nk == numeric_keys(),
                keys@.len() == nk.len(),
                forall|q: int| 0 <= q < nk.len() ==> (#[trigger] keys@[q])@ == nk[q],
                k <= keys.len(),
                forall|ii: int, q: int|
                    0 <= ii < i && 0 <= q < nk.len() && #[trigger] marker_at(cs@, ii, nk[q])
                        ==> keyed_value_at(cs@, ii, nk[q]),
                forall|q: int|
                    0 <= q < k && #[trigger] marker_at(cs@, i as int, nk[q])
                        ==> keyed_value_at(cs@, i as int, nk[q]),
            decreases keys.len() - k,
        {
            let m = &keys[k];
            proof {
                assert(keys@[k as int]@ == nk[k as int]);
            }
            if matches_at(&cs, i, m) {
                if !keyed_value_exec(&cs, i, m) {
                    proof {
                        assert(marker_at(cs@, i as int, nk[k as int]));
                    }
                    return false;
                }
            }
            k = k + 1;
        }
        proof {
            assert forall|ii: int, q: int|
                0 <= ii < i + 1 && 0 <= q < nk.len() && #[trigger] marker_at(cs@, ii, nk[q])
                    implies keyed_value_at(cs@, ii, nk[q]) by {
                if ii == i {
                }
            }
        }
        i = i + 1;
    }
    true
}

/// The error type of `hls_m3u8`, carried through as it is.
#[verifier::external_type_specification]
#[verifier::external_body]
pub struct ExPlaylistError(hls_m3u8::Error);

/// What `hls_m3u8` makes of `text` as a media playlist, parsed with `excess_secs` of
/// allowed `#EXTINF` overshoot: the playlist, or `None` when the parser refuses it.
pub uninterp spec fn media_playlist(text: Seq<char>, excess_secs: u64) -> Option<MediaView>;

/// Parse `text` with `MediaPlaylist::builder().allowable_excess_duration(..).parse(..)`
/// and report each segment's number, URI, key methods, map and byte range, and the
/// playlist's media sequence, target duration and end list. The contract claims only
/// that the outcome is the one `media_playlist` names for the two arguments, each
/// segment's key methods taken without their order: the parser collects them from a
/// hash set, whose walk differs from process to process. The parser panics on some
/// numeric values (see [`numbers_fit`]), and on a target duration whose sum with the
/// excess overflows: `requires` leaves both out.
#[verifier::external_body]
fn parse_media_playlist(text: &str, excess_secs: u64) -> (r: Result<MediaInfo, hls_m3u8::Error>)
    requires
        numbers_fit(text@),
        excess_secs <= 1_000_000_000_000_000_000,
    ensures
        match r {
            Ok(m) => media_playlist(text@, excess_secs) == Some(m@),
            Err(_) => media_playlist(text@, excess_secs) is None,
        },
{
    MediaPlaylist::builder().allowable_excess_duration(std::time::Duration::from_secs(excess_secs))
        .parse(text).map(|p| MediaInfo(p.segments.values().map(|s| SegmentInfo(s.number(),
        s.uri().to_string(), s.keys.iter().map(|k| k.as_ref().map(|d| d.method.to_string())).collect(),
        s.map.as_ref().map(|m| (m.uri().to_string(), m.range().map(|r| (r.start(), r.end())))),
        s.byte_range.map(|r| (r.start(), r.end())))).collect(),
        p.media_sequence, p.target_duration.as_nanos(), p.has_end_list))
}

/// The message of an `hls_m3u8` error, as its `Display` writes it. Nothing is claimed
/// of the text.
#[verifier::external_body]
fn playlist_error_text(e: &hls_m3u8::Error) -> (r: String) {
    e.to_string()
}

/// An initialization section to write ahead of the segments that name it.
#[derive(Debug, Clone, PartialEq, Eq)]
pub struct Init {
    pub url: String,
    /// Inclusive `Range` bounds, or `None` for the whole resource.
    pub range: Option<(u64, u64)>,
}

pub struct InitView {
    pub url: Seq<char>,
    pub range: Option<(u64, u64)>,
}

impl View for Init {
    type V = InitView;

    open spec fn view(&self) -> InitView {
        InitView { url: self.url@, range: self.range }
    }
}

/// One segment to fetch.
pub struct Segment {
    /// Absolute media-sequence number: the identity a live playlist re-lists a segment
    /// under, and so what makes "already fetched" decidable.
    pub seq: usize,
    pub url: String,
    /// Inclusive `Range` bounds for an `#EXT-X-BYTERANGE` segment; `None` fetches the
    /// whole resource.
    pub range: Option<(u64, u64)>,
    pub init: Option<Init>,
}

pub struct SegmentOutView {
    pub seq: usize,
    pub url: Seq<char>,
    pub range: Option<(u64, u64)>,
    pub init: Option<InitView>,
}

pub open spec fn init_view(i: Option<Init>) -> Option<InitView> {
    match i {
        Some(i) => Some(i@),
        None => None,
    }
}

impl View for Segment {
    type V = SegmentOutView;

    open spec fn view(&self) -> SegmentOutView {
        SegmentOutView { seq: self.seq, url: self.url@, range: self.range, init: init_view(self.init) }
    }
}

/// One parsed playlist: what to fetch now, and what to do once it is fetched.
pub struct Snapshot {
    /// Segments numbered at or past the walker's cursor, in playlist order.
    pub fresh: Vec<Segment>,
    /// The playlist's own first sequence number.
    pub first_seq: usize,
    pub target_nanos: u128,
    /// `#EXT-X-ENDLIST`: the playlist is final.
    pub ended: bool,
}

pub struct SnapshotView {
    pub fresh: Seq<SegmentOutView>,
    pub first_seq: usize,
    pub target_nanos: u128,
    pub ended: bool,
}

impl View for Snapshot {
    type V = SnapshotView;

    open spec fn view(&self) -> SnapshotView {
        SnapshotView {
            fresh: self.fresh@.map_values(|s: Segment| s@),
            first_seq: self.first_seq,
            target_nanos: self.target_nanos,
            ended: self.ended,
        }
    }
}

/// Inclusive `Range` bounds for a byte range: from its start (0 when the parser left it
/// open) through its last byte. A range of no bytes counts as no range at all.
pub open spec fn span_bounds(r: ByteSpan) -> Option<(u64, u64)> {
    let start: int = match r.0 {
        Some(s) => s as int,
        None => 0,
    };
    let len: int = if r.1 >= start { r.1 - start } else { 0 };
    if len > 0 {
        Some((start as u64, (start + len - 1) as u64))
    } else {
        None
    }
}

pub open spec fn opt_span_bounds(r: Option<ByteSpan>) -> Option<(u64, u64)> {
    match r {
        Some(r) => span_bounds(r),
        None => None,
    }
}

/// Inclusive `Range` bounds for one byte range.
pub fn bounds(range: ByteSpan) -> (r: Option<(u64, u64)>)
    ensures
        r == span_bounds(range),
{
    let start: usize = match range.0 {
        Some(s) => s,
        None => 0,
    };
    let len: usize = if range.1 >= start { range.1 - start } else { 0 };
    if len > 0 {
        Some((start as u64, (start + len - 1) as u64))
    } else {
        None
    }
}

fn opt_bounds(range: Option<ByteSpan>) -> (r: Option<(u64, u64)>)
    ensures
        r == opt_span_bounds(range),
{
    match range {
        Some(b) => bounds(b),
        None => None,
    }
}

/// Whether a key that really encrypts is among `keys` (`METHOD=NONE` is none).
pub open spec fn has_real_key(keys: Multiset<Option<Seq<char>>>) -> bool {
    exists|m: Seq<char>| #[trigger] keys.contains(Some(m))
}

/// Why a listed segment cannot be fetched: the key methods in force when a real key
/// encrypts it, or a URI that does not resolve.
pub enum SegmentStop {
    Encrypted(Multiset<Option<Seq<char>>>),
    Url(UrlParseError),
}

/// Whether `e` reports `stop`: an encrypted segment as one of the real methods in
/// force, a URL failure as itself.
pub open spec fn stop_reported(stop: SegmentStop, e: HlsErrorView) -> bool {
    match stop {
        SegmentStop::Encrypted(keys) => e matches HlsErrorView::Encrypted(m) && keys.contains(Some(m)),
        SegmentStop::Url(u) => e == HlsErrorView::Url(u),
    }
}

/// Whether `r` is the outcome `expected` describes: the same snapshot, or an error that
/// reports the same stop.
pub open spec fn outcome_reported(expected: Result<SnapshotView, SegmentStop>, r: Result<SnapshotView, HlsErrorView>) -> bool {
    match expected {
        Ok(snap) => r == Ok::<SnapshotView, HlsErrorView>(snap),
        Err(stop) => r matches Err(e) && stop_reported(stop, e),
    }
}

/// The initialization section a segment's map names, resolved against `base`.
pub open spec fn init_of(base: Seq<char>, map: Option<MapView>) -> Result<Option<InitView>, UrlParseError> {
    match map {
        None => Ok(None),
        Some(m) => match joined_url(base, m.uri) {
            Ok(u) => Ok(Some(InitView { url: u, range: opt_span_bounds(m.range) })),
            Err(e) => Err(e),
        },
    }
}

/// The segment to fetch for one listed segment: refused when a real key encrypts it,
/// and with its map's and its own URI resolved against `base`.
pub open spec fn segment_of(base: Seq<char>, s: SegmentView) -> Result<SegmentOutView, SegmentStop> {
    if has_real_key(s.keys) {
        Err(SegmentStop::Encrypted(s.keys))
    } else {
        match init_of(base, s.map) {
            Err(e) => Err(SegmentStop::Url(e)),
            Ok(init) => match joined_url(base, s.uri) {
                Err(e) => Err(SegmentStop::Url(e)),
                Ok(u) => Ok(SegmentOutView { seq: s.number, url: u, range: opt_span_bounds(s.range), init }),
            },
        }
    }
}

/// The segments of `segs` numbered at or past `next_seq`, in order, or the first
/// failure among them.
pub open spec fn fresh_segments(base: Seq<char>, segs: Seq<SegmentView>, next_seq: usize)
    -> Result<Seq<SegmentOutView>, SegmentStop>
    decreases segs.len(),
{
    if segs.len() == 0 {
        Ok(Seq::empty())
    } else {
        match fresh_segments(base, segs.drop_last(), next_seq) {
            Err(e) => Err(e),
            Ok(done) => if segs.last().number < next_seq {
                Ok(done)
            } else {
                match segment_of(base, segs.last()) {
                    Ok(o) => Ok(done.push(o)),
                    Err(e) => Err(e),
                }
            },
        }
    }
}

/// What a walker at `next_seq` makes of a parsed media playlist whose segment URIs are
/// relative to `base`.
pub open spec fn snapshot_of(base: Seq<char>, media: MediaView, next_seq: usize) -> Result<SnapshotView, SegmentStop> {
    match fresh_segments(base, media.segments, next_seq) {
        Err(e) => Err(e),
        Ok(fresh) => Ok(SnapshotView {
            fresh,
            first_seq: media.media_sequence,
            target_nanos: media.target_nanos,
            ended: media.ended,
        }),
    }
}

/// Whether `r` is what a walker at `next_seq` makes of the playlist text at `base`.
/// A text whose numeric values do not all fit is refused with [`unfit_message`]; a
/// refusal by the parser is an [`HlsErrorView::Playlist`], whatever its message.
pub open spec fn parsed_snapshot(base: Seq<char>, text: Seq<char>, next_seq: usize, r: Result<SnapshotView, HlsErrorView>) -> bool {
    if !numbers_fit(text) {
        r == Err::<SnapshotView, HlsErrorView>(HlsErrorView::Playlist(unfit_message()))
    } else {
        match media_playlist(text, ALLOWABLE_EXCESS_SECS) {
            None => r is Err && r->Err_0 is Playlist,
            Some(media) => outcome_reported(snapshot_of(base, media, next_seq), r),
        }
    }
}

/// The method of a real key among `keys`, if one is there.
fn find_real_key(keys: &Vec<Option<String>>) -> (r: Option<String>)
    ensures
        match r {
            Some(m) => keys@.map_values(|k: Option<String>| opt_view(k)).to_multiset().contains(Some(m@)),
            None => !has_real_key(keys@.map_values(|k: Option<String>| opt_view(k)).to_multiset()),
        },
{
    let ghost all = keys@.map_values(|k: Option<String>| opt_view(k));
    proof {
        all.to_multiset_ensures();
    }
    let mut i: usize = 0;
    while i < keys.len()
        invariant
            i <= keys.len(),
            all == keys@.map_values(|k: Option<String>| opt_view(k)),
            forall|a: Option<Seq<char>>| all.contains(a) <==> #[trigger] all.to_multiset().count(a) > 0,
            forall|j: int| 0 <= j < i ==> (#[trigger] all[j]) is None,
        decreases keys.len() - i,
    {
        match &keys[i] {
            Some(method) => {
                assert(all[i as int] == Some(method@));
                assert(all.contains(Some(method@)));
                assert(all.to_multiset().contains(Some(method@)));
                let found = method.clone();
                assert(found@ == method@);
                return Some(found);
            },
            None => {
                assert(all[i as int] is None);
            },
        }
        i = i + 1;
    }
    proof {
        assert forall|m: Seq<char>| !(#[trigger] all.to_multiset().contains(Some(m))) by {
            if all.contains(Some(m)) {
                let j = choose|j: int| 0 <= j < all.len() && all[j] == Some(m);
                assert(all[j] is None);
            }
        }
    }
    None
}

/// The segment to fetch for one listed segment.
fn convert_segment(base: &str, s: &SegmentInfo) -> (r: Result<Segment, HlsError>)
    ensures
        match r {
            Ok(o) => segment_of(base@, s@) == Ok::<SegmentOutView, SegmentStop>(o@),
            Err(e) => segment_of(base@, s@) matches Err(stop) && stop_reported(stop, e@),
        },
{
    match find_real_key(&s.2) {
        Some(method) => {
            return Err(HlsError::Encrypted(method));
        },
        None => {},
    }
    let init = match &s.3 {
        None => None,
        Some(m) => match join_url(base, m.0.as_str()) {
            Ok(u) => Some(Init { url: u, range: opt_bounds(m.1) }),
            Err(e) => {
                return Err(HlsError::Url(e));
            },
        },
    };
    match join_url(base, s.1.as_str()) {
        Ok(u) => Ok(Segment { seq: s.0, url: u, range: opt_bounds(s.4), init }),
        Err(e) => Err(HlsError::Url(e)),
    }
}

/// A parse result as values.
pub open spec fn result_view(r: Result<Snapshot, HlsError>) -> Result<SnapshotView, HlsErrorView> {
    match r {
        Ok(s) => Ok(s@),
        Err(e) => Err(e@),
    }
}

/// What a walker at `next_seq` makes of a parsed media playlist whose segment URIs are
/// relative to the URL serialized as `base`: every segment numbered before `next_seq`
/// dropped, the rest resolved, and the playlist refused at the first segment a real key
/// encrypts (`METHOD=NONE` is no encryption).
pub fn snapshot_from(base: &str, media: &MediaInfo, next_seq: usize) -> (r: Result<Snapshot, HlsError>)
    ensures
        match r {
            Ok(s) => snapshot_of(base@, media@, next_seq) == Ok::<SnapshotView, SegmentStop>(s@),
            Err(e) => snapshot_of(base@, media@, next_seq) matches Err(stop) && stop_reported(stop, e@),
        },
{
    let ghost segs = media@.segments;
    let mut fresh: Vec<Segment> = Vec::new();
    let mut i: usize = 0;
    proof {
        assert(segs.take(0) =~= Seq::<SegmentView>::empty());
        assert(fresh@.map_values(|s: Segment| s@) =~= Seq::<SegmentOutView>::empty());
    }
    while i < media.0.len()
        invariant
            i <= media.0.len(),
            segs == media@.segments,
            segs.len() == media.0.len(),
            fresh_segments(base@, segs.take(i as int), next_seq)
                == Ok::<Seq<SegmentOutView>, SegmentStop>(fresh@.map_values(|s: Segment| s@)),
        decreases media.0.len() - i,
    {
        let s = &media.0[i];
        proof {
            assert(segs.take(i + 1).drop_last() =~= segs.take(i as int));
            assert(segs.take(i + 1).last() == s@);
        }
        if s.0 >= next_seq {
            match convert_segment(base, s) {
                Ok(o) => {
                    let ghost before = fresh@.map_values(|x: Segment| x@);
                    fresh.push(o);
                    proof {
                        assert(fresh@.map_values(|x: Segment| x@) =~= before.push(o@));
                    }
                },
                Err(e) => {
                    proof {
                        lemma_fresh_error_sticks(base@, segs, i + 1, next_seq);
                    }
                    return Err(e);
                },
            }
        }
        i = i + 1;
    }
    proof {
        assert(segs.take(i as int) =~= segs);
    }
    Ok(Snapshot {
        fresh,
        first_seq: media.1,
        target_nanos: media.2,
        ended: media.3,
    })
}

proof fn lemma_fresh_error_sticks(base: Seq<char>, segs: Seq<SegmentView>, k: int, next_seq: usize)
    requires
        0 <= k <= segs.len(),
        fresh_segments(base, segs.take(k), next_seq) is Err,
    ensures
        fresh_segments(base, segs, next_seq) == fresh_segments(base, segs.take(k), next_seq),
    decreases segs.len() - k,
{
    if k < segs.len() {
        assert(segs.take(k + 1).drop_last() =~= segs.take(k));
        lemma_fresh_error_sticks(base, segs, k + 1, next_seq);
    } else {
        assert(segs.take(k) =~= segs);
    }
}

/// Law: a parse never hands back a segment numbered before the walker's cursor, nor
/// more segments than the playlist lists, so a walker never fetches a segment twice.
pub proof fn fresh_segments_start_at_the_cursor(base: Seq<char>, segs: Seq<SegmentView>, next_seq: usize)
    ensures
        fresh_segments(base, segs, next_seq) matches Ok(out) ==> out.len() <= segs.len()
            && forall|i: int| 0 <= i < out.len() ==> (#[trigger] out[i]).seq >= next_seq,
    decreases segs.len(),
{
    if segs.len() > 0 {
        fresh_segments_start_at_the_cursor(base, segs.drop_last(), next_seq);
    }
}

/// Law: re-polling a playlist that lists nothing at or past the cursor yields nothing
/// to fetch: an unchanged playlist is a stale poll, not a refetch.
pub proof fn an_unchanged_playlist_yields_nothing(base: Seq<char>, segs: Seq<SegmentView>, next_seq: usize)
    requires
        forall|i: int| 0 <= i < segs.len() ==> (#[trigger] segs[i]).number < next_seq,
    ensures
        fresh_segments(base, segs, next_seq) == Ok::<Seq<SegmentOutView>, SegmentStop>(Seq::empty()),
    decreases segs.len(),
{
    if segs.len() > 0 {
        assert forall|i: int| 0 <= i < segs.drop_last().len() implies (#[trigger] segs.drop_last()[i]).number < next_seq by {
            assert(segs.drop_last()[i] == segs[i]);
        }
        an_unchanged_playlist_yields_nothing(base, segs.drop_last(), next_seq);
        assert(segs.last() == segs[segs.len() - 1]);
    }
}

/// Parse one playlist into what the walker needs, dropping every segment numbered
/// before `next_seq`; segment URIs resolve against the URL serialized as `base`.
pub fn parse(base: &str, text: &str, next_seq: usize) -> (r: Result<Snapshot, HlsError>)
    ensures
        parsed_snapshot(base@, text@, next_seq, result_view(r)),
{
    if !numbers_fit_in(text) {
        proof {
            reveal_strlit("hls playlist holds a numeric value that is not plain or too long");
        }
        return Err(HlsError::Playlist(
            "hls playlist holds a numeric value that is not plain or too long".to_owned(),
        ));
    }
    match parse_media_playlist(text, ALLOWABLE_EXCESS_SECS) {
        Ok(media) => snapshot_from(base, &media, next_seq),
        Err(e) => Err(HlsError::Playlist(playlist_error_text(&e))),
    }
}

/// A rendition a variant is associated with, as the parser reports it: whether it is
/// `TYPE=AUDIO`, its `URI` if it has one, and whether it is `DEFAULT=YES`.
pub type RenditionInfo = (bool, Option<String>, bool);

/// One variant of a master playlist as the parser reports it: whether it is an
/// I-frame rendition, whether it declares a `RESOLUTION` (that it carries video), its
/// `BANDWIDTH`, its URI, and the renditions it is associated with.
pub struct VariantInfo(pub bool, pub bool, pub u64, pub String, pub Vec<RenditionInfo>);

/// A master playlist as the parser reports it: its variants, in order.
pub struct MasterInfo(pub Vec<VariantInfo>);

/// A [`RenditionInfo`] as values.
pub struct RenditionView {
    pub is_audio: bool,
    pub uri: Option<Seq<char>>,
    pub is_default: bool,
}

/// A [`VariantInfo`] as values.
pub struct VariantView {
    pub iframe: bool,
    pub has_video: bool,
    pub bandwidth: u64,
    pub uri: Seq<char>,
    pub renditions: Seq<RenditionView>,
}

pub open spec fn rendition_view(r: RenditionInfo) -> RenditionView {
    RenditionView { is_audio: r.0, uri: opt_view(r.1), is_default: r.2 }
}

pub open spec fn renditions_view(rs: Seq<RenditionInfo>) -> Seq<RenditionView> {
    rs.map_values(|r: RenditionInfo| rendition_view(r))
}

impl View for VariantInfo {
    type V = VariantView;

    open spec fn view(&self) -> VariantView {
        VariantView {
            iframe: self.0,
            has_video: self.1,
            bandwidth: self.2,
            uri: self.3@,
            renditions: renditions_view(self.4@),
        }
    }
}

impl View for MasterInfo {
    type V = Seq<VariantView>;

    open spec fn view(&self) -> Seq<VariantView> {
        self.0@.map_values(|v: VariantInfo| v@)
    }
}

/// What `hls_m3u8` makes of `text` as a master playlist: its variants, or `None` when
/// the parser refuses it.
pub uninterp spec fn master_playlist(text: Seq<char>) -> Option<Seq<VariantView>>;

/// Parse `text` with `MasterPlaylist::try_from` and report each variant, with the
/// renditions that `MasterPlaylist::associated_with` names for it. The contract claims
/// only that the outcome is the one `master_playlist` names for the text. Every tag line
/// is parsed, so the panics that [`numbers_fit`] rules out are reached here too:
/// `requires` leaves them out.
#[verifier::external_body]
fn parse_master_playlist(text: &str) -> (r: Result<MasterInfo, hls_m3u8::Error>)
    requires
        numbers_fit(text@),
    ensures
        match r {
            Ok(m) => master_playlist(text@) == Some(m@),
            Err(_) => master_playlist(text@) is None,
        },
{
    MasterPlaylist::try_from(text).map(|m| MasterInfo(m.variant_streams.iter().map(|v| {
        let (VariantStream::ExtXIFrame { uri, .. } | VariantStream::ExtXStreamInf { uri, .. }) = v;
        VariantInfo(matches!(v, VariantStream::ExtXIFrame { .. }), v.resolution().is_some(),
            v.bandwidth(), uri.to_string(), m.associated_with(v).map(|r| (matches!(r.media_type,
            MediaType::Audio), r.uri().map(|u| u.to_string()), r.is_default)).collect())
    }).collect()))
}

/// Parse a master playlist, a refusal being an [`HlsError::Playlist`]: with
/// [`unfit_message`] for a text whose numeric values do not all fit.
pub fn parse_master(text: &str) -> (r: Result<MasterInfo, HlsError>)
    ensures
        !numbers_fit(text@) ==> r is Err && r->Err_0@ == HlsErrorView::Playlist(unfit_message()),
        numbers_fit(text@) ==> match r {
            Ok(m) => master_playlist(text@) == Some(m@),
            Err(e) => master_playlist(text@) is None && e is Playlist,
        },
{
    if !numbers_fit_in(text) {
        proof {
            reveal_strlit("hls playlist holds a numeric value that is not plain or too long");
        }
        return Err(HlsError::Playlist(
            "hls playlist holds a numeric value that is not plain or too long".to_owned(),
        ));
    }
    match parse_master_playlist(text) {
        Ok(m) => Ok(m),
        Err(e) => Err(HlsError::Playlist(playlist_error_text(&e))),
    }
}

/// Whether variant `a` is cheaper to play than `b`: one that declares no video beats one
/// that does, and between equals the lower bandwidth wins.
pub open spec fn cheaper(a: VariantView, b: VariantView) -> bool {
    (!a.has_video && b.has_video) || (a.has_video == b.has_video && a.bandwidth < b.bandwidth)
}

/// Whether `i` is the variant to follow: the first of the cheapest variants that are not
/// I-frame renditions.
pub open spec fn is_picked(vs: Seq<VariantView>, i: int) -> bool {
    &&& 0 <= i < vs.len()
    &&& !vs[i].iframe
    &&& forall|j: int| 0 <= j < vs.len() && !vs[j].iframe ==> !cheaper(#[trigger] vs[j], vs[i])
    &&& forall|j: int| 0 <= j < i && !vs[j].iframe ==> cheaper(vs[i], #[trigger] vs[j])
}

/// A rendition with a playlist of its own to follow: audio, with a URI.
pub open spec fn followable(r: RenditionView) -> bool {
    r.is_audio && r.uri is Some
}

/// Whether `k` is the audio rendition to follow: the first default one among the
/// followable renditions, or the first of them when none is the default.
pub open spec fn is_audio_picked(rs: Seq<RenditionView>, k: int) -> bool {
    &&& 0 <= k < rs.len()
    &&& followable(rs[k])
    &&& forall|j: int| #![trigger rs[j]] 0 <= j < rs.len() && followable(rs[j]) ==> !(rs[j].is_default && !rs[k].is_default)
    &&& forall|j: int| #![trigger rs[j]] 0 <= j < k && followable(rs[j]) ==> (rs[k].is_default && !rs[j].is_default)
}

/// Whether a variant has an audio rendition of its own to follow.
pub open spec fn has_followable(rs: Seq<RenditionView>) -> bool {
    exists|j: int| 0 <= j < rs.len() && followable(#[trigger] rs[j])
}

/// Whether `uri` is the playlist to walk for variant `v`: its separate audio playlist
/// when it has one, else the variant itself.
pub open spec fn walks_to(v: VariantView, uri: Seq<char>) -> bool {
    if has_followable(v.renditions) {
        exists|k: int| #[trigger] is_audio_picked(v.renditions, k) && uri == v.renditions[k].uri->0
    } else {
        uri == v.uri
    }
}

/// Whether `b` is the audio rendition to follow among the first `k` of `rs`.
pub open spec fn audio_picked_among(rs: Seq<RenditionView>, k: int, b: int) -> bool {
    &&& 0 <= b < k
    &&& followable(rs[b])
    &&& forall|j: int| #![trigger rs[j]] 0 <= j < k && followable(rs[j]) ==> !(rs[j].is_default && !rs[b].is_default)
    &&& forall|j: int| #![trigger rs[j]] 0 <= j < b && followable(rs[j]) ==> (rs[b].is_default && !rs[j].is_default)
}

/// The playlist holding a variant's audio, when the variant does not hold it itself: the
/// default audio rendition with a URI, or the first such one.
fn demuxed_audio(renditions: &Vec<RenditionInfo>) -> (r: Option<String>)
    ensures
        match r {
            Some(u) => exists|k: int| #[trigger] is_audio_picked(renditions_view(renditions@), k)
                && u@ == renditions_view(renditions@)[k].uri->0,
            None => !has_followable(renditions_view(renditions@)),
        },
{
    let ghost rs = renditions_view(renditions@);
    let mut best: Option<usize> = None;
    let mut k: usize = 0;
    while k < renditions.len()
        invariant
            k <= renditions.len(),
            rs == renditions_view(renditions@),
            rs.len() == renditions.len(),
            best is None ==> forall|j: int| 0 <= j < k ==> !followable(#[trigger] rs[j]),
            best matches Some(b) ==> audio_picked_among(rs, k as int, b as int),
        decreases renditions.len() - k,
    {
        let r = &renditions[k];
        assert(rs[k as int] == rendition_view(*r));
        assert(followable(rs[k as int]) == (r.0 && r.1.is_some()));
        if r.0 && r.1.is_some() {
            match best {
                None => {
                    best = Some(k);
                    assert forall|j: int| #![trigger rs[j]] 0 <= j < k && followable(rs[j]) implies
                        (rs[k as int].is_default && !rs[j].is_default) by {
                        assert(!followable(rs[j]));
                    }
                },
                Some(b) => {
                    assert(rs[b as int] == rendition_view(renditions@[b as int]));
                    if r.2 && !renditions[b].2 {
                        assert(!rs[b as int].is_default);
                        best = Some(k);
                        assert forall|j: int| #![trigger rs[j]] 0 <= j < k && followable(rs[j]) implies
                            (rs[k as int].is_default && !rs[j].is_default) by {
                            assert(!(rs[j].is_default && !rs[b as int].is_default));
                        }
                    }
                },
            }
        }
        k = k + 1;
    }
    match best {
        None => None,
        Some(b) => {
            assert(is_audio_picked(rs, b as int));
            match &renditions[b].1 {
                Some(u) => Some(u.clone()),
                None => None,
            }
        },
    }
}

/// The playlist to follow out of a master: the cheapest variant, preferring one that
/// declares no video, redirected to its separate audio playlist when it has one; `None`
/// when every variant is an I-frame rendition.
pub fn pick_variant(master: &MasterInfo) -> (r: Option<String>)
    ensures
        match r {
            Some(u) => picked_target(master@, u@),
            None => all_iframe(master@),
        },
{
    let ghost vs = master@;
    let mut best: Option<usize> = None;
    let mut i: usize = 0;
    while i < master.0.len()
        invariant
            i <= master.0.len(),
            vs == master@,
            vs.len() == master.0.len(),
            match best {
                None => forall|j: int| 0 <= j < i ==> (#[trigger] vs[j]).iframe,
                Some(b) => b < i && !vs[b as int].iframe
                    && (forall|j: int| 0 <= j < i && !vs[j].iframe ==> !cheaper(#[trigger] vs[j], vs[b as int]))
                    && (forall|j: int| 0 <= j < b && !vs[j].iframe ==> cheaper(vs[b as int], #[trigger] vs[j])),
            },
        decreases master.0.len() - i,
    {
        let v = &master.0[i];
        assert(vs[i as int] == v@);
        if !v.0 {
            match best {
                None => {
                    best = Some(i);
                },
                Some(b) => {
                    let w = &master.0[b];
                    if (!v.1 && w.1) || (v.1 == w.1 && v.2 < w.2) {
                        best = Some(i);
                    }
                },
            }
        }
        i = i + 1;
    }
    match best {
        None => None,
        Some(b) => {
            let v = &master.0[b];
            assert(is_picked(vs, b as int));
            match demuxed_audio(&v.4) {
                Some(u) => Some(u),
                None => Some(v.3.clone()),
            }
        },
    }
}

/// Law: the variant followed is the cheapest playable one. It is no I-frame rendition;
/// it declares no video whenever some playable variant declares none; no playable
/// variant that is like it in carrying video or not has a lower bandwidth; and every
/// playable variant before it is strictly dearer: it carries video where the picked one
/// does not, or has a higher bandwidth.
pub proof fn the_cheapest_variant_is_followed(vs: Seq<VariantView>, i: int)
    requires
        is_picked(vs, i),
    ensures
        0 <= i < vs.len(),
        !vs[i].iframe,
        forall|j: int| 0 <= j < vs.len() && !vs[j].iframe && !vs[j].has_video ==> !(#[trigger] vs[j]).has_video
            && !vs[i].has_video,
        forall|j: int| 0 <= j < vs.len() && !vs[j].iframe && vs[j].has_video == vs[i].has_video
            ==> vs[i].bandwidth <= (#[trigger] vs[j]).bandwidth,
        forall|j: int| 0 <= j < i && !vs[j].iframe ==> ((#[trigger] vs[j]).has_video && !vs[i].has_video)
            || (vs[j].has_video == vs[i].has_video && vs[i].bandwidth < vs[j].bandwidth),
{
}

/// The tag that tells a master playlist from a media playlist.
pub open spec fn variant_tag() -> Seq<char> {
    "#EXT-X-STREAM-INF"@
}

/// The message for a master playlist that names nothing to play.
pub open spec fn no_variant_message() -> Seq<char> {
    "master playlist names no playable variant"@
}

/// A resolution result as values.
pub open spec fn follow_view(r: Result<Option<String>, HlsError>) -> Result<Option<Seq<char>>, HlsErrorView> {
    match r {
        Ok(o) => Ok(opt_view(o)),
        Err(e) => Err(e@),
    }
}

/// Whether every variant is an I-frame rendition, leaving nothing to play.
pub open spec fn all_iframe(vs: Seq<VariantView>) -> bool {
    forall|i: int| 0 <= i < vs.len() ==> (#[trigger] vs[i]).iframe
}

/// Whether `u` is the playlist that the variant picked out of `vs` walks to.
pub open spec fn picked_target(vs: Seq<VariantView>, u: Seq<char>) -> bool {
    exists|i: int| #[trigger] is_picked(vs, i) && walks_to(vs[i], u)
}

/// Whether `r` is what fetching the playlist text `text` from the URL serialized as
/// `url` leads to: `Ok(None)` for a media playlist, which is walked as it is; for a
/// master, the URL of the playlist its picked variant walks to, resolved against `url`;
/// a master whose numeric values do not all fit, a refusal by the parser, or a master
/// with nothing playable, as [`HlsErrorView::Playlist`].
pub open spec fn follows_to(url: Seq<char>, text: Seq<char>, r: Result<Option<Seq<char>>, HlsErrorView>) -> bool {
    if !has_substring(text, variant_tag()) {
        r == Ok::<Option<Seq<char>>, HlsErrorView>(None)
    } else if !numbers_fit(text) {
        r == Err::<Option<Seq<char>>, HlsErrorView>(HlsErrorView::Playlist(unfit_message()))
    } else {
        match master_playlist(text) {
            None => r is Err && r->Err_0 is Playlist,
            Some(vs) => if all_iframe(vs) {
                r == Err::<Option<Seq<char>>, HlsErrorView>(HlsErrorView::Playlist(no_variant_message()))
            } else {
                exists|u: Seq<char>| #[trigger] picked_target(vs, u)
                    && r == match joined_url(url, u) {
                        Ok(j) => Ok::<Option<Seq<char>>, HlsErrorView>(Some(j)),
                        Err(e) => Err::<Option<Seq<char>>, HlsErrorView>(HlsErrorView::Url(e)),
                    }
            },
        }
    }
}

/// Where the playlist text fetched from `url` leads: `None` when it is a media playlist
/// already, else the URL of the variant (or of its separate audio rendition) to fetch
/// instead. One hop is enough: HLS does not allow a variant to name another master.
pub fn follow_master(url: &str, text: &str) -> (r: Result<Option<String>, HlsError>)
    ensures
        follows_to(url@, text@, follow_view(r)),
{
    if !contains_substring(text, "#EXT-X-STREAM-INF") {
        return Ok(None);
    }
    let master = match parse_master(text) {
        Ok(m) => m,
        Err(e) => {
            return Err(e);
        },
    };
    match pick_variant(&master) {
        None => {
            let r = Err(HlsError::Playlist("master playlist names no playable variant".to_owned()));
            proof {
                assert(master_playlist(text@) == Some(master@));
                assert(follows_to(url@, text@, follow_view(r)));
            }
            r
        },
        Some(v) => {
            let ghost vs = master@;
            let ghost i = choose|i: int| #[trigger] is_picked(vs, i) && walks_to(vs[i], v@);
            proof {
                assert(is_picked(vs, i) && walks_to(vs[i], v@));
                assert(!all_iframe(vs)) by {
                    assert(!vs[i].iframe);
                }
            }
            let joined = join_url(url, v.as_str());
            let r = match joined {
                Ok(j) => Ok(Some(j)),
                Err(e) => Err(HlsError::Url(e)),
            };
            proof {
                assert(follow_view(r) == match joined_url(url@, v@) {
                    Ok(j) => Ok::<Option<Seq<char>>, HlsErrorView>(Some(j)),
                    Err(e) => Err::<Option<Seq<char>>, HlsErrorView>(HlsErrorView::Url(e)),
                });
                assert(is_picked(vs, i) && walks_to(vs[i], v@));
                assert(picked_target(vs, v@));
                assert(has_substring(text@, variant_tag()));
                assert(master_playlist(text@) == Some(vs));
                assert(follows_to(url@, text@, follow_view(r)));
            }
            r
        },
    }
}

/// The entries of `es` that carry no credentials: every `cookie` and `authorization`
/// value dropped.
pub open spec fn without_credentials(es: Multiset<(Seq<char>, Seq<u8>)>) -> Multiset<(Seq<char>, Seq<u8>)> {
    es.filter(|e: (Seq<char>, Seq<u8>)| e.0 != "cookie"@).filter(|e: (Seq<char>, Seq<u8>)| e.0 != "authorization"@)
}

/// `headers` as they should be sent to a URL on `url_host`: whole on the host they were
/// minted for, without `Cookie` and `Authorization` anywhere else. The rest (a
/// `User-Agent`, a `Referer`) is what makes a multi-host CDN serve the request at all,
/// so it travels.
pub fn strip_foreign_credentials(headers: &HeaderMap, credentials_host: Option<&str>, url_host: Option<&str>)
    -> (r: HeaderMap)
    ensures
        header_entries(r) == if opt_str_view(url_host) == opt_str_view(credentials_host) {
            header_entries(*headers)
        } else {
            without_credentials(header_entries(*headers))
        },
{
    let mut out = clone_headers(headers);
    let same_host = match (url_host, credentials_host) {
        (Some(a), Some(b)) => same_text(a, b),
        (None, None) => true,
        _ => false,
    };
    if !same_host {
        proof {
            reveal_strlit("cookie");
            reveal_strlit("authorization");
        }
        remove_header(&mut out, "cookie");
        remove_header(&mut out, "authorization");
    }
    out
}

/// How long a walker waits before re-polling a playlist: its target duration, but never
/// less than `min_poll`.
pub fn repoll_wait(target_nanos: u128, min_poll: u128) -> (r: u128)
    ensures
        r == if target_nanos >= min_poll { target_nanos } else { min_poll },
{
    if target_nanos >= min_poll { target_nanos } else { min_poll }
}

/// Since when a playlist has added nothing, in nanoseconds on the walker's own clock.
pub struct StaleClock {
    pub since: Option<u128>,
}

impl StaleClock {
    /// A clock for a walk that has seen nothing yet.
    pub fn new() -> (r: Self)
        ensures
            r.since is None,
    {
        StaleClock { since: None }
    }

    /// Account for one written snapshot at time `now`, and say whether the walk goes
    /// on: never past `#EXT-X-ENDLIST`; after a snapshot that grew, always, and the
    /// clock restarts; after one that did not, while the playlist has been still for
    /// less than `stale_after`, counted from the first snapshot that added nothing.
    pub fn settle(&mut self, ended: bool, grew: bool, now: u128, stale_after: u128) -> (go_on: bool)
        requires
            old(self).since matches Some(t) ==> t <= now,
        ensures
            ended ==> !go_on && final(self).since == old(self).since,
            !ended && grew ==> go_on && final(self).since is None,
            !ended && !grew ==> {
                let t = match old(self).since {
                    Some(t) => t,
                    None => now,
                };
                final(self).since == Some(t) && go_on == (now - t < stale_after)
            },
    {
        if ended {
            return false;
        }
        if grew {
            self.since = None;
            return true;
        }
        let t = match self.since {
            Some(t) => t,
            None => now,
        };
        self.since = Some(t);
        now - t < stale_after
    }
}

/// Whether two initialization sections are the same one.
fn same_init(a: &Init, b: &Init) -> (r: bool)
    ensures
        r == (a@ == b@),
{
    same_text(a.url.as_str(), b.url.as_str()) && match (a.range, b.range) {
        (Some(x), Some(y)) => x.0 == y.0 && x.1 == y.1,
        (None, None) => true,
        _ => false,
    }
}

/// Whether a segment's initialization section must be fetched before it: it names one,
/// and that one is not the section written last.
pub open spec fn init_to_fetch_spec(segment: &Segment, written: Option<Init>) -> bool {
    segment.init is Some && init_view(written) != init_view(segment.init)
}

/// Whether a segment's initialization section must be fetched before it: it names one,
/// and that one is not the section written last.
pub fn init_to_fetch(segment: &Segment, written: &Option<Init>) -> (r: bool)
    ensures
        r == init_to_fetch_spec(segment, *written),
{
    match &segment.init {
        None => false,
        Some(init) => match written {
            None => true,
            Some(w) => !same_init(w, init),
        },
    }
}

/// Where a walk stands: the number of the next segment to fetch, and the
/// initialization section written last.
pub struct Cursor {
    pub next_seq: usize,
    pub init: Option<Init>,
}

impl Cursor {
    /// A walk that starts at segment `first_seq`, with no initialization section written.
    pub fn new(first_seq: usize) -> (r: Self)
        ensures
            r.next_seq == first_seq,
            r.init is None,
    {
        Cursor { next_seq: first_seq, init: None }
    }

    /// The initialization section to fetch ahead of `segment`: the one it names, unless
    /// that is the section written last.
    pub fn init_ahead_of(&self, segment: &Segment) -> (r: Option<Init>)
        ensures
            init_view(r) == if init_to_fetch_spec(segment, self.init) { init_view(segment.init) } else { None },
    {
        if init_to_fetch(segment, &self.init) {
            match &segment.init {
                Some(i) => Some(Init { url: i.url.clone(), range: i.range }),
                None => None,
            }
        } else {
            None
        }
    }

    /// Step past `segment` once it is written: the next segment to fetch is the one
    /// after it, and the section written last is the one it names, if it names one.
    pub fn advance(&mut self, segment: &Segment)
        requires
            segment.seq < usize::MAX,
        ensures
            final(self).next_seq == segment.seq + 1,
            init_view(final(self).init) == match segment.init {
                Some(i) => Some(i@),
                None => init_view(old(self).init),
            },
    {
        self.next_seq = segment.seq + 1;
        if let Some(i) = &segment.init {
            self.init = Some(Init { url: i.url.clone(), range: i.range });
        }
    }
}

/// Why a segment response cannot be written to the tail.
#[derive(Debug, Clone, Copy, PartialEq, Eq)]
pub enum ResponseRefusal {
    /// The server answered with a status that is not a success.
    Status(u16),
    /// A range request answered with a success other than `206`: a body that cannot be
    /// placed in the stream.
    NotPartial { start: u64, end: u64, status: u16 },
}

/// What a response with `status` to a request for `range` lets the walker write: the
/// number of bytes the range asks for (`None` for the whole resource), or why nothing
/// may be written. Only a `206` honours a range.
pub fn expected_body(range: Option<(u64, u64)>, status: u16) -> (r: Result<Option<u64>, ResponseRefusal>)
    requires
        range matches Some(b) ==> b.0 <= b.1 < u64::MAX,
    ensures
        !(200 <= status <= 299) ==> r == Err::<Option<u64>, ResponseRefusal>(ResponseRefusal::Status(status)),
        200 <= status <= 299 ==> r == match range {
            None => Ok::<Option<u64>, ResponseRefusal>(None),
            Some(b) => if status == 206 {
                Ok(Some((b.1 - b.0 + 1) as u64))
            } else {
                Err(ResponseRefusal::NotPartial { start: b.0, end: b.1, status })
            },
        },
{
    if !(200 <= status && status <= 299) {
        return Err(ResponseRefusal::Status(status));
    }
    match range {
        None => Ok(None),
        Some((start, end)) => {
            if status == 206 {
                Ok(Some(end - start + 1))
            } else {
                Err(ResponseRefusal::NotPartial { start, end, status })
            }
        },
    }
}

/// How many bytes of a body chunk of `chunk_len` bytes to write when `written` are
/// written already: all of them, but never past the `wanted` length of a range, since a
/// server that over-runs the range still tiles the resource up to its boundary.
pub fn body_take(wanted: Option<u64>, written: u64, chunk_len: usize) -> (r: usize)
    requires
        wanted matches Some(w) ==> written <= w,
    ensures
        r == match wanted {
            Some(w) => if written + chunk_len > w { (w - written) as usize } else { chunk_len },
            None => chunk_len,
        },
{
    match wanted {
        Some(w) => {
            if chunk_len as u64 > w - written {
                (w - written) as usize
            } else {
                chunk_len
            }
        },
        None => chunk_len,
    }
}

/// The shortfall of a range body that ended early, as `(written, wanted)`: a hole that
/// would put every later segment at the wrong offset. A cancelled walk is the one
/// expected short read.
pub fn range_shortfall(wanted: Option<u64>, written: u64, cancelled: bool) -> (r: Option<(u64, u64)>)
    ensures
        r == match wanted {
            Some(w) => if written < w && !cancelled { Some((written, w)) } else { None },
            None => None,
        },
{
    match wanted {
        Some(w) => {
            if written < w && !cancelled {
                Some((written, w))
            } else {
                None
            }
        },
        None => None,
    }
}

/// The value of the `Range` header for the bytes `start` through `end`, both included.
pub open spec fn inclusive_range_value(start: u64, end: u64) -> Seq<char> {
    "bytes="@ + decimal(start as nat) + "-"@ + decimal(end as nat)
}

/// The `Range` header value for the bytes `start` through `end`, both included, as an
/// `#EXT-X-BYTERANGE` names them.
pub fn inclusive_range_header(start: u64, end: u64) -> (r: String)
    ensures
        r@ == inclusive_range_value(start, end),
{
    let mut s = "bytes=".to_owned();
    let a = decimal_string(start);
    s.append(a.as_str());
    s.append("-");
    let b = decimal_string(end);
    s.append(b.as_str());
    s
}

/// What `StatusCode`'s `Display` prints for `status`.
pub open spec fn status_text(status: u16) -> Seq<char> {
    decimal(status as nat) + " "@ + status_reason(status)
}

/// The message of a refused response to a request for `what` (a segment, or an
/// initialization section).
pub open spec fn refusal_message(what: Seq<char>, r: ResponseRefusal) -> Seq<char> {
    match r {
        ResponseRefusal::Status(status) => what + " request failed with status "@ + status_text(status),
        ResponseRefusal::NotPartial { start, end, status } =>
            what + " request for "@ + inclusive_range_value(start, end) + " was answered "@
                + status_text(status) + ", not 206"@,
    }
}

impl ResponseRefusal {
    /// The refusal's message, for a request for `what`. It holds an HTTP status, which
    /// has three digits.
    pub fn message(&self, what: &str) -> (r: String)
        requires
            match *self {
                ResponseRefusal::Status(status) => 100 <= status <= 999,
                ResponseRefusal::NotPartial { status, .. } => 100 <= status <= 999,
            },
        ensures
            r@ == refusal_message(what@, *self),
    {
        let mut s = what.to_owned();
        match self {
            ResponseRefusal::Status(status) => {
                s.append(" request failed with status ");
                let d = status_display(*status);
                s.append(d.as_str());
            },
            ResponseRefusal::NotPartial { start, end, status } => {
                s.append(" request for ");
                let h = inclusive_range_header(*start, *end);
                s.append(h.as_str());
                s.append(" was answered ");
                let d = status_display(*status);
                s.append(d.as_str());
                s.append(", not 206");
            },
        }
        proof { assert(s@ =~= refusal_message(what@, *self)); }
        s
    }
}

/// The message of a range body for `what` that ended after `written` of its `wanted`
/// bytes.
pub fn shortfall_message(what: &str, written: u64, wanted: u64) -> (r: String)
    ensures
        r@ == what@ + " range request delivered "@ + decimal(written as nat) + " of "@
            + decimal(wanted as nat) + " bytes"@,
{
    let mut s = what.to_owned();
    s.append(" range request delivered ");
    let a = decimal_string(written);
    s.append(a.as_str());
    s.append(" of ");
    let b = decimal_string(wanted);
    s.append(b.as_str());
    s.append(" bytes");
    s
}

/// The message of a request for `what` whose `stage` (the request, or its body) ran
/// past the request timeout, which `{:?}` prints as its whole seconds and `s`.
pub fn timed_out_message(what: &str, stage: &str) -> (r: String)
    ensures
        r@ == what@ + " "@ + stage@ + " timed out after "@
            + decimal((REQUEST_TIMEOUT_NANOS / 1_000_000_000) as nat) + "s"@,
{
    let mut s = what.to_owned();
    s.append(" ");
    s.append(stage);
    s.append(" timed out after ");
    let secs: u128 = REQUEST_TIMEOUT_NANOS / 1_000_000_000;
    let d = decimal_string(secs as u64);
    s.append(d.as_str());
    s.append("s");
    s
}

/// The failure of a playlist request the server answered with `status`, other than a
/// success.
pub fn playlist_status_failure(status: u16) -> (r: HlsError)
    requires
        100 <= status <= 999,
    ensures
        r matches HlsError::Fetch(m) && m@ == "playlist request failed with status "@ + status_text(status),
{
    let mut s = "playlist request failed with status ".to_owned();
    let d = status_display(status);
    s.append(d.as_str());
    HlsError::Fetch(s)
}

} // verus!
