//! Which byte path serves a resolved yt-dlp format. Every byte the bot fetches lands in
//! a tail file; this module only decides which producer fills it, and what that
//! producer is handed.

use vstd::prelude::*;
use vstd::string::*;
use vstd::multiset::Multiset;
use reqwest::header::HeaderMap;
use crate::models::url::youtube_url::opt_view;
use crate::utils::text::{pairs_view, same_text};
use crate::ytdl::headers::{build_header_map, header_entries, headers_from};

verus! {

/// What the byte paths read of a resolved yt-dlp format.
pub struct FormatInfo {
    /// yt-dlp's `protocol`: `https`, `m3u8_native`, and so on.
    pub protocol: Option<String>,
    /// The signed media URL; empty for a format with no single fetchable URL.
    pub url: String,
    /// The exact size of the media, when yt-dlp knows it.
    pub filesize: Option<u64>,
    /// The headers yt-dlp says the URL must be fetched with.
    pub http_headers: Option<Vec<(String, String)>>,
}

/// The byte path chosen for a resolved format, with what its producer needs.
pub enum ByteSource {
    /// Direct http(s): byte-range chunks of `url`, stopping at `filesize` when known.
    Http { url: String, headers: HeaderMap, filesize: Option<u64> },
    /// HLS: a playlist walk from `url`.
    Hls { url: String, headers: HeaderMap },
    /// No single fetchable URL (DASH segments, SABR, no URL): the sidecar download.
    Sidecar,
}

impl ByteSource {
    /// A short label for the chosen path, for logging.
    pub fn label(&self) -> (r: &'static str)
        ensures
            r@ == match self {
                ByteSource::Http { .. } => "http"@,
                ByteSource::Hls { .. } => "hls"@,
                ByteSource::Sidecar => "sidecar"@,
            },
    {
        match self {
            ByteSource::Http { .. } => "http",
            ByteSource::Hls { .. } => "hls",
            ByteSource::Sidecar => "sidecar",
        }
    }
}

/// A protocol served by plain byte-range HTTP.
pub open spec fn direct_protocol(p: Option<Seq<char>>) -> bool {
    p == Some("https"@) || p == Some("http"@)
}

/// A protocol served by an HLS playlist.
pub open spec fn hls_protocol(p: Option<Seq<char>>) -> bool {
    p == Some("m3u8_native"@) || p == Some("m3u8"@)
}

/// The headers a format's producer sends: its `http_headers`, as a header map holds
/// them.
pub open spec fn format_headers(fmt: FormatInfo) -> Multiset<(Seq<char>, Seq<u8>)> {
    match fmt.http_headers {
        Some(ps) => headers_from(pairs_view(ps@)),
        None => Multiset::empty(),
    }
}

/// Whether a format can be fetched straight off its URL with plain HTTP.
pub open spec fn direct_format(fmt: FormatInfo) -> bool {
    direct_protocol(opt_view(fmt.protocol)) && fmt.url@.len() > 0
}

/// Whether this format is served by plain byte-range HTTP: an `http` or `https`
/// protocol with a URL to fetch. Its own question, separate from [`classify_source`],
/// because it is asked without wanting the source: to resume a re-extracted format in
/// place, and to decide whether a track is worth priming.
pub fn is_direct(fmt: &FormatInfo) -> (r: bool)
    ensures
        r == direct_format(*fmt),
{
    let direct = match &fmt.protocol {
        Some(p) => same_text(p.as_str(), "https") || same_text(p.as_str(), "http"),
        None => false,
    };
    direct && fmt.url.as_str().unicode_len() > 0
}

/// Classify a resolved format into the byte path that serves it: HLS for `m3u8` and
/// `m3u8_native`, else byte-range HTTP for a direct format, else the sidecar.
pub fn classify_source(fmt: &FormatInfo) -> (r: ByteSource)
    requires
        fmt.http_headers matches Some(ps) ==> ps.len() < 16384,
    ensures
        match r {
            ByteSource::Hls { url, headers } => hls_protocol(opt_view(fmt.protocol))
                && url@ == fmt.url@ && header_entries(headers) == format_headers(*fmt),
            ByteSource::Http { url, headers, filesize } => !hls_protocol(opt_view(fmt.protocol))
                && direct_format(*fmt) && url@ == fmt.url@ && filesize == fmt.filesize
                && header_entries(headers) == format_headers(*fmt),
            ByteSource::Sidecar => !hls_protocol(opt_view(fmt.protocol)) && !direct_format(*fmt),
        },
{
    let hls = match &fmt.protocol {
        Some(p) => same_text(p.as_str(), "m3u8_native") || same_text(p.as_str(), "m3u8"),
        None => false,
    };
    if hls {
        ByteSource::Hls { url: fmt.url.clone(), headers: build_header_map(&fmt.http_headers) }
    } else if is_direct(fmt) {
        ByteSource::Http {
            url: fmt.url.clone(),
            headers: build_header_map(&fmt.http_headers),
            filesize: fmt.filesize,
        }
    } else {
        ByteSource::Sidecar
    }
}

/// The fresh signed URL and headers of a format that is still direct http(s); `None`
/// once the format has moved to a path that cannot be resumed in place.
pub fn direct_url(fmt: &FormatInfo) -> (r: Option<(String, HeaderMap)>)
    requires
        fmt.http_headers matches Some(ps) ==> ps.len() < 16384,
    ensures
        match r {
            Some(p) => direct_format(*fmt) && p.0@ == fmt.url@ && header_entries(p.1) == format_headers(*fmt),
            None => !direct_format(*fmt),
        },
{
    if is_direct(fmt) {
        Some((fmt.url.clone(), build_header_map(&fmt.http_headers)))
    } else {
        None
    }
}

} // verus!
