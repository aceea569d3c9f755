//! Absolute URLs, as the `url` crate parses them, held by their parts.

use vstd::prelude::*;
use super::text::{last_value, pairs_view, same_text};

verus! {

/// Why a text is not an absolute URL: the reasons `url::ParseError` names.
#[derive(Debug, Clone, Copy, PartialEq, Eq)]
pub enum UrlParseError {
    /// The URL names a scheme that needs a host, but gives an empty one.
    EmptyHost,
    IdnaError,
    InvalidPort,
    InvalidIpv4Address,
    InvalidIpv6Address,
    InvalidDomainCharacter,
    /// The text is not absolute, and there is no base to resolve it against.
    RelativeUrlWithoutBase,
    RelativeUrlWithCannotBeABaseBase,
    SetHostOnCannotBeABaseUrl,
    Overflow,
    /// A reason that a later version of the `url` crate may add.
    Other,
}

/// A parsed URL, as values.
pub struct UrlView {
    /// The URL as the `url` crate serializes it.
    pub serialization: Seq<char>,
    pub host: Option<Seq<char>>,
    /// The path split at `/`, when the path starts with one.
    pub path_segments: Option<Seq<Seq<char>>>,
    /// The query decoded as `application/x-www-form-urlencoded` pairs, in order.
    pub query_pairs: Seq<(Seq<char>, Seq<char>)>,
}

/// A parsed absolute URL: what the `url` crate reports of it.
pub struct UrlParts {
    pub serialization: String,
    pub host: Option<String>,
    pub path_segments: Option<Vec<String>>,
    pub query_pairs: Vec<(String, String)>,
}

impl View for UrlParts {
    type V = UrlView;

    open spec fn view(&self) -> UrlView {
        UrlView {
            serialization: self.serialization@,
            host: match self.host {
                Some(h) => Some(h@),
                None => None,
            },
            path_segments: match self.path_segments {
                Some(segs) => Some(segs@.map_values(|s: String| s@)),
                None => None,
            },
            query_pairs: pairs_view(self.query_pairs@),
        }
    }
}

/// The reason a `url::ParseError` names, told by the message its `Display` writes; a
/// message the crate's version here does not write is [`UrlParseError::Other`].
pub open spec fn error_named(m: Seq<char>) -> UrlParseError {
    if m == "empty host"@ {
        UrlParseError::EmptyHost
    } else if m == "invalid international domain name"@ {
        UrlParseError::IdnaError
    } else if m == "invalid port number"@ {
        UrlParseError::InvalidPort
    } else if m == "invalid IPv4 address"@ {
        UrlParseError::InvalidIpv4Address
    } else if m == "invalid IPv6 address"@ {
        UrlParseError::InvalidIpv6Address
    } else if m == "invalid domain character"@ {
        UrlParseError::InvalidDomainCharacter
    } else if m == "relative URL without a base"@ {
        UrlParseError::RelativeUrlWithoutBase
    } else if m == "relative URL with a cannot-be-a-base base"@ {
        UrlParseError::RelativeUrlWithCannotBeABaseBase
    } else if m == "a cannot-be-a-base URL doesn’t have a host to set"@ {
        UrlParseError::SetHostOnCannotBeABaseUrl
    } else if m == "URLs more than 4 GB are not supported"@ {
        UrlParseError::Overflow
    } else {
        UrlParseError::Other
    }
}

/// The reason a `url::ParseError` with the message `m` names.
pub fn error_from_message(m: &str) -> (r: UrlParseError)
    ensures
        r == error_named(m@),
{
    if same_text(m, "empty host") {
        UrlParseError::EmptyHost
    } else if same_text(m, "invalid international domain name") {
        UrlParseError::IdnaError
    } else if same_text(m, "invalid port number") {
        UrlParseError::InvalidPort
    } else if same_text(m, "invalid IPv4 address") {
        UrlParseError::InvalidIpv4Address
    } else if same_text(m, "invalid IPv6 address") {
        UrlParseError::InvalidIpv6Address
    } else if same_text(m, "invalid domain character") {
        UrlParseError::InvalidDomainCharacter
    } else if same_text(m, "relative URL without a base") {
        UrlParseError::RelativeUrlWithoutBase
    } else if same_text(m, "relative URL with a cannot-be-a-base base") {
        UrlParseError::RelativeUrlWithCannotBeABaseBase
    } else if same_text(m, "a cannot-be-a-base URL doesn’t have a host to set") {
        UrlParseError::SetHostOnCannotBeABaseUrl
    } else if same_text(m, "URLs more than 4 GB are not supported") {
        UrlParseError::Overflow
    } else {
        UrlParseError::Other
    }
}

/// What `url::Url::parse` makes of `input`: its parts, or why it refused.
pub uninterp spec fn parsed_url(input: Seq<char>) -> Result<UrlView, UrlParseError>;

/// The serialization of the URL that `url::Url::join` makes of `input` against the
/// URL serialized as `base`, or why it refused.
pub uninterp spec fn joined_url(base: Seq<char>, input: Seq<char>) -> Result<Seq<char>, UrlParseError>;

/// Parse `input` as an absolute URL with `url::Url::parse`, reporting the host
/// (`host_str`), the path segments (`path_segments`), the decoded query pairs
/// (`query_pairs`) and the serialization (`as_str`), or the `Display` message of the
/// `url::ParseError`. The contract claims only that the outcome is the one `parsed_url`
/// names for `input`, a refusal's reason being the one [`error_named`] reads from its
/// message; what the crate's parser decides is not stated.
#[verifier::external_body]
fn url_parse(input: &str) -> (r: Result<UrlParts, String>)
    ensures
        match r {
            Ok(parts) => parsed_url(input@) == Ok::<UrlView, UrlParseError>(parts@),
            Err(m) => parsed_url(input@) == Err::<UrlView, UrlParseError>(error_named(m@)),
        },
{
    match url::Url::parse(input) {
        Ok(u) => Ok(UrlParts {
            serialization: u.as_str().to_owned(),
            host: u.host_str().map(str::to_owned),
            path_segments: u.path_segments().map(|segs| segs.map(str::to_owned).collect()),
            query_pairs: u.query_pairs().map(|(k, v)| (k.into_owned(), v.into_owned())).collect(),
        }),
        Err(e) => Err(e.to_string()),
    }
}

/// Resolve `input` against the URL serialized as `base` with `url::Url::join` (after
/// parsing `base` back with `url::Url::parse`), returning the result's serialization or
/// the `Display` message of the `url::ParseError`. The contract claims only that the
/// outcome is the one `joined_url` names for the two texts, a refusal's reason being the
/// one [`error_named`] reads from its message; how relative references resolve is not
/// stated.
#[verifier::external_body]
fn url_join(base: &str, input: &str) -> (r: Result<String, String>)
    ensures
        match r {
            Ok(s) => joined_url(base@, input@) == Ok::<Seq<char>, UrlParseError>(s@),
            Err(m) => joined_url(base@, input@) == Err::<Seq<char>, UrlParseError>(error_named(m@)),
        },
{
    let joined = match url::Url::parse(base) {
        Ok(b) => b.join(input),
        Err(e) => Err(e),
    };
    match joined {
        Ok(u) => Ok(u.as_str().to_owned()),
        Err(e) => Err(e.to_string()),
    }
}

/// Parse `input` as an absolute URL: its parts as the `url` crate reports them, or why
/// it is refused.
pub fn parse_url(input: &str) -> (r: Result<UrlParts, UrlParseError>)
    ensures
        match r {
            Ok(parts) => parsed_url(input@) == Ok::<UrlView, UrlParseError>(parts@),
            Err(e) => parsed_url(input@) == Err::<UrlView, UrlParseError>(e),
        },
{
    match url_parse(input) {
        Ok(parts) => Ok(parts),
        Err(m) => Err(error_from_message(m.as_str())),
    }
}

/// Resolve `input` against the URL serialized as `base`: the serialization of the
/// result, or why the `url` crate refused.
pub fn join_url(base: &str, input: &str) -> (r: Result<String, UrlParseError>)
    ensures
        match r {
            Ok(s) => joined_url(base@, input@) == Ok::<Seq<char>, UrlParseError>(s@),
            Err(e) => joined_url(base@, input@) == Err::<Seq<char>, UrlParseError>(e),
        },
{
    match url_join(base, input) {
        Ok(s) => Ok(s),
        Err(m) => Err(error_from_message(m.as_str())),
    }
}

/// The host of `input`, when it parses as an absolute URL that has one.
pub fn host_of(input: &str) -> (r: Option<String>)
    ensures
        match r {
            Some(h) => parsed_url(input@) is Ok && parsed_url(input@)->Ok_0.host == Some(h@),
            None => parsed_url(input@) is Err || parsed_url(input@)->Ok_0.host is None,
        },
{
    match parse_url(input) {
        Ok(parts) => parts.host,
        Err(_) => None,
    }
}

/// Whether `pairs` has a pair whose key is `key`.
pub open spec fn has_key(pairs: Seq<(Seq<char>, Seq<char>)>, key: Seq<char>) -> bool {
    exists|i: int| 0 <= i < pairs.len() && #[trigger] pairs[i].0 == key
}

/// Whether a URL with this host and these query pairs names a YouTube playlist.
pub open spec fn is_yt_playlist_url(host: Option<Seq<char>>, pairs: Seq<(Seq<char>, Seq<char>)>) -> bool {
    match host {
        Some(h) => (h == "www.youtube.com"@ || h == "youtube.com"@ || h == "youtu.be"@)
            && has_key(pairs, "list"@),
        None => false,
    }
}

/// Whether `pairs` has a pair whose key is `key`.
pub fn any_key(pairs: &Vec<(String, String)>, key: &str) -> (r: bool)
    ensures
        r == has_key(pairs_view(pairs@), key@),
{
    let mut i: usize = 0;
    while i < pairs.len()
        invariant
            i <= pairs.len(),
            forall|j: int| 0 <= j < i ==> #[trigger] pairs_view(pairs@)[j].0 != key@,
        decreases pairs.len() - i,
    {
        if same_text(pairs[i].0.as_str(), key) {
            assert(pairs_view(pairs@)[i as int].0 == key@);
            return true;
        }
        i = i + 1;
    }
    false
}

/// The URL questions the bot asks.
pub trait UrlExt {
    fn is_yt_playlist(&self) -> bool;
}

impl UrlExt for UrlParts {
    /// Whether this is a YouTube link naming a playlist: its host is `www.youtube.com`,
    /// `youtube.com` or `youtu.be`, and its query has a `list` key.
    fn is_yt_playlist(&self) -> (r: bool)
        ensures
            r == is_yt_playlist_url(self@.host, self@.query_pairs),
    {
        match &self.host {
            Some(h) => {
                if same_text(h.as_str(), "www.youtube.com") || same_text(h.as_str(), "youtube.com")
                    || same_text(h.as_str(), "youtu.be") {
                    any_key(&self.query_pairs, "list")
                } else {
                    false
                }
            },
            None => false,
        }
    }
}

} // verus!
