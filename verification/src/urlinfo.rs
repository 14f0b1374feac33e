//! URL classification: which observed browser requests belong to the
//! provider's API, which carry a correlation token, and which are replay
//! media assets. Parsing a URL into its parts is delegated to the url
//! crate; every decision over the parts is verified.

use vstd::prelude::*;
use crate::text::{
    contains_seq, contains_sub, ends_with, has_suffix, lower_seq, lowered, str_chars,
};

verus! {

/// The parts of a parsed URL that the capture logic reads.
pub struct UrlParts {
    pub scheme: String,
    /// The host, or empty when the URL has none.
    pub host: String,
    pub path: String,
    /// The query pairs, percent-decoded, in order.
    pub query_pairs: Vec<(String, String)>,
}

/// What the url crate's parser yields for a given input, as this crate
/// reads it; a function of the input text alone.
pub uninterp spec fn spec_url_parts(s: Seq<char>) -> Option<UrlParts>;

/// Relies on the url crate's `Url::parse` (and its accessors `scheme`,
/// `host_str`, `path`, `query_pairs`): splits an absolute URL into scheme,
/// host, path and decoded query pairs.
#[verifier::external_body]
pub fn parse_url(s: &str) -> (r: Option<UrlParts>)
    ensures
        r == spec_url_parts(s@),
{
    match url::Url::parse(s) {
        Ok(u) => Some(
            UrlParts {
                scheme: u.scheme().to_string(),
                host: u.host_str().unwrap_or("").to_string(),
                path: u.path().to_string(),
                query_pairs: u.query_pairs().map(
                    |(k, v)| (k.into_owned(), v.into_owned()),
                ).collect(),
            },
        ),
        Err(_) => None,
    }
}

/// The kinds of provider API request worth capturing.
#[derive(Debug, Clone, Copy, PartialEq, Eq, Structural)]
pub enum RequestKind {
    /// The recording-listing endpoint.
    RecordingList,
    /// The meeting-listing endpoint (also matched by its locale call).
    MeetingList,
    /// The per-meeting recording-file endpoint.
    RecordingFile,
}

impl RequestKind {
    /// Requests of this kind carry the correlation token as a query
    /// parameter.
    pub fn includes_scid(self) -> (r: bool)
        ensures
            r == true,
    {
        match self {
            RequestKind::RecordingList => true,
            RequestKind::MeetingList => true,
            RequestKind::RecordingFile => true,
        }
    }

    /// The endpoint path under which this kind's captured headers are
    /// stored.
    pub fn request_path(self) -> (r: &'static str)
        ensures
            self is RecordingList ==> r@ == "/api/v1/lti/rich/recording/COURSE"@,
            self is MeetingList ==> r@ == "/api/v1/lti/rich/meeting"@,
            self is RecordingFile ==> r@ == "/api/v1/lti/rich/recording/file"@,
    {
        match self {
            RequestKind::RecordingList => "/api/v1/lti/rich/recording/COURSE",
            RequestKind::MeetingList => "/api/v1/lti/rich/meeting",
            RequestKind::RecordingFile => "/api/v1/lti/rich/recording/file",
        }
    }
}

/// The kind a request URL is classified as, by the endpoint-path fragment
/// it carries.
pub open spec fn spec_classify(url: Seq<char>) -> Option<RequestKind> {
    if contains_seq(url, "/api/v1/lti/rich/recording/COURSE"@) {
        Some(RequestKind::RecordingList)
    } else if contains_seq(url, "/api/v1/lti/rich/recording/file"@) {
        Some(RequestKind::RecordingFile)
    } else if contains_seq(url, "/api/v1/lti/rich/meeting/"@) {
        Some(RequestKind::MeetingList)
    } else if contains_seq(url, "/locale/timezones"@) {
        Some(RequestKind::MeetingList)
    } else {
        None
    }
}

/// Classifies one observed request URL.
pub fn classify_request(url: &str) -> (r: Option<RequestKind>)
    ensures
        r == spec_classify(url@),
{
    let u = str_chars(url);
    if contains_sub(&u, &str_chars("/api/v1/lti/rich/recording/COURSE")) {
        Some(RequestKind::RecordingList)
    } else if contains_sub(&u, &str_chars("/api/v1/lti/rich/recording/file")) {
        Some(RequestKind::RecordingFile)
    } else if contains_sub(&u, &str_chars("/api/v1/lti/rich/meeting/")) {
        Some(RequestKind::MeetingList)
    } else if contains_sub(&u, &str_chars("/locale/timezones")) {
        Some(RequestKind::MeetingList)
    } else {
        None
    }
}

/// The first value among the query pairs whose key is `key`.
pub open spec fn spec_first_value(ps: Seq<(String, String)>, key: Seq<char>) -> Option<String>
    decreases ps.len(),
{
    if ps.len() == 0 {
        None
    } else if ps[0].0@ == key {
        Some(ps[0].1)
    } else {
        spec_first_value(ps.drop_first(), key)
    }
}

/// The correlation token a URL carries: the first `lti_scid` query value.
pub open spec fn spec_scid_of(url: Seq<char>) -> Option<String> {
    match spec_url_parts(url) {
        Some(parts) => spec_first_value(parts.query_pairs@, "lti_scid"@),
        None => None,
    }
}

/// Extracts the correlation token from an observed request URL, when the
/// URL parses and carries one.
pub fn extract_scid(url: &str) -> (r: Option<String>)
    ensures
        r == spec_scid_of(url@),
{
    let parsed = parse_url(url);
    proof {
        assert(parsed == spec_url_parts(url@));
    }
    let ghost parsed0 = parsed;
    let parts = match parsed {
        Some(p) => p,
        None => { return None },
    };
    proof {
        assert(parsed0 == Some(parts));
        assert(spec_url_parts(url@) == Some(parts));
    }
    let key = str_chars("lti_scid");
    let n = parts.query_pairs.len();
    proof {
        assert(parts.query_pairs@.subrange(0, n as int) =~= parts.query_pairs@);
    }
    let mut i: usize = 0;
    while i < n
        invariant
            i <= n,
            n == parts.query_pairs@.len(),
            spec_url_parts(url@) == Some(parts),
            spec_first_value(parts.query_pairs@, "lti_scid"@) == spec_first_value(
                parts.query_pairs@.subrange(i as int, n as int),
                "lti_scid"@,
            ),
            key@ == "lti_scid"@,
        decreases n - i,
    {
        let kv = str_chars(parts.query_pairs[i].0.as_str());
        proof {
            assert(parts.query_pairs@.subrange(i as int, n as int)[0] == parts.query_pairs@[i as int]);
        }
        if crate::text::chars_eq(&kv, &key) {
            let value = parts.query_pairs[i].1.clone();
            proof {
                let sub = parts.query_pairs@.subrange(i as int, n as int);
                assert(sub.len() > 0 && sub[0].0@ == "lti_scid"@);
                assert(spec_first_value(sub, "lti_scid"@) == Some(sub[0].1));
                assert(spec_scid_of(url@) == spec_first_value(parts.query_pairs@, "lti_scid"@));
                assert(value == parts.query_pairs@[i as int].1);
            }
            return Some(value);
        }
        proof {
            assert(parts.query_pairs@.subrange(i as int, n as int).drop_first()
                =~= parts.query_pairs@.subrange(i + 1, n as int));
        }
        i += 1;
    }
    proof {
        assert(parts.query_pairs@.subrange(n as int, n as int) =~= Seq::<(String, String)>::empty());
    }
    None
}

/// A replay media asset as the session-capture sniff recognizes one: a
/// `zoom.us` host whose path ends in `.mp4`.
pub open spec fn spec_is_sniff_asset(url: Seq<char>) -> bool {
    match spec_url_parts(url) {
        Some(parts) => ends_with(parts.host@, "zoom.us"@) && ends_with(
            lower_seq(parts.path@),
            ".mp4"@,
        ),
        None => false,
    }
}

/// Recognizes a replay media asset during the session-capture sniff.
pub fn is_sniff_asset(url: &str) -> (r: bool)
    ensures
        r == spec_is_sniff_asset(url@),
{
    match parse_url(url) {
        Some(parts) => {
            let host = str_chars(parts.host.as_str());
            let path = lowered(&str_chars(parts.path.as_str()));
            has_suffix(&host, &str_chars("zoom.us")) && has_suffix(&path, &str_chars(".mp4"))
        },
        None => false,
    }
}

/// A replay media asset as the per-recording pipeline recognizes one: the
/// provider's own host or its CDN alias, and an `.mp4`/`.m3u8` path, the
/// suffix possibly followed by a query.
pub open spec fn spec_is_replay_asset(url: Seq<char>) -> bool {
    match spec_url_parts(url) {
        Some(parts) => {
            let path = lower_seq(parts.path@);
            &&& (ends_with(parts.host@, "zoom.us"@) || contains_seq(
                parts.host@,
                "cloudfront.net"@,
            ))
            &&& (ends_with(path, ".mp4"@) || contains_seq(lower_seq(url), ".mp4?"@) || ends_with(
                path,
                ".m3u8"@,
            ) || contains_seq(path, "playlist.m3u8"@))
        },
        None => false,
    }
}

/// Recognizes the one outgoing request that carries a recording's real,
/// ephemeral media URL.
pub fn is_replay_asset(url: &str) -> (r: bool)
    ensures
        r == spec_is_replay_asset(url@),
{
    match parse_url(url) {
        Some(parts) => {
            let host = str_chars(parts.host.as_str());
            let path = lowered(&str_chars(parts.path.as_str()));
            let full = lowered(&str_chars(url));
            let host_ok = has_suffix(&host, &str_chars("zoom.us")) || contains_sub(
                &host,
                &str_chars("cloudfront.net"),
            );
            let path_ok = has_suffix(&path, &str_chars(".mp4")) || contains_sub(
                &full,
                &str_chars(".mp4?"),
            ) || has_suffix(&path, &str_chars(".m3u8")) || contains_sub(
                &path,
                &str_chars("playlist.m3u8"),
            );
            host_ok && path_ok
        },
        None => false,
    }
}

} // verus!
